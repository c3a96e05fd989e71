//! The task layer: submission, execution with retry, the store's
//! round-trip and listing order, and the serialized result text.

use lumina::{
    Graph, JsonValue, LLMClientBuilder, Node, ParseNode, ScriptDriver, Task, TaskExecutor,
    TaskStatus, TaskStore,
};

fn failing_graph() -> Graph {
    Graph::new().add_node(Node::Parse(ParseNode::new(vec![(
        "x".to_string(),
        "[".to_string(),
    )])))
}

fn succeeding_graph() -> Graph {
    Graph::new().add_node(Node::Parse(ParseNode::new(vec![(
        "title".to_string(),
        "h1".to_string(),
    )])))
}

fn plain_task(id: &str, status: TaskStatus, created_at: &str) -> Task {
    Task {
        id: id.to_string(),
        url: "https://example.com".to_string(),
        status,
        retry_count: 0,
        max_retries: 3,
        result: None,
        error: None,
        created_at: created_at.to_string(),
        updated_at: created_at.to_string(),
        graph: None,
    }
}

#[test]
fn fresh_task_is_pending_with_budget() {
    let t = Task::new("https://example.com".to_string(), succeeding_graph());
    assert_eq!(t.status, TaskStatus::Pending);
    assert_eq!(t.retry_count, 0);
    assert_eq!(t.max_retries, 3);
    assert_eq!(t.id.len(), 36);
    assert_eq!(t.created_at, t.updated_at);
    assert!(t.result.is_none());
    assert!(t.error.is_none());
    let t2 = Task::new("https://example.com".to_string(), succeeding_graph());
    assert_ne!(t.id, t2.id);
    assert!(!t.created_at.is_empty());
}

#[test]
fn with_max_retries_and_should_retry() {
    let t = Task::new("https://example.com".to_string(), succeeding_graph()).with_max_retries(1);
    assert_eq!(t.max_retries, 1);
    assert!(!t.should_retry());
    let mut f = t;
    f.status = TaskStatus::Failed;
    assert!(f.should_retry());
    f.retry_count = 1;
    assert!(!f.should_retry());
}

#[test]
fn submit_then_get_shows_pending() {
    let mut ex = TaskExecutor::new();
    let task = Task::new("https://example.com".to_string(), succeeding_graph());
    let id = ex.submit(task).unwrap();
    let got = ex.get_task(&id).unwrap().unwrap();
    assert_eq!(got.status, TaskStatus::Pending);
    assert_eq!(got.retry_count, 0);
    assert!(got.graph.is_none());
}

#[test]
fn failing_task_exhausts_its_budget_once() {
    let mut ex = TaskExecutor::new();
    let task =
        Task::new("https://example.com".to_string(), failing_graph()).with_max_retries(2);
    let id = ex.submit(task).unwrap();
    let mut driver = ScriptDriver::new(vec![], vec![]);
    ex.execute(&id, &mut driver).unwrap();
    let got = ex.get_task(&id).unwrap().unwrap();
    assert_eq!(got.status, TaskStatus::Failed);
    assert_eq!(got.retry_count, 2);
    assert!(got.error.is_some());
    assert!(!got.error.unwrap().is_empty());
    // a further manual run must not pass the budget
    ex.execute(&id, &mut driver).unwrap();
    let again = ex.get_task(&id).unwrap().unwrap();
    assert_eq!(again.status, TaskStatus::Failed);
    assert_eq!(again.retry_count, 2);
}

#[test]
fn succeeding_task_keeps_its_counter() {
    let mut ex = TaskExecutor::new();
    let task = Task::new("https://example.com".to_string(), succeeding_graph());
    let id = ex.submit(task).unwrap();
    let mut driver = ScriptDriver::new(vec![], vec![]);
    ex.execute(&id, &mut driver).unwrap();
    let got = ex.get_task(&id).unwrap().unwrap();
    assert_eq!(got.status, TaskStatus::Success);
    assert_eq!(got.retry_count, 0);
    assert_eq!(got.result, Some("{\"title\":[]}".to_string()));
    assert!(got.error.is_none());
}

#[test]
fn execute_unknown_id_fails_cleanly() {
    let mut ex = TaskExecutor::new();
    let mut driver = ScriptDriver::new(vec![], vec![]);
    let err = ex.execute("nope", &mut driver).err().unwrap();
    assert_eq!(err.message(), "Node execution failed: Task not found");
}

#[test]
fn execute_without_pipeline_fails_cleanly() {
    let mut ex = TaskExecutor::new();
    let id = ex.submit(plain_task("t1", TaskStatus::Pending, "2024-01-01T00:00:00+00:00"))
        .unwrap();
    let mut driver = ScriptDriver::new(vec![], vec![]);
    let err = ex.execute(&id, &mut driver).err().unwrap();
    assert_eq!(err.message(), "Node execution failed: Task graph not found");
}

#[test]
fn list_by_status_is_newest_first_and_filtered() {
    let mut store = TaskStore::new();
    store.save(&plain_task("a", TaskStatus::Success, "2024-01-01T00:00:00+00:00")).unwrap();
    store.save(&plain_task("b", TaskStatus::Failed, "2024-01-02T00:00:00+00:00")).unwrap();
    store.save(&plain_task("c", TaskStatus::Success, "2024-01-03T00:00:00+00:00")).unwrap();
    store.save(&plain_task("d", TaskStatus::Success, "2024-01-02T12:00:00+00:00")).unwrap();
    let listed = store.list_by_status(TaskStatus::Success).unwrap();
    let ids: Vec<&str> = listed.iter().map(|t| t.id.as_str()).collect();
    assert_eq!(ids, vec!["c", "d", "a"]);
}

#[test]
fn overwritten_status_leaves_the_listing() {
    let mut store = TaskStore::new();
    store.save(&plain_task("a", TaskStatus::Success, "2024-01-01T00:00:00+00:00")).unwrap();
    let mut flipped = plain_task("a", TaskStatus::Failed, "2024-01-01T00:00:00+00:00");
    flipped.error = Some("broke".to_string());
    store.save(&flipped).unwrap();
    assert!(store.list_by_status(TaskStatus::Success).unwrap().is_empty());
    let failed = store.list_by_status(TaskStatus::Failed).unwrap();
    assert_eq!(failed.len(), 1);
    assert_eq!(failed[0].id, "a");
}

#[test]
fn save_get_round_trip_keeps_first_creation_time() {
    let mut store = TaskStore::new();
    let first = plain_task("a", TaskStatus::Pending, "2024-01-01T00:00:00+00:00");
    store.save(&first).unwrap();
    let mut second = plain_task("a", TaskStatus::Success, "2024-06-01T00:00:00+00:00");
    second.retry_count = 2;
    second.result = Some("{}".to_string());
    second.error = Some("old".to_string());
    second.updated_at = "2024-06-02T00:00:00+00:00".to_string();
    store.save(&second).unwrap();
    let got = store.get("a").unwrap().unwrap();
    assert_eq!(got.status, TaskStatus::Success);
    assert_eq!(got.retry_count, 2);
    assert_eq!(got.result, Some("{}".to_string()));
    assert_eq!(got.error, Some("old".to_string()));
    assert_eq!(got.updated_at, "2024-06-02T00:00:00+00:00");
    assert_eq!(got.created_at, "2024-01-01T00:00:00+00:00");
    assert!(store.get("missing").unwrap().is_none());
}

#[test]
fn status_text_round_trip() {
    assert_eq!(TaskStatus::Pending.as_text(), "Pending");
    assert_eq!(TaskStatus::Running.as_text(), "Running");
    assert_eq!(TaskStatus::Success.as_text(), "Success");
    assert_eq!(TaskStatus::Failed.as_text(), "Failed");
    assert_eq!(TaskStatus::parse_text("Running"), TaskStatus::Running);
    assert_eq!(TaskStatus::parse_text("Success"), TaskStatus::Success);
    assert_eq!(TaskStatus::parse_text("Failed"), TaskStatus::Failed);
    assert_eq!(TaskStatus::parse_text("Pending"), TaskStatus::Pending);
    assert_eq!(TaskStatus::parse_text("weird"), TaskStatus::Pending);
}

#[test]
fn rendered_result_escapes_strings() {
    let mut data = lumina::ScrapedData::new("u".to_string(), String::new());
    data.extracted.insert(
        "quote".to_string(),
        JsonValue::Text("a\"b\\c\nd".to_string()),
    );
    data.extracted.insert(
        "list".to_string(),
        JsonValue::Texts(vec!["x".to_string(), "y".to_string()]),
    );
    let rendered = lumina::json::render_extracted(&data.extracted);
    assert_eq!(rendered, "{\"quote\":\"a\\\"b\\\\c\\nd\",\"list\":[\"x\",\"y\"]}");
}

#[test]
fn client_builder_rejects_bad_configurations() {
    let err = LLMClientBuilder::new("foo".to_string(), Some("k".to_string()), None)
        .build()
        .err()
        .unwrap();
    assert_eq!(err.message(), "Node execution failed: Unsupported provider: foo");
    let err = LLMClientBuilder::new("anthropic".to_string(), None, None).build().err().unwrap();
    assert_eq!(err.message(), "Node execution failed: ANTHROPIC_API_KEY not set");
    let err = LLMClientBuilder::new("OpenAI".to_string(), None, None).build().err().unwrap();
    assert_eq!(err.message(), "Node execution failed: OPENAI_API_KEY not set");
}

#[test]
fn client_builder_accepts_known_providers() {
    assert!(LLMClientBuilder::new("anthropic".to_string(), Some("k".to_string()), None)
        .build()
        .is_ok());
    assert!(LLMClientBuilder::new(
        "openai".to_string(),
        Some("k".to_string()),
        Some("https://example.com/v1".to_string())
    )
    .build()
    .is_ok());
}
