//! End-to-end runs of small pipelines driven by scripted outcomes.

use lumina::{
    ChatEvent, FetchEvent, FetchReply, Graph, JsonValue, Node, ParseNode, FetchNode, ScrapedData,
    ScriptDriver,
};

fn reply(status: u16, body: &str) -> FetchEvent {
    FetchEvent::Reply(FetchReply { status, body: body.to_string() })
}

fn fetch_parse_graph() -> Graph {
    Graph::new()
        .add_node(Node::Fetch(FetchNode::new(5000)))
        .add_node(Node::Parse(ParseNode::new(vec![("title".to_string(), "h1".to_string())])))
}

#[test]
fn test_scraped_data_creation() {
    let data = ScrapedData::new("https://test.com".to_string(), "<html></html>".to_string());
    assert_eq!(data.url, "https://test.com");
    assert_eq!(data.html, "<html></html>");
    assert!(data.metadata.is_empty());
    assert!(data.extracted.is_empty());
}

#[test]
fn scripted_run_extracts_title() {
    let graph = fetch_parse_graph();
    let mut driver = ScriptDriver::new(vec![reply(200, "<h1>Hi</h1>")], vec![]);
    let result = graph.execute("https://example.com".to_string(), &mut driver);
    assert!(result.is_ok());
    let data = result.unwrap();
    assert_eq!(data.url, "https://example.com");
    assert!(data.extracted.contains_key("title"));
    assert_eq!(
        data.extracted.get("title"),
        Some(&JsonValue::Texts(vec!["Hi".to_string()]))
    );
    assert_eq!(data.metadata.get("status_code"), Some(&"200".to_string()));
}

#[test]
fn scripted_parallel_preserves_order_and_isolation() {
    let graph = fetch_parse_graph();
    let mut driver = ScriptDriver::new(
        vec![
            FetchEvent::Transport("connection refused".to_string()),
            reply(200, "<h1>Hi</h1>"),
        ],
        vec![],
    );
    let urls = vec![
        "https://example.com".to_string(),
        "https://example.org".to_string(),
    ];
    let results = graph.execute_parallel(urls, &mut driver);
    assert_eq!(results.len(), 2);
    assert!(results[0].is_err());
    assert!(results[1].is_ok());
    let second = results[1].as_ref().unwrap();
    assert_eq!(second.url, "https://example.org");
    assert_eq!(
        second.extracted.get("title"),
        Some(&JsonValue::Texts(vec!["Hi".to_string()]))
    );
}

#[test]
fn non_success_status_fails_the_run() {
    let graph = fetch_parse_graph();
    let mut driver = ScriptDriver::new(vec![reply(404, "gone")], vec![]);
    let result = graph.execute("https://example.com".to_string(), &mut driver);
    assert!(result.is_err());
    let msg = result.err().unwrap().message();
    assert!(msg.starts_with("Graph execution failed: Node 'FetchNode' failed: "));
    assert!(msg.contains("HTTP status 404"));
}

#[test]
fn empty_pipeline_returns_fresh_record() {
    let graph = Graph::new();
    let mut driver = ScriptDriver::new(vec![], vec![]);
    let result = graph.execute("https://example.com".to_string(), &mut driver);
    let data = result.unwrap();
    assert_eq!(data.url, "https://example.com");
    assert_eq!(data.html, "");
    assert!(data.metadata.is_empty());
    assert!(data.extracted.is_empty());
}

#[test]
fn batch_runs_in_input_order() {
    let graph = fetch_parse_graph();
    let mut driver = ScriptDriver::new(
        vec![reply(200, "<h1>a</h1>"), reply(200, "<h1>b</h1>")],
        vec![],
    );
    let urls = vec!["https://a.example".to_string(), "https://b.example".to_string()];
    let results = graph.execute_batch(urls, &mut driver);
    assert_eq!(results.len(), 2);
    assert_eq!(
        results[0].as_ref().unwrap().extracted.get("title"),
        Some(&JsonValue::Texts(vec!["a".to_string()]))
    );
    assert_eq!(
        results[1].as_ref().unwrap().extracted.get("title"),
        Some(&JsonValue::Texts(vec!["b".to_string()]))
    );
}

#[test]
fn chat_events_are_consumed_in_order() {
    let mut driver = ScriptDriver::new(vec![], vec![ChatEvent::Reply("one".to_string())]);
    let graph = Graph::new().add_node(Node::Llm(
        lumina::LLMNode::new("Summarize".to_string()).with_api_key("k".to_string()),
    ));
    let data = graph.execute("https://example.com".to_string(), &mut driver).unwrap();
    assert_eq!(
        data.extracted.get("llm_extraction"),
        Some(&JsonValue::Text("one".to_string()))
    );
}
