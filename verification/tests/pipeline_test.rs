//! Stage-level behaviour: overwrites, failure attribution, and the
//! built-in stages' exact effects.

use lumina::{
    AttributeNode, ChatEvent, FetchEvent, FetchReply, Graph, JsonNode, JsonValue, LLMNode,
    LLMParseNode, Node, ParseNode, FetchNode, RegexNode, ScriptDriver,
};

fn reply(status: u16, body: &str) -> FetchEvent {
    FetchEvent::Reply(FetchReply { status, body: body.to_string() })
}

fn run_on_body(body: &str, tail: Vec<Node>) -> Result<lumina::ScrapedData, lumina::LuminaError> {
    let mut graph = Graph::new().add_node(Node::Fetch(FetchNode::new(1000)));
    for node in tail {
        graph = graph.add_node(node);
    }
    let mut driver = ScriptDriver::new(vec![reply(200, body)], vec![]);
    graph.execute("https://example.com".to_string(), &mut driver)
}

#[test]
fn later_stage_wins_on_a_shared_key() {
    let data = run_on_body(
        "aaa bbb",
        vec![
            Node::Regex(RegexNode::new(vec![("w".to_string(), "a+".to_string())])),
            Node::Regex(RegexNode::new(vec![("w".to_string(), "b+".to_string())])),
        ],
    )
    .unwrap();
    assert_eq!(data.extracted.get("w"), Some(&JsonValue::Texts(vec!["bbb".to_string()])));
}

#[test]
fn every_written_key_is_present() {
    let data = run_on_body(
        "aaa bbb",
        vec![
            Node::Regex(RegexNode::new(vec![("first".to_string(), "a+".to_string())])),
            Node::Regex(RegexNode::new(vec![("second".to_string(), "b+".to_string())])),
        ],
    )
    .unwrap();
    assert!(data.extracted.contains_key("first"));
    assert!(data.extracted.contains_key("second"));
    assert_eq!(data.extracted.len(), 2);
}

#[test]
fn failure_names_the_failing_stage() {
    let result = run_on_body(
        "<h1>ok</h1>",
        vec![
            Node::Parse(ParseNode::new(vec![("title".to_string(), "h1".to_string())])),
            Node::Regex(RegexNode::new(vec![("bad".to_string(), "(".to_string())])),
        ],
    );
    assert!(result.is_err());
    let msg = result.err().unwrap().message();
    assert!(msg.starts_with("Graph execution failed: Node 'RegexNode' failed: Parse error: Invalid regex: "));
}

#[test]
fn invalid_selector_stops_the_stage() {
    let result = run_on_body(
        "<h1>ok</h1>",
        vec![Node::Parse(ParseNode::new(vec![("x".to_string(), "[".to_string())]))],
    );
    let msg = result.err().unwrap().message();
    assert!(msg.starts_with("Graph execution failed: Node 'ParseNode' failed: Parse error: Invalid selector: "));
}

#[test]
fn parse_trims_and_drops_empty_matches() {
    let data = run_on_body(
        "<p> </p><p> x </p>",
        vec![Node::Parse(ParseNode::new(vec![("t".to_string(), "p".to_string())]))],
    )
    .unwrap();
    assert_eq!(data.extracted.get("t"), Some(&JsonValue::Texts(vec!["x".to_string()])));
}

#[test]
fn attribute_stage_collects_attribute_values() {
    let node = AttributeNode::new(vec![]).with_attribute(
        "links".to_string(),
        "a".to_string(),
        "href".to_string(),
    );
    let data = run_on_body("<a href=\"x\">l</a><a>no href</a>", vec![Node::Attribute(node)])
        .unwrap();
    assert_eq!(data.extracted.get("links"), Some(&JsonValue::Texts(vec!["x".to_string()])));
}

#[test]
fn json_stage_walks_a_path() {
    let data = run_on_body(
        "{\"a\":{\"b\":1}}",
        vec![Node::Json(JsonNode::new("a.b".to_string()))],
    )
    .unwrap();
    assert_eq!(data.extracted.get("a.b"), Some(&JsonValue::Raw("1".to_string())));
}

#[test]
fn json_stage_empty_path_takes_whole_document() {
    let data = run_on_body("{\"a\":1}", vec![Node::Json(JsonNode::new(String::new()))]).unwrap();
    assert_eq!(data.extracted.get("json"), Some(&JsonValue::Raw("{\"a\":1}".to_string())));
}

#[test]
fn json_stage_reports_a_missing_path() {
    let result = run_on_body(
        "{\"a\":{\"b\":1}}",
        vec![Node::Json(JsonNode::new("a.c".to_string()))],
    );
    let msg = result.err().unwrap().message();
    assert!(msg.contains("Path not found: a.c"));
}

#[test]
fn json_stage_reports_invalid_json() {
    let result = run_on_body("not json", vec![Node::Json(JsonNode::new("a".to_string()))]);
    let msg = result.err().unwrap().message();
    assert!(msg.contains("Invalid JSON: "));
}

#[test]
fn llm_stage_records_a_reply() {
    let graph = Graph::new()
        .add_node(Node::Fetch(FetchNode::new(1000)))
        .add_node(Node::Llm(
            LLMNode::new("Summarize".to_string()).with_api_key("secret".to_string()),
        ));
    let mut driver = ScriptDriver::new(
        vec![reply(200, "<p>body</p>")],
        vec![ChatEvent::Reply("a summary".to_string())],
    );
    let data = graph.execute("https://example.com".to_string(), &mut driver).unwrap();
    assert_eq!(
        data.extracted.get("llm_extraction"),
        Some(&JsonValue::Text("a summary".to_string()))
    );
    assert_eq!(data.metadata.get("llm_status"), Some(&"success".to_string()));
    assert_eq!(data.metadata.get("llm_provider"), Some(&"anthropic".to_string()));
    assert_eq!(data.metadata.get("llm_prompt"), Some(&"Summarize".to_string()));
}

#[test]
fn llm_stage_swallows_a_provider_failure() {
    let graph = Graph::new().add_node(Node::Llm(
        LLMNode::new("Summarize".to_string()).with_api_key("secret".to_string()),
    ));
    let mut driver = ScriptDriver::new(vec![], vec![ChatEvent::Failure("boom".to_string())]);
    let data = graph.execute("https://example.com".to_string(), &mut driver).unwrap();
    assert_eq!(
        data.metadata.get("llm_status"),
        Some(&"error: Node execution failed: LLM API error: boom".to_string())
    );
    assert!(!data.extracted.contains_key("llm_extraction"));
}

#[test]
fn llm_stage_records_a_missing_key() {
    let graph = Graph::new().add_node(Node::Llm(LLMNode::new("Summarize".to_string())));
    let mut driver = ScriptDriver::new(vec![], vec![]);
    let data = graph.execute("https://example.com".to_string(), &mut driver).unwrap();
    assert_eq!(
        data.metadata.get("llm_status"),
        Some(&"error: Node execution failed: ANTHROPIC_API_KEY not set".to_string())
    );
}

#[test]
fn llm_parse_applies_generated_selectors() {
    let graph = Graph::new()
        .add_node(Node::Fetch(FetchNode::new(1000)))
        .add_node(Node::LlmParse(
            LLMParseNode::new("titles".to_string()).with_api_key("secret".to_string()),
        ));
    let mut driver = ScriptDriver::new(
        vec![reply(200, "<h1>Hi</h1>")],
        vec![ChatEvent::Reply(
            "[{\"key\": \"title\", \"selector\": \"h1\"}]".to_string(),
        )],
    );
    let data = graph.execute("https://example.com".to_string(), &mut driver).unwrap();
    assert_eq!(data.extracted.get("title"), Some(&JsonValue::Texts(vec!["Hi".to_string()])));
    assert_eq!(
        data.metadata.get("generated_selectors"),
        Some(&"[[\"title\",\"h1\"]]".to_string())
    );
    assert_eq!(data.metadata.get("smart_parse_goal"), Some(&"titles".to_string()));
}

#[test]
fn llm_parse_fails_on_unknown_provider() {
    let graph = Graph::new().add_node(Node::LlmParse(
        LLMParseNode::new("titles".to_string())
            .with_provider("foo".to_string())
            .with_api_key("secret".to_string()),
    ));
    let mut driver = ScriptDriver::new(vec![], vec![]);
    let result = graph.execute("https://example.com".to_string(), &mut driver);
    let msg = result.err().unwrap().message();
    assert_eq!(
        msg,
        "Graph execution failed: Node 'LLMParseNode' failed: Node execution failed: Unsupported provider: foo"
    );
}

#[test]
fn llm_parse_rejects_a_non_array_reply() {
    let graph = Graph::new().add_node(Node::LlmParse(
        LLMParseNode::new("titles".to_string()).with_api_key("secret".to_string()),
    ));
    let mut driver = ScriptDriver::new(vec![], vec![ChatEvent::Reply("{}".to_string())]);
    let result = graph.execute("https://example.com".to_string(), &mut driver);
    let msg = result.err().unwrap().message();
    assert!(msg.contains("Failed to parse LLM response: expected a JSON array"));
}

#[test]
fn delay_stage_leaves_the_record_alone() {
    let data = run_on_body("<h1>x</h1>", vec![Node::Delay(lumina::DelayNode::new(5))]).unwrap();
    assert_eq!(data.html, "<h1>x</h1>");
    assert!(data.extracted.is_empty());
}
