use debugproxy::ai::{ai_tool_action, choose_api_key, tool_call_of, AiClient, AiConfig, ForwardingConfig, ToolAction, ToolCall};
use debugproxy::assistant::{CallCandidate, ReplyChoice};

fn config() -> AiConfig {
    AiConfig { enabled: None, provider: None, model: None, endpoint: None, max_context_lines: None, forwarding: None }
}

fn call(name: &str) -> ToolCall {
    ToolCall {
        name: name.to_string(),
        action: None,
        prefix: None,
        target: None,
        label: None,
        enable: None,
        message: None,
        urgency: None,
    }
}

#[test]
fn client_defaults() {
    let c = AiClient::new(config(), String::new());
    assert_eq!(c.endpoint(), "https://api.deepseek.com/v1/chat/completions");
    assert_eq!(c.model(), "deepseek-v4-flash");
    assert_eq!(c.max_context_lines(), 200);
    assert!(!c.forwarding_enabled());
    assert_eq!(c.webhook_url(), None);
    assert!(!c.is_configured());
    assert_eq!(c.last_response_text(), None);
}

#[test]
fn client_configured() {
    let mut cfg = config();
    cfg.model = Some("m".into());
    cfg.max_context_lines = Some(50);
    cfg.forwarding = Some(ForwardingConfig { enabled: Some(true), webhook_url: Some("https://hook".into()) });
    let mut c = AiClient::new(cfg, "key".into());
    assert_eq!(c.model(), "m");
    assert_eq!(c.max_context_lines(), 50);
    assert!(c.forwarding_enabled());
    assert_eq!(c.webhook_url(), Some("https://hook".to_string()));
    assert!(c.is_configured());
    c.record_response("answer");
    assert_eq!(c.last_response_text(), Some("answer".to_string()));
}

#[test]
fn api_key_choice() {
    assert_eq!(choose_api_key(&vec![None, Some("k2".into()), Some("k3".into())]), Some("k2".to_string()));
    assert_eq!(choose_api_key(&vec![Some(String::new()), Some("k2".into())]), None);
    assert_eq!(choose_api_key(&vec![None, None, None]), None);
}

#[test]
fn tool_actions() {
    let mut t = call("toggle_service");
    t.action = Some("all".into());
    assert!(matches!(ai_tool_action(&t), ToolAction::Toggle { action } if action == "all"));
    let mut a = call("add_route");
    a.prefix = Some("/x".into());
    a.target = Some("https://x".into());
    assert!(matches!(ai_tool_action(&a), ToolAction::AddRoute { label, .. } if label.is_empty()));
    a.target = Some(String::new());
    assert!(matches!(ai_tool_action(&a), ToolAction::Nothing));
    let mut m = call("enable_monitoring");
    m.enable = Some(false);
    assert!(matches!(ai_tool_action(&m), ToolAction::Monitoring { enable: false }));
    let mut f = call("forward_observation");
    f.message = Some("disk full".into());
    assert!(matches!(ai_tool_action(&f), ToolAction::Forward { urgency, .. } if urgency == "medium"));
    assert!(matches!(ai_tool_action(&call("remove_route")), ToolAction::Nothing));
    assert!(matches!(ai_tool_action(&call("dance")), ToolAction::Unknown { name } if name == "dance"));
}

#[test]
fn offered_tools() {
    let t = debugproxy::assistant::tool_specs();
    let names: Vec<&str> = t.iter().map(|s| s.name.as_str()).collect();
    assert_eq!(names, vec!["toggle_service", "add_route", "remove_route", "enable_monitoring", "forward_observation"]);
    assert_eq!(t[1].required, vec!["prefix".to_string(), "target".to_string(), "label".to_string()]);
    assert_eq!(t[3].params[0].kind, "boolean");
    assert_eq!(t[4].params[1].choices, vec!["low", "medium", "high", "critical"]);
    assert!(t[4].params[0].choices.is_empty());
}

#[test]
fn replies_from_the_provider() {
    let mut c = AiClient::new(config(), "k".into());
    let e = c.receive_reply(false, "500 Internal Server Error", None, None);
    assert_eq!(e.err(), Some("AI error (500 Internal Server Error): Unknown AI error".to_string()));
    let e = c.receive_reply(false, "429 Too Many Requests", Some("slow down".into()), None);
    assert_eq!(e.err(), Some("AI error (429 Too Many Requests): slow down".to_string()));
    let e = c.receive_reply(true, "200 OK", None, None);
    assert_eq!(e.err(), Some("No choices in AI response".to_string()));
    assert_eq!(c.last_response_text(), None);
    let choice = ReplyChoice {
        content: None,
        calls: vec![
            CallCandidate { name: Some("add_route".into()), arguments: Some("{}".into()) },
            CallCandidate { name: None, arguments: Some("{}".into()) },
            CallCandidate { name: Some("x".into()), arguments: None },
        ],
    };
    let ok = c.receive_reply(true, "200 OK", None, Some(choice)).ok().unwrap();
    assert_eq!(ok.text, "(no response)");
    assert_eq!(ok.calls, vec![("add_route".to_string(), "{}".to_string())]);
    assert_eq!(c.last_response_text(), Some("(no response)".to_string()));
}

#[test]
fn tool_call_reads_its_arguments() {
    let tc = tool_call_of(
        "add_route",
        "{\"prefix\": \"/api\", \"target\": \"http://localhost:3000\", \"label\": \"API\", \"enable\": true, \"urgency\": 7}",
    );
    assert_eq!(tc.name, "add_route");
    assert_eq!(tc.prefix, Some("/api".to_string()));
    assert_eq!(tc.target, Some("http://localhost:3000".to_string()));
    assert_eq!(tc.label, Some("API".to_string()));
    assert_eq!(tc.enable, Some(true));
    assert_eq!(tc.urgency, None);
    assert_eq!(tc.action, None);
    assert_eq!(tc.message, None);
    match ai_tool_action(&tc) {
        ToolAction::AddRoute { prefix, target, label } => {
            assert_eq!(prefix, "/api");
            assert_eq!(target, "http://localhost:3000");
            assert_eq!(label, "API");
        }
        _ => panic!("expected a route to add"),
    }
}

#[test]
fn tool_call_with_unreadable_arguments_has_none() {
    let tc = tool_call_of("toggle_service", "not json");
    assert_eq!(tc.name, "toggle_service");
    assert_eq!(tc.action, None);
    assert_eq!(tc.enable, None);
    let tc = tool_call_of("enable_monitoring", "{\"enable\": \"yes\"}");
    assert_eq!(tc.enable, None);
    let tc = tool_call_of("enable_monitoring", "{\"enable\": false}");
    assert_eq!(tc.enable, Some(false));
}
