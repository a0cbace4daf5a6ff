use debugproxy::commands::Command;
use debugproxy::requests::{
    api_command_of_body, body_error_text, logcat_filter_of_body, observation_of_body, optional_field,
    question_of_body, BodyError,
};

#[test]
fn cmd_body_that_is_not_json_is_refused() {
    let r = api_command_of_body(b"monitor");
    assert!(matches!(r, Err(BodyError::InvalidJson)));
}

#[test]
fn cmd_body_without_cmd_text_is_refused() {
    assert!(matches!(api_command_of_body(b"{}"), Err(BodyError::MissingField)));
    assert!(matches!(api_command_of_body(b"{\"cmd\": 5}"), Err(BodyError::MissingField)));
    assert!(matches!(api_command_of_body(b"[\"cmd\"]"), Err(BodyError::MissingField)));
}

#[test]
fn cmd_body_with_blank_cmd_is_refused() {
    assert!(matches!(api_command_of_body(b"{\"cmd\": \"   \"}"), Err(BodyError::MissingField)));
}

#[test]
fn cmd_body_gives_the_command() {
    assert!(matches!(api_command_of_body(b"{\"cmd\": \"monitor\"}"), Ok(Command::Monitor)));
    match api_command_of_body(b"{\"cmd\": \"add /api http://localhost:3000\"}") {
        Ok(Command::AddRoute { prefix, target, label }) => {
            assert_eq!(prefix, "/api");
            assert_eq!(target, "http://localhost:3000");
            assert_eq!(label, "API");
        }
        _ => panic!("expected a route to add"),
    }
    match api_command_of_body(b"{\"cmd\": \"none\"}") {
        Ok(Command::Filter { cmd }) => assert_eq!(cmd, "none"),
        _ => panic!("expected a filter command"),
    }
}

#[test]
fn refused_body_answers() {
    assert_eq!(body_error_text(&BodyError::InvalidJson, "cmd"), "Invalid JSON body");
    assert_eq!(body_error_text(&BodyError::MissingField, "cmd"), "Missing \"cmd\" field");
    assert_eq!(body_error_text(&BodyError::MissingField, "question"), "Missing \"question\" field");
}

#[test]
fn question_body_cases() {
    assert!(matches!(question_of_body(b"{"), Err(BodyError::InvalidJson)));
    assert!(matches!(question_of_body(b"{}"), Err(BodyError::MissingField)));
    assert!(matches!(question_of_body(b"{\"question\": \"\"}"), Err(BodyError::MissingField)));
    match question_of_body(b"{\"question\": \"why 500?\"}") {
        Ok((q, c)) => {
            assert_eq!(q, "why 500?");
            assert_eq!(c, None);
        }
        _ => panic!("expected a question"),
    }
    match question_of_body(b"{\"question\": \"why?\", \"context\": \"GET /x 500\"}") {
        Ok((q, c)) => {
            assert_eq!(q, "why?");
            assert_eq!(c, Some("GET /x 500".to_string()));
        }
        _ => panic!("expected a question with context"),
    }
}

#[test]
fn observation_body_cases() {
    assert!(matches!(observation_of_body(b"nope"), Err(BodyError::InvalidJson)));
    assert!(matches!(observation_of_body(b"{\"urgency\": \"high\"}"), Err(BodyError::MissingField)));
    match observation_of_body(b"{\"message\": \"db down\"}") {
        Ok((m, u)) => {
            assert_eq!(m, "db down");
            assert_eq!(u, "medium");
        }
        _ => panic!("expected an observation"),
    }
    match observation_of_body(b"{\"message\": \"db down\", \"urgency\": \"high\"}") {
        Ok((m, u)) => {
            assert_eq!(m, "db down");
            assert_eq!(u, "high");
        }
        _ => panic!("expected an observation"),
    }
}

#[test]
fn optional_field_cases() {
    assert_eq!(optional_field(b"not json", "context"), "");
    assert_eq!(optional_field(b"{}", "context"), "");
    assert_eq!(optional_field(b"{\"context\": 3}", "context"), "");
    assert_eq!(optional_field(b"{\"context\": \"extra\"}", "context"), "extra");
}

#[test]
fn logcat_filter_body_cases() {
    assert!(matches!(logcat_filter_of_body(b"x"), Err(BodyError::InvalidJson)));
    match logcat_filter_of_body(b"{}") {
        Ok(f) => assert_eq!(f, ""),
        _ => panic!("expected no filter"),
    }
    match logcat_filter_of_body(b"{\"filter\": \"MyApp:D\"}") {
        Ok(f) => assert_eq!(f, "MyApp:D"),
        _ => panic!("expected a filter"),
    }
}
