use simple_auth::interceptor::{advance, Action, Authorization, Event, Stage};

fn arrived(method: &str, authorization: Authorization) -> Event {
    Event::Arrived { method: method.to_string(), authorization }
}

fn text(s: &str) -> Authorization {
    Authorization::Text(s.to_string())
}

/// Runs one request through the machine with the given checker answers,
/// recording each action asked for.
fn run(event: Event, decode_ok: bool, check_ok: bool) -> Vec<Action> {
    let mut actions = Vec::new();
    let mut stage = Stage::Start;
    let mut next = Some(event);
    while let Some(e) = next.take() {
        assert!(stage.accepts(&e));
        let (s, a) = advance(stage, &e);
        stage = s;
        next = match &a {
            Action::Verify { .. } => Some(Event::Decoded { ok: decode_ok }),
            Action::Validate => Some(Event::Checked { ok: check_ok }),
            _ => None,
        };
        actions.push(a);
    }
    assert!(stage.is_terminal());
    actions
}

fn verify(token: &str) -> Action {
    Action::Verify { token: token.to_string() }
}

#[test]
fn test_middleware_no_token() {
    // A header of another name leaves the authorization absent.
    let actions = run(arrived("GET", Authorization::Absent), true, true);
    assert_eq!(actions, vec![Action::RejectUnauthorized]);
}

#[test]
fn test_middleware_bearer_missing() {
    let actions = run(arrived("GET", text("not bearer")), true, true);
    assert_eq!(actions, vec![Action::RejectUnauthorized]);
}

#[test]
fn test_middleware_authorized() {
    let actions = run(arrived("GET", text("Bearer somethingfun")), true, true);
    assert_eq!(actions, vec![verify("somethingfun"), Action::Validate, Action::Forward]);
}

#[test]
fn options_request_bypasses_authentication() {
    assert_eq!(run(arrived("OPTIONS", Authorization::Absent), false, false), vec![Action::Forward]);
    assert_eq!(run(arrived("OPTIONS", text("garbage")), false, false), vec![Action::Forward]);
    assert_eq!(run(arrived("OPTIONS", Authorization::NotText), false, false), vec![Action::Forward]);
}

#[test]
fn bypass_method_is_exact() {
    assert_eq!(run(arrived("options", Authorization::Absent), true, true), vec![Action::RejectUnauthorized]);
    assert_eq!(run(arrived("OPTIONSX", Authorization::Absent), true, true), vec![Action::RejectUnauthorized]);
}

#[test]
fn missing_header_is_unauthorized() {
    assert_eq!(run(arrived("POST", Authorization::Absent), true, true), vec![Action::RejectUnauthorized]);
}

#[test]
fn non_text_header_is_unauthorized() {
    assert_eq!(run(arrived("GET", Authorization::NotText), true, true), vec![Action::RejectUnauthorized]);
}

#[test]
fn lowercase_scheme_is_unauthorized() {
    assert_eq!(run(arrived("GET", text("bearer foo")), true, true), vec![Action::RejectUnauthorized]);
}

#[test]
fn rejected_claims_are_unauthorized() {
    let actions = run(arrived("GET", text("Bearer tok")), true, false);
    assert_eq!(actions, vec![verify("tok"), Action::Validate, Action::RejectUnauthorized]);
}

#[test]
fn decode_failure_is_propagated() {
    let actions = run(arrived("DELETE", text("Bearer tok")), false, true);
    assert_eq!(actions, vec![verify("tok"), Action::PropagateDecodeError]);
    let actions = run(arrived("DELETE", text("Bearer tok")), false, false);
    assert_eq!(actions, vec![verify("tok"), Action::PropagateDecodeError]);
}

#[test]
fn repeated_runs_decide_alike() {
    for (decode_ok, check_ok) in [(true, true), (true, false), (false, true), (false, false)] {
        let first = run(arrived("GET", text("Bearer abc")), decode_ok, check_ok);
        let second = run(arrived("GET", text("Bearer abc")), decode_ok, check_ok);
        assert_eq!(first, second);
    }
}

#[test]
fn stages_wait_for_their_own_events() {
    let arrival = arrived("GET", Authorization::Absent);
    assert!(Stage::Start.accepts(&arrival));
    assert!(!Stage::Start.accepts(&Event::Decoded { ok: true }));
    assert!(Stage::Verifying.accepts(&Event::Decoded { ok: false }));
    assert!(!Stage::Verifying.accepts(&Event::Checked { ok: true }));
    assert!(Stage::Validating.accepts(&Event::Checked { ok: true }));
    assert!(!Stage::Forwarded.accepts(&arrival));
    assert!(!Stage::Start.is_terminal());
    assert!(Stage::DecodeFailed.is_terminal());
}

#[test]
fn single_steps() {
    assert_eq!(advance(Stage::Verifying, &Event::Decoded { ok: true }), (Stage::Validating, Action::Validate));
    assert_eq!(advance(Stage::Verifying, &Event::Decoded { ok: false }), (Stage::DecodeFailed, Action::PropagateDecodeError));
    assert_eq!(advance(Stage::Validating, &Event::Checked { ok: true }), (Stage::Forwarded, Action::Forward));
    assert_eq!(advance(Stage::Validating, &Event::Checked { ok: false }), (Stage::Unauthorized, Action::RejectUnauthorized));
    assert_eq!(advance(Stage::Start, &arrived("GET", text("Bearer é"))), (Stage::Verifying, verify("é")));
}
