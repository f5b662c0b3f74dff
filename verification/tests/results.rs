use ipc_bridge::ExecutionResult;
use ipc_bridge::dispatch::{route_message, HostAction};
use ipc_bridge::emit::render_script;
use ipc_bridge::failure_result;
use ipc_bridge::outcome::command_result;
use ipc_bridge::outcome::content_type_is_html;
use ipc_bridge::outcome::proxy_response_result;

#[test]
fn zero_exit_yields_success_and_stdout() {
    let r = command_result(String::from("42"), true, b"hi\n".to_vec(), Vec::new());
    assert_eq!(r.callback_id, "42");
    assert!(r.success);
    assert_eq!(r.payload, "hi\n");
}

#[test]
fn nonzero_exit_yields_failure_and_stderr() {
    let r = command_result(String::from("7"), false, b"ignored".to_vec(), Vec::new());
    assert_eq!(r.callback_id, "7");
    assert!(!r.success);
    assert_eq!(r.payload, "");
}

#[test]
fn captured_output_is_lossily_decoded() {
    let r = command_result(String::from("1"), true, vec![0xff, 0xfe, b'a'], Vec::new());
    assert!(r.success);
    assert_eq!(r.payload, "\u{fffd}\u{fffd}a");
}

#[test]
fn spawn_failure_becomes_a_failure_result() {
    let r = failure_result(String::from("5"), String::from("no such interpreter"));
    assert_eq!(r.callback_id, "5");
    assert!(!r.success);
    assert_eq!(r.payload, "no such interpreter");
}

#[test]
fn html_content_types_are_recognised() {
    assert!(content_type_is_html("text/html"));
    assert!(content_type_is_html("text/html; charset=utf-8"));
    assert!(!content_type_is_html("image/png"));
    assert!(!content_type_is_html("application/json"));
}

#[test]
fn non_html_response_is_returned_unmodified() {
    let body = b"<a href=\"/x\">".to_vec();
    let r = proxy_response_result(
        String::from("3"),
        "https://example.com/a/",
        "image/png",
        body,
    );
    assert!(r.success);
    assert_eq!(r.payload, "<a href=\"/x\">");
}

#[test]
fn binary_response_is_lossily_decoded_without_rewriting() {
    let r = proxy_response_result(
        String::from("3"),
        "https://example.com/p.png",
        "image/png",
        vec![0x89, b'P', b'N', b'G'],
    );
    assert!(r.success);
    assert_eq!(r.payload, "\u{fffd}PNG");
}

#[test]
fn script_embeds_the_result_fields() {
    let r = ExecutionResult {
        callback_id: String::from("42"),
        success: true,
        payload: String::from("hi\n"),
    };
    assert_eq!(render_script(&r), "window.__resolvePromise('42', true, \"hi\\n\")");
}

#[test]
fn script_reports_failure_as_a_bare_boolean() {
    let r = ExecutionResult {
        callback_id: String::from("7"),
        success: false,
        payload: String::from(""),
    };
    assert_eq!(render_script(&r), "window.__resolvePromise('7', false, \"\")");
}

#[test]
fn echo_command_emits_its_standard_output() {
    let act = route_message("{\"type\":\"Command\",\"command\":\"echo hi\",\"callback_id\":\"42\"}");
    let req = match act {
        HostAction::RunCommand(c) => c,
        _ => panic!("expected a command"),
    };
    assert_eq!(req.command, "echo hi");
    let r = command_result(req.callback_id, true, b"hi\n".to_vec(), Vec::new());
    assert_eq!(render_script(&r), "window.__resolvePromise('42', true, \"hi\\n\")");
}

#[test]
fn failing_command_emits_its_standard_error() {
    let act = route_message("{\"type\":\"Command\",\"command\":\"exit 1\",\"callback_id\":\"7\"}");
    let req = match act {
        HostAction::RunCommand(c) => c,
        _ => panic!("expected a command"),
    };
    assert_eq!(req.command, "exit 1");
    let r = command_result(req.callback_id, false, Vec::new(), Vec::new());
    assert!(!r.success);
    assert_eq!(r.payload, "");
    assert_eq!(render_script(&r), "window.__resolvePromise('7', false, \"\")");
}

#[test]
fn script_escapes_quotes_backslashes_and_controls() {
    let r = ExecutionResult {
        callback_id: String::from("9"),
        success: true,
        payload: String::from("a\"b\\c\t\r\n\u{8}\u{c}\u{1}\u{1f}z"),
    };
    assert_eq!(
        render_script(&r),
        "window.__resolvePromise('9', true, \"a\\\"b\\\\c\\t\\r\\n\\b\\f\\u0001\\u001fz\")",
    );
}
