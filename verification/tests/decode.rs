use ipc_bridge::dispatch::HostAction;
use ipc_bridge::dispatch::route_message;
use ipc_bridge::envelope::DecodeError;
use ipc_bridge::envelope::IpcMessage;
use ipc_bridge::envelope::decode_message;

#[test]
fn decodes_command_envelope() {
    let r = decode_message("{\"type\":\"Command\",\"command\":\"echo hi\",\"callback_id\":\"42\"}");
    match r {
        Ok(IpcMessage::Command(c)) => {
            assert_eq!(c.command, "echo hi");
            assert_eq!(c.callback_id, "42");
        }
        _ => panic!("expected a command envelope"),
    }
}

#[test]
fn decodes_proxy_envelope() {
    let r = decode_message("{\"type\":\"Proxy\",\"url\":\"https://example.com/\",\"callback_id\":\"7\"}");
    match r {
        Ok(IpcMessage::Proxy(p)) => {
            assert_eq!(p.url, "https://example.com/");
            assert_eq!(p.callback_id, "7");
        }
        _ => panic!("expected a proxy envelope"),
    }
}

#[test]
fn decodes_with_whitespace_and_any_member_order() {
    let r = decode_message(
        " { \"callback_id\" : \"9\" ,\n\t\"command\" : \"ls\" , \"type\" : \"Command\" } ",
    );
    match r {
        Ok(IpcMessage::Command(c)) => {
            assert_eq!(c.command, "ls");
            assert_eq!(c.callback_id, "9");
        }
        _ => panic!("expected a command envelope"),
    }
}

#[test]
fn decodes_string_escapes() {
    let r = decode_message(
        "{\"type\":\"Command\",\"command\":\"say \\\"hi\\\"\\n\",\"callback_id\":\"a\\\\b\\t\"}",
    );
    match r {
        Ok(IpcMessage::Command(c)) => {
            assert_eq!(c.command, "say \"hi\"\n");
            assert_eq!(c.callback_id, "a\\b\t");
        }
        _ => panic!("expected a command envelope"),
    }
}

#[test]
fn unknown_tag_is_a_decode_error() {
    let r = decode_message("{\"type\":\"Bogus\"}");
    assert_eq!(r.err(), Some(DecodeError::UnknownTag));
}

#[test]
fn absent_tag_is_a_decode_error() {
    let r = decode_message("{}");
    assert_eq!(r.err(), Some(DecodeError::UnknownTag));
}

#[test]
fn missing_field_is_a_decode_error() {
    let r = decode_message("{\"type\":\"Command\",\"command\":\"ls\"}");
    assert_eq!(r.err(), Some(DecodeError::MissingField));
    let r = decode_message("{\"type\":\"Proxy\",\"callback_id\":\"1\"}");
    assert_eq!(r.err(), Some(DecodeError::MissingField));
}

#[test]
fn malformed_text_is_a_decode_error() {
    assert_eq!(decode_message("").err(), Some(DecodeError::Malformed));
    assert_eq!(decode_message("not an envelope").err(), Some(DecodeError::Malformed));
    assert_eq!(decode_message("{\"type\":\"Command\"").err(), Some(DecodeError::Malformed));
    assert_eq!(decode_message("{\"count\":3}").err(), Some(DecodeError::Malformed));
    assert_eq!(decode_message("{\"type\":\"Command\",}").err(), Some(DecodeError::Malformed));
}

#[test]
fn first_member_wins_on_a_repeated_key() {
    let r = decode_message(
        "{\"type\":\"Command\",\"command\":\"first\",\"command\":\"second\",\"callback_id\":\"1\"}",
    );
    match r {
        Ok(IpcMessage::Command(c)) => assert_eq!(c.command, "first"),
        _ => panic!("expected a command envelope"),
    }
}

#[test]
fn identical_texts_decode_identically() {
    let text = "{\"type\":\"Command\",\"command\":\"echo hi\",\"callback_id\":\"42\"}";
    let a = decode_message(text);
    let b = decode_message(text);
    match (a, b) {
        (Ok(IpcMessage::Command(x)), Ok(IpcMessage::Command(y))) => {
            assert_eq!(x.command, y.command);
            assert_eq!(x.callback_id, y.callback_id);
        }
        _ => panic!("expected two equal command envelopes"),
    }
}

#[test]
fn routing_sends_each_variant_to_its_path() {
    let a = route_message("{\"type\":\"Command\",\"command\":\"ls\",\"callback_id\":\"1\"}");
    assert!(matches!(a, HostAction::RunCommand(_)));
    let b = route_message("{\"type\":\"Proxy\",\"url\":\"https://example.com/\",\"callback_id\":\"2\"}");
    assert!(matches!(b, HostAction::Fetch(_)));
}

#[test]
fn bogus_envelope_routes_to_a_diagnostic_only() {
    let a = route_message("{\"type\":\"Bogus\"}");
    assert!(matches!(a, HostAction::LogDecodeError(DecodeError::UnknownTag)));
}
