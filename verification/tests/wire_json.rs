//! Byte-exact JSON envelopes for every event kind.

use ht::events::Event;
use ht::wire::event_json_bytes;

fn json(e: &Event) -> String {
    String::from_utf8(event_json_bytes(e)).expect("envelope must be UTF-8")
}

#[test]
fn init_envelope() {
    let e = Event::Init {
        cols: 120,
        rows: 40,
        pid: 4242,
    };
    assert_eq!(
        json(&e),
        "{\"type\":\"init\",\"data\":{\"cols\":120,\"rows\":40,\"pid\":4242}}"
    );
}

#[test]
fn output_envelope_escapes_payload() {
    let e = Event::Output {
        seq: String::from("a\"b\\c\nd\re\tf\u{1}g"),
    };
    assert_eq!(
        json(&e),
        "{\"type\":\"output\",\"data\":{\"seq\":\"a\\\"b\\\\c\\nd\\re\\tf\\u0001g\"}}"
    );
}

#[test]
fn output_envelope_passes_multibyte_through() {
    let e = Event::Output {
        seq: String::from("héllo \u{263a}"),
    };
    assert_eq!(
        json(&e),
        "{\"type\":\"output\",\"data\":{\"seq\":\"héllo \u{263a}\"}}"
    );
}

#[test]
fn resize_envelope() {
    let e = Event::Resize { cols: 80, rows: 24 };
    assert_eq!(
        json(&e),
        "{\"type\":\"resize\",\"data\":{\"cols\":80,\"rows\":24}}"
    );
}

#[test]
fn snapshot_envelope() {
    let e = Event::Snapshot {
        data: String::from("line1\nline2"),
    };
    assert_eq!(
        json(&e),
        "{\"type\":\"snapshot\",\"data\":{\"seq\":\"line1\\nline2\"}}"
    );
}

#[test]
fn exit_envelope_signal_null() {
    let e = Event::Exit {
        code: 0,
        signal: None,
    };
    assert_eq!(
        json(&e),
        "{\"type\":\"exit\",\"data\":{\"code\":0,\"signal\":null}}"
    );
}

#[test]
fn exit_envelope_with_signal() {
    let e = Event::Exit {
        code: 143,
        signal: Some(15),
    };
    assert_eq!(
        json(&e),
        "{\"type\":\"exit\",\"data\":{\"code\":143,\"signal\":15}}"
    );
}

#[test]
fn exit_envelope_negative_code() {
    let e = Event::Exit {
        code: -1,
        signal: None,
    };
    assert_eq!(
        json(&e),
        "{\"type\":\"exit\",\"data\":{\"code\":-1,\"signal\":null}}"
    );
}
