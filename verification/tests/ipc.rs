//! The conversation with a player process, and the values it is held in.

use setbuddy::fixed::Fixed;
use setbuddy::ipc::{encode_request, observed, Arg, Bus, Poll};
use setbuddy::json::{copy_json, parse_json, quote, Json};

fn text(t: &str) -> Arg {
    Arg::Text(t.into())
}

#[test]
fn requests_are_one_line_of_json() {
    let args = vec![
        text("set_property"),
        text("a \"b\"\n"),
        Arg::Number(Fixed::Nanos(72_500_000_000)),
        Arg::Number(Fixed::NaN),
        Arg::Whole(3),
        Arg::Flag(true),
    ];
    assert_eq!(
        encode_request(&args, 7).unwrap(),
        r#"{"command":["set_property","a \"b\"\n",72.5,null,3,true],"request_id":7}"#
    );
    assert_eq!(
        encode_request(&Vec::new(), 1).unwrap(),
        r#"{"command":[],"request_id":1}"#
    );
}

#[test]
fn a_request_reads_back_as_what_was_asked() {
    let args = vec![text("seek ▶"), Arg::Number(Fixed::Nanos(-1_500_000_000)), Arg::Flag(false)];
    let line = encode_request(&args, 12).unwrap();
    let msg = parse_json(line.as_bytes()).unwrap();
    assert_eq!(msg.get("request_id").unwrap().as_u64(), Some(12));
    let words = msg.get("command").unwrap().as_array().unwrap();
    assert_eq!(words[0].as_str().unwrap(), "seek ▶");
    assert_eq!(words[1].as_number(), Some(Fixed::Nanos(-1_500_000_000)));
    assert_eq!(words[2].as_bool(), Some(false));
}

#[test]
fn replies_reach_whoever_asked() {
    let mut bus = Bus::new();
    assert_eq!(bus.next_request(), 1);
    assert_eq!(bus.next_request(), 2);
    assert!(matches!(bus.poll(1, false, false), Poll::Wait));
    bus.hear(r#"{"request_id":2,"error":"success","data":"b"}"#);
    bus.hear(r#"{"request_id":1,"error":"property unavailable"}"#);
    let Poll::Reply { data, error } = bus.poll(1, false, false) else { panic!("a reply") };
    assert!(data.is_null());
    assert_eq!(error, "property unavailable");
    // A reply that has come counts, however late it is looked for.
    let Poll::Reply { data, error } = bus.poll(2, true, true) else { panic!("a reply") };
    assert_eq!(data.as_str().unwrap(), "b");
    assert_eq!(error, "success");
    assert!(matches!(bus.poll(2, false, false), Poll::Wait), "taken once only");
}

#[test]
fn a_reply_without_an_error_is_a_success() {
    let mut bus = Bus::new();
    bus.hear(r#"{"request_id":1}"#);
    let Poll::Reply { error, .. } = bus.poll(1, false, false) else { panic!("a reply") };
    assert_eq!(error, "success");
}

#[test]
fn late_replies_are_dropped() {
    let mut bus = Bus::new();
    assert!(matches!(bus.poll(1, true, false), Poll::Timeout));
    bus.hear(r#"{"request_id":1,"error":"success"}"#);
    assert!(matches!(bus.poll(1, false, false), Poll::Wait), "nothing was kept");
    // Only that one: the next reply of the same name is kept again.
    bus.hear(r#"{"request_id":1,"error":"success"}"#);
    assert!(matches!(bus.poll(1, false, false), Poll::Reply { .. }));
    bus.abandon(5);
    bus.hear(r#"{"request_id":5}"#);
    assert!(matches!(bus.poll(5, false, true), Poll::Timeout));
}

#[test]
fn a_connection_that_ended_says_why() {
    let mut bus = Bus::new();
    assert!(bus.is_connected());
    assert_eq!(bus.disconnect_reason(), None);
    bus.mark_disconnected("mpv closed the socket".into());
    assert!(!bus.is_connected());
    assert_eq!(bus.disconnect_reason().as_deref(), Some("mpv closed the socket"));
    assert!(matches!(
        bus.poll(1, false, false),
        Poll::Disconnected(reason) if reason == "mpv closed the socket"
    ));
    // A wait that ran out is told as that.
    assert!(matches!(bus.poll(2, true, false), Poll::Timeout));
}

#[test]
fn properties_follow_what_is_said() {
    let mut bus = Bus::new();
    assert!(bus.prop("pause").is_null());
    bus.hear(r#"{"event":"property-change","name":"pause","data":true}"#);
    assert_eq!(bus.prop("pause").as_bool(), Some(true));
    bus.cache_prop("pause", Arg::Flag(false).value());
    assert_eq!(bus.prop("pause").as_bool(), Some(false));
    bus.hear(r#"{"event":"property-change","name":"pause"}"#);
    assert!(bus.prop("pause").is_null(), "unavailable, not stale");
    bus.hear(r#"{"event":"property-change"}"#);
    assert_eq!(observed().len(), 11);
    assert!(observed().contains(&"eof-reached"));
}

#[test]
fn lines_that_say_nothing_are_passed_over() {
    let mut bus = Bus::new();
    bus.hear("");
    bus.hear("   ");
    bus.hear("{not json");
    bus.hear("[1,2]");
    bus.hear(r#"{"event":"idle"}"#);
    bus.hear(r#"{"request_id":-1}"#);
    assert!(bus.is_connected());
    assert_eq!(bus.file_loaded_generation(), 0);
}

#[test]
fn a_loader_waits_for_its_own_file() {
    let mut bus = Bus::new();
    let since = bus.file_loaded_generation();
    assert_eq!(bus.poll_file_loaded(since, false, false), None);
    assert_eq!(bus.poll_file_loaded(since, true, false), Some(false));
    assert_eq!(bus.poll_file_loaded(since, false, true), Some(false));
    bus.hear(r#"{"event":"file-loaded"}"#);
    bus.hear(r#"{"event":"end-file"}"#);
    assert_eq!(bus.poll_file_loaded(since, true, true), Some(true));
    assert_eq!(bus.poll_file_loaded(since + 1, false, false), None);
    bus.mark_disconnected("gone".into());
    assert_eq!(bus.poll_file_loaded(since + 1, false, false), Some(false));
}

// ---- values ---------------------------------------------------------------

#[test]
fn documents_are_read_into_plain_values() {
    let doc = parse_json(br#"{"a":[1,2.5,-3e2,"x",true,null],"b":{"c":18446744073709551615}}"#).unwrap();
    let a = doc.get("a").unwrap().as_array().unwrap();
    assert_eq!(a[0].as_u64(), Some(1));
    assert_eq!(a[1].as_number(), Some(Fixed::Nanos(2_500_000_000)));
    assert_eq!(a[2].as_number(), Some(Fixed::Nanos(-300_000_000_000)));
    assert_eq!(a[2].as_u64(), None);
    assert_eq!(a[3].as_str().unwrap(), "x");
    assert_eq!(a[4].as_bool(), Some(true));
    assert!(a[5].is_null());
    assert_eq!(doc.get("b").unwrap().get("c").unwrap().as_u64(), Some(u64::MAX));
    assert!(doc.get("z").is_none());
    assert!(a[3].get("a").is_none());
    assert!(parse_json(b"{").is_none());
    assert!(parse_json(b"\xff").is_none());
    let copy = copy_json(&doc);
    assert_eq!(format!("{copy:?}"), format!("{doc:?}"));
}

#[test]
fn control_characters_are_escaped() {
    let quoted = quote("\u{8}\t\n\u{c}\r\u{0}\u{1f}\"\\/\u{7f}é").unwrap();
    assert_eq!(quoted, "\"\\b\\t\\n\\f\\r\\u0000\\u001f\\\"\\\\/\u{7f}é\"");
    let line = encode_request(&vec![text("two\nlines")], 1).unwrap();
    assert!(!line.contains('\n'));
}

#[test]
fn quoting_and_reading_are_inverse() {
    for s in ["", "plain", "a\"b\\c", "\u{1}\t", "▶ é"] {
        let quoted = quote(s).unwrap();
        let Some(Json::Text(back)) = parse_json(quoted.as_bytes()) else { panic!("a text") };
        assert_eq!(back, s);
    }
}
