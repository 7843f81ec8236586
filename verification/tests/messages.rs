use ipc_web_monitor::clock::{micros_of, utc_micros_of, utc_now_micros};
use ipc_web_monitor::ClockError;
use ipc_web_monitor::decimal::{push_decimal, push_signed_decimal};
use ipc_web_monitor::protocol::{
    decode_ipc_text, has_recv_ts, init_announcement, relay, relay_stamped, stamp,
    users_announcement,
};
use ipc_web_monitor::text::{
    char_is_whitespace, chars_of, contains_chars, find_char, push_chars, trim_end_len,
};
use ipc_web_monitor::{current_timestamp_micros, format_message, format_message_at};

#[test]
fn users_announcement_counts() {
    assert_eq!(users_announcement(0), "USERS:0");
    assert_eq!(users_announcement(12), "USERS:12");
    assert_eq!(users_announcement(1000), "USERS:1000");
}

#[test]
fn init_announcement_carries_value() {
    assert_eq!(init_announcement("42|temp"), "INIT:42|temp");
}

#[test]
fn decimal_rendering() {
    let mut s = String::from("n=");
    push_decimal(&mut s, 0);
    assert_eq!(s, "n=0");
    let mut s = String::new();
    push_decimal(&mut s, u128::MAX);
    assert_eq!(s, u128::MAX.to_string());
    let mut s = String::new();
    push_signed_decimal(&mut s, -1234);
    assert_eq!(s, "-1234");
    let mut s = String::new();
    push_signed_decimal(&mut s, i64::MIN);
    assert_eq!(s, i64::MIN.to_string());
    let mut s = String::new();
    push_signed_decimal(&mut s, 907);
    assert_eq!(s, "907");
}

#[test]
fn sensor_message_at_fixed_time() {
    assert_eq!(
        format_message_at(1700000000123456, "Sensor data", 7),
        "1700000000123456|Sensor data #7"
    );
    assert_eq!(format_message_at(0, "", 0), "0| #0");
}

#[test]
fn sensor_message_now() {
    let before = current_timestamp_micros().unwrap();
    let m = format_message("Sensor data", 3).unwrap();
    let after = current_timestamp_micros().unwrap();
    let (ts, rest) = m.split_once('|').unwrap();
    let ts: u128 = ts.parse().unwrap();
    assert!(before <= ts && ts <= after);
    assert_eq!(rest, "Sensor data #3");
}

#[test]
fn clock_is_after_2020() {
    let now = current_timestamp_micros().unwrap();
    assert!(now > 1_577_836_800_000_000);
}

#[test]
fn stamping() {
    assert_eq!(stamp("temp=3", 42), "temp=3|recv_ts:42");
    assert_eq!(stamp("temp=3", -5), "temp=3|recv_ts:-5");
    assert_eq!(stamp("x|recv_ts:1", 9), "x|recv_ts:1");
    assert_eq!(stamp("", 0), "|recv_ts:0");
    assert!(has_recv_ts("abc recv_ts: def"));
    assert!(!has_recv_ts("recv_ts"));
    assert!(!has_recv_ts(""));
}

#[test]
fn stamping_twice_stamps_once() {
    let once = stamp("reading", 10);
    assert_eq!(stamp(&once, 99), once);
}

#[test]
fn ipc_text_is_decoded_and_trimmed() {
    assert_eq!(decode_ipc_text(b"hello \n\t"), "hello");
    assert_eq!(decode_ipc_text(b"  lead kept"), "  lead kept");
    assert_eq!(decode_ipc_text(b"\xffab"), "\u{FFFD}ab");
    assert_eq!(decode_ipc_text("caf\u{e9}\u{3000}".as_bytes()), "caf\u{e9}");
    assert_eq!(decode_ipc_text(b" \r\n"), "");
    assert_eq!(decode_ipc_text("x\u{85}\u{2009}\u{205F}".as_bytes()), "x");
    assert_eq!(decode_ipc_text("x\u{200B}".as_bytes()), "x\u{200B}");
}

#[test]
fn relay_of_client_text() {
    assert_eq!(relay("123|hello"), ("hello".to_string(), "123|hello".to_string()));
    assert_eq!(relay("a|b|c"), ("b|c".to_string(), "a|b|c".to_string()));
    assert_eq!(relay("plain"), ("plain".to_string(), "0|plain".to_string()));
    assert_eq!(relay(""), ("".to_string(), "0|".to_string()));
    assert_eq!(relay("|x"), ("x".to_string(), "|x".to_string()));
}

#[test]
fn relay_twice_is_relay_once() {
    let (payload, message) = relay("plain");
    assert_eq!(relay(&message), (payload, message.clone()));
}

#[test]
fn stamped_relay_of_client_text() {
    assert_eq!(
        relay_stamped("123|hi", 5),
        ("hi".to_string(), "123|hi|recv_ts:5".to_string())
    );
    assert_eq!(
        relay_stamped("hi", -3),
        ("hi".to_string(), "0|hi|recv_ts:-3".to_string())
    );
}

#[test]
fn text_helpers() {
    let v = chars_of("a|b|c");
    assert_eq!(v, vec!['a', '|', 'b', '|', 'c']);
    assert_eq!(find_char(&v, '|'), Some(1));
    assert_eq!(find_char(&v, 'z'), None);
    assert!(contains_chars(&v, &vec!['b', '|', 'c']));
    assert!(!contains_chars(&v, &vec!['c', '|']));
    assert!(contains_chars(&v, &vec![]));
    assert_eq!(trim_end_len(&chars_of("ab \t")), 2);
    assert_eq!(trim_end_len(&chars_of("a b")), 3);
    let mut out = String::from(">");
    push_chars(&mut out, &v, 2, 5);
    assert_eq!(out, ">b|c");
}

#[test]
fn microseconds_of_a_duration() {
    assert_eq!(micros_of(0, 0), 0);
    assert_eq!(micros_of(2, 999), 2_000_000);
    assert_eq!(micros_of(1, 1_500), 1_000_001);
    assert_eq!(micros_of(u64::MAX, 999_999_999), (u64::MAX as u128) * 1_000_000 + 999_999);
    let d = std::time::Duration::new(1_700_000_000, 123_456_789);
    assert_eq!(micros_of(d.as_secs(), d.subsec_nanos()), d.as_micros());
}

#[test]
fn utc_clock_agrees_with_system_clock() {
    let before = current_timestamp_micros().unwrap();
    let utc = utc_now_micros().unwrap();
    let after = current_timestamp_micros().unwrap();
    assert!(before as i64 <= utc && utc <= after as i64);
}

#[test]
fn sensor_readings_differ_by_their_fields() {
    assert_ne!(format_message_at(1, "a #2", 3), format_message_at(1, "a", 23));
    assert_ne!(format_message_at(12, "x", 3), format_message_at(1, "2|x", 3));
    let m = format_message_at(1700000000123456, "id #4", 9);
    let (_, payload) = m.split_once('|').unwrap();
    let (prefix, counter) = payload.rsplit_once(" #").unwrap();
    assert_eq!((prefix, counter), ("id #4", "9"));
}

#[test]
fn utc_micros_of_readings() {
    assert_eq!(utc_micros_of(0, 0), Ok(0));
    assert_eq!(utc_micros_of(1_700_000_000, 123_456_789), Ok(1_700_000_000_123_456));
    assert_eq!(utc_micros_of(8_000_000_000_000, 999_999_999), Ok(8_000_000_000_000_999_999));
    assert_eq!(utc_micros_of(u64::MAX, 0), Err(ClockError::OutOfRange));
    assert_eq!(utc_micros_of(100_000_000_000_000, 0), Err(ClockError::OutOfRange));
}

#[test]
fn whitespace_matches_std() {
    for u in 0u32..0x3100 {
        if let Some(c) = char::from_u32(u) {
            assert_eq!(char_is_whitespace(c), c.is_whitespace(), "U+{:04X}", u);
        }
    }
    assert_eq!(char_is_whitespace('\u{FFFF}'), '\u{FFFF}'.is_whitespace());
}
