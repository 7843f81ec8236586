use ipc_web_monitor::hub::Hub;

#[test]
fn new_hub_is_empty() {
    let h = Hub::new();
    assert_eq!(h.clients, 0);
    assert_eq!(h.latest, "");
}

#[test]
fn connect_announces_and_greets() {
    let mut h = Hub::new();
    let (announcement, greeting) = h.connect();
    assert_eq!(announcement, "USERS:1");
    assert_eq!(greeting, None);
    let relayed = h.client_text("17|on");
    assert_eq!(relayed, "17|on");
    assert_eq!(h.latest, "on");
    let (announcement, greeting) = h.connect();
    assert_eq!(announcement, "USERS:2");
    assert_eq!(greeting, Some("INIT:on".to_string()));
    assert_eq!(h.clients, 2);
}

#[test]
fn connect_then_disconnect_restores_count() {
    let mut h = Hub::new();
    h.clients = 5;
    let _ = h.connect();
    let announcement = h.disconnect();
    assert_eq!(h.clients, 5);
    assert_eq!(announcement, "USERS:5");
}

#[test]
fn disconnect_below_zero() {
    let mut h = Hub::new();
    let announcement = h.disconnect();
    assert_eq!(announcement, "USERS:0");
    assert_eq!(h.clients, usize::MAX);
}

#[test]
fn client_text_without_pipe() {
    let mut h = Hub::new();
    let relayed = h.client_text("hello");
    assert_eq!(relayed, "0|hello");
    assert_eq!(h.latest, "hello");
    assert_eq!(h.clients, 0);
}

#[test]
fn client_text_stamped_fixed_time() {
    let mut h = Hub::new();
    assert_eq!(h.client_text_stamped("9|x", 77), "9|x|recv_ts:77");
    assert_eq!(h.latest, "x");
    assert_eq!(h.client_text_stamped("y", 78), "0|y|recv_ts:78");
    assert_eq!(h.latest, "y");
}

#[test]
fn client_text_stamped_now_reads_clock() {
    let mut h = Hub::new();
    let relayed = h.client_text_stamped_now("1|x").unwrap();
    let stamp = relayed.strip_prefix("1|x|recv_ts:").unwrap();
    let ts: i64 = stamp.parse().unwrap();
    assert!(ts > 1_577_836_800_000_000);
    assert_eq!(h.latest, "x");
}

#[test]
fn ipc_message_stores_and_stamps() {
    let mut h = Hub::new();
    assert_eq!(h.ipc_message(b"", 1), None);
    assert_eq!(h.latest, "");
    assert_eq!(h.ipc_message(b"temp=3\n", 10), Some("temp=3|recv_ts:10".to_string()));
    assert_eq!(h.latest, "temp=3");
    assert_eq!(
        h.ipc_message(b"5|v|recv_ts:4  ", 10),
        Some("5|v|recv_ts:4".to_string())
    );
    assert_eq!(h.latest, "5|v|recv_ts:4");
    assert_eq!(h.ipc_message(b"\n", 3), Some("|recv_ts:3".to_string()));
    assert_eq!(h.latest, "");
}

#[test]
fn ipc_message_now_stamps_once() {
    let mut h = Hub::new();
    assert_eq!(h.ipc_message_now(b""), Ok(None));
    assert_eq!(h.ipc_message_now(b"a|recv_ts:1\n"), Ok(Some("a|recv_ts:1".to_string())));
    let relayed = h.ipc_message_now(b"reading 7").unwrap().unwrap();
    let ts: i64 = relayed.strip_prefix("reading 7|recv_ts:").unwrap().parse().unwrap();
    assert!(ts > 1_577_836_800_000_000);
    assert_eq!(h.latest, "reading 7");
}

#[test]
fn ipc_value_greets_next_client() {
    let mut h = Hub::new();
    let _ = h.ipc_message(b"1700|Sensor data #1", 5);
    let (_, greeting) = h.connect();
    assert_eq!(greeting, Some("INIT:1700|Sensor data #1".to_string()));
}

#[test]
fn client_count_over_a_sequence() {
    let mut h = Hub::new();
    let events = [true, true, false, true, false, false, true];
    let mut connected: usize = 0;
    for joining in events {
        let announcement = if joining {
            connected += 1;
            h.connect().0
        } else {
            connected -= 1;
            h.disconnect()
        };
        assert_eq!(h.clients, connected);
        assert_eq!(announcement, format!("USERS:{}", connected));
    }
    assert_eq!(h.clients, 1);
}

#[test]
fn datagrams_in_order() {
    let mut h = Hub::new();
    let datagrams: [&[u8]; 3] = [b"a\n", b"b|recv_ts:9", b"c "];
    let mut sent = Vec::new();
    for (i, d) in datagrams.iter().enumerate() {
        if let Some(m) = h.ipc_message(d, i as i64) {
            sent.push(m);
        }
    }
    assert_eq!(sent, vec!["a|recv_ts:0", "b|recv_ts:9", "c|recv_ts:2"]);
    assert_eq!(h.latest, "c");
}
