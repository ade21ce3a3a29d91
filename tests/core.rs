use boudin::bridge::{Activation, SubscriptionBridge, TopicSubscription};
use boudin::client::{join_with_commas, topic_names, BoudinClient, BrokerError, TopicDescriptor};
use boudin::consumer::{assignment_for, Delivery, Outbound, StartOffset, CHANNEL_CAPACITY};
use boudin::decode::{digest, format_record};
use boudin::screen::{split_hosts, Boudin, Command, Message};

fn strings(v: &[&str]) -> Vec<String> {
    v.iter().map(|s| s.to_string()).collect()
}

#[test]
fn client_keeps_broker_list() {
    let c = BoudinClient::new("localhost:9092");
    assert_eq!(c.hosts(), &strings(&["localhost:9092"]));
    assert_eq!(c.bootstrap_servers(), "localhost:9092");
}

#[test]
fn join_uses_commas() {
    assert_eq!(join_with_commas(&strings(&["a:1", "b:2", "c:3"])), "a:1,b:2,c:3");
    assert_eq!(join_with_commas(&strings(&[])), "");
    assert_eq!(join_with_commas(&strings(&["only"])), "only");
}

#[test]
fn split_keeps_empty_pieces() {
    assert_eq!(split_hosts("localhost:9092,other:9093"), strings(&["localhost:9092", "other:9093"]));
    assert_eq!(split_hosts(""), strings(&[""]));
    assert_eq!(split_hosts("a,,b,"), strings(&["a", "", "b", ""]));
}

#[test]
fn consumer_config_settings() {
    let c = BoudinClient::new("h1:1,h2:2");
    let cfg = c.consumer_config();
    assert_eq!(cfg.get("bootstrap.servers"), Some("h1:1,h2:2"));
    assert_eq!(cfg.get("enable.auto.commit"), Some("false"));
    assert_eq!(cfg.get("group.id"), Some("toto"));
    assert_eq!(cfg.get("session.timeout.ms"), None);
}

#[test]
fn metadata_config_settings() {
    let c = BoudinClient::new("localhost:9092");
    let cfg = c.metadata_config();
    assert_eq!(cfg.get("bootstrap.servers"), Some("localhost:9092"));
    assert_eq!(cfg.get("session.timeout.ms"), Some("6000"));
    assert_eq!(cfg.get("enable.auto.commit"), Some("false"));
    assert_eq!(cfg.get("group.id"), Some("toto"));
    assert_eq!(cfg.get("broker.version.fallback"), Some("0.10.2.1"));
}

#[test]
fn topic_names_keep_broker_order() {
    let catalog = vec![
        TopicDescriptor { name: "payments".to_string(), partitions: vec![0, 1] },
        TopicDescriptor { name: "orders".to_string(), partitions: vec![0] },
    ];
    assert_eq!(topic_names(&catalog), strings(&["payments", "orders"]));
    assert_eq!(topic_names(&catalog), topic_names(&catalog));
    assert_eq!(topic_names(&vec![]), strings(&[]));
    assert_ne!(BrokerError::Unreachable, BrokerError::ConsumerInit);
}

#[test]
fn record_with_key_and_value_is_formatted() {
    assert_eq!(digest(Some(b"k1"), Some(b"v1")), Some("k1: v1".to_string()));
    assert_eq!(format_record("a", "b"), "a: b");
    assert_eq!(digest(Some(b""), Some(b"")), Some(": ".to_string()));
}

#[test]
fn record_with_bad_utf8_is_decoded_lossily() {
    let bad: &[u8] = &[0x6b, 0xff];
    assert_eq!(digest(Some(bad), Some(b"v")), Some("k\u{fffd}: v".to_string()));
    assert_eq!(digest(Some("é".as_bytes()), Some(b"x")), Some("é: x".to_string()));
}

#[test]
fn record_missing_a_field_is_skipped() {
    assert_eq!(digest(None, Some(b"v1")), None);
    assert_eq!(digest(Some(b"k1"), None), None);
    assert_eq!(digest(None, None), None);
    let mut out = Outbound::new();
    assert_eq!(out.forward_record(None, Some(b"v")), Delivery::Skipped);
    assert_eq!(out.forward_record(Some(b"k"), None), Delivery::Skipped);
    assert_eq!(out.len(), 0);
}

#[test]
fn outbound_sheds_when_full() {
    let mut out = Outbound::new();
    for i in 0..CHANNEL_CAPACITY {
        let k = format!("k{}", i);
        assert_eq!(out.forward_record(Some(k.as_bytes()), Some(b"v")), Delivery::Queued);
    }
    assert_eq!(out.len(), 128);
    assert_eq!(out.forward_record(Some(b"late"), Some(b"v")), Delivery::Dropped);
    assert_eq!(out.len(), 128);
    assert!(!out.offer("x".to_string()));
    assert_eq!(out.take(), Some("k0: v".to_string()));
    assert_eq!(out.forward_record(Some(b"late"), Some(b"v")), Delivery::Queued);
    assert_eq!(out.len(), 128);
}

#[test]
fn outbound_is_first_in_first_out() {
    let mut out = Outbound::new();
    assert_eq!(out.take(), None);
    assert!(out.offer("a".to_string()));
    assert_eq!(out.forward_record(Some(b"k1"), Some(b"v1")), Delivery::Queued);
    assert_eq!(out.take(), Some("a".to_string()));
    assert_eq!(out.take(), Some("k1: v1".to_string()));
    assert_eq!(out.take(), None);
}

#[test]
fn opening_a_new_topic_starts_one_consumer() {
    let mut bridge = SubscriptionBridge::new();
    assert!(!bridge.is_active("orders"));
    assert_eq!(bridge.activate("orders"), Activation::Started);
    let a = assignment_for("orders");
    assert_eq!(a.topic, "orders");
    assert_eq!(a.partition, 0);
    assert_eq!(a.offset, StartOffset::Beginning);
    assert!(bridge.is_active("orders"));
}

#[test]
fn opening_a_topic_twice_reuses_its_consumer() {
    let mut bridge = SubscriptionBridge::new();
    assert_eq!(bridge.activate("orders"), Activation::Started);
    assert_eq!(bridge.activate("orders"), Activation::Reused);
    assert_eq!(bridge.activate("payments"), Activation::Started);
    assert_eq!(bridge.activate("orders"), Activation::Reused);
    let s1 = TopicSubscription::new("orders".to_string());
    let s2 = TopicSubscription::new("orders".to_string());
    let s3 = TopicSubscription::new("payments".to_string());
    assert_eq!(s1.key(), s2.key());
    assert_ne!(s1.key(), s3.key());
    assert_eq!(s1.topic(), "orders");
}

#[test]
fn deactivation_releases_a_topic() {
    let mut bridge = SubscriptionBridge::new();
    bridge.activate("a");
    bridge.activate("b");
    assert!(bridge.deactivate("a"));
    assert!(!bridge.deactivate("a"));
    assert!(!bridge.is_active("a"));
    assert!(bridge.is_active("b"));
    assert_eq!(bridge.activate("a"), Activation::Started);
}

#[test]
fn reconcile_starts_and_stops_the_difference() {
    let mut bridge = SubscriptionBridge::new();
    let plan = bridge.reconcile(&strings(&["orders"]));
    assert_eq!(plan.start, strings(&["orders"]));
    assert!(plan.stop.is_empty());
    let plan = bridge.reconcile(&strings(&["orders"]));
    assert!(plan.start.is_empty());
    assert!(plan.stop.is_empty());
    let plan = bridge.reconcile(&strings(&["payments", "payments"]));
    assert_eq!(plan.start, strings(&["payments"]));
    assert_eq!(plan.stop, strings(&["orders"]));
    assert!(bridge.is_active("payments"));
    assert!(!bridge.is_active("orders"));
    let plan = bridge.reconcile(&strings(&[]));
    assert_eq!(plan.stop, strings(&["payments"]));
}

#[test]
fn submitting_addresses_lists_topics_in_order() {
    let mut screen = Boudin::new();
    match &screen {
        Boudin::Connecting { input_value } => assert_eq!(input_value, "Enter hosts"),
        _ => panic!("not the first screen"),
    }
    screen.update(Message::HostInputChanged("localhost:9092".to_string()));
    let cmd = screen.update(Message::ConnectToHosts("localhost:9092".to_string()));
    match cmd {
        Command::FetchTopics(client) => {
            assert_eq!(client.bootstrap_servers(), "localhost:9092")
        }
        Command::Nothing => panic!("no fetch asked for"),
    }
    let cmd = screen.update(Message::Topics(strings(&["orders", "payments"])));
    assert!(matches!(cmd, Command::Nothing));
    match &screen {
        Boudin::Connected { connected_to, topics } => {
            assert_eq!(connected_to, &strings(&["localhost:9092"]));
            assert_eq!(topics, &strings(&["orders", "payments"]));
        }
        _ => panic!("not connected"),
    }
    assert!(screen.subscriptions().is_empty());
}

#[test]
fn several_addresses_are_rejoined_for_the_client() {
    let mut screen = Boudin::new();
    match screen.update(Message::ConnectToHosts("a:1,b:2".to_string())) {
        Command::FetchTopics(client) => assert_eq!(client.bootstrap_servers(), "a:1,b:2"),
        Command::Nothing => panic!("no fetch asked for"),
    }
    match &screen {
        Boudin::Connected { connected_to, .. } => assert_eq!(connected_to, &strings(&["a:1", "b:2"])),
        _ => panic!("not connected"),
    }
}

#[test]
fn received_record_is_appended_to_the_view() {
    let mut screen = Boudin::new();
    screen.update(Message::ConnectToHosts("localhost:9092".to_string()));
    screen.update(Message::OpenTopic("orders".to_string()));
    assert_eq!(screen.subscriptions(), strings(&["orders"]));
    screen.update(Message::TopicMessage("first".to_string()));
    let line = digest(Some(b"k1"), Some(b"v1")).unwrap();
    screen.update(Message::TopicMessage(line));
    match &screen {
        Boudin::TopicView { topic, messages } => {
            assert_eq!(topic, "orders");
            assert_eq!(messages, &strings(&["first", "k1: v1"]));
        }
        _ => panic!("not viewing"),
    }
}

#[test]
fn events_for_other_screens_are_ignored() {
    let mut screen = Boudin::new();
    screen.update(Message::Topics(strings(&["x"])));
    screen.update(Message::TopicMessage("m".to_string()));
    assert!(matches!(&screen, Boudin::Connecting { input_value } if input_value == "Enter hosts"));
    screen.update(Message::OpenTopic("t".to_string()));
    screen.update(Message::HostInputChanged("h".to_string()));
    screen.update(Message::Topics(strings(&["x"])));
    match &screen {
        Boudin::TopicView { topic, messages } => {
            assert_eq!(topic, "t");
            assert!(messages.is_empty());
        }
        _ => panic!("not viewing"),
    }
    assert_eq!(screen.title(), "Counter - Iced");
}
