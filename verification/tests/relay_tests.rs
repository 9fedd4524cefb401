use broker_relay::RelayError;
use broker_relay::queue_model::BrokerQueue;
use broker_relay::relay::{RelayConfig, inbound_queue_key, persistence_queue_key};

#[test]
fn missing_address_is_fatal_config_error() {
    // With no configured address the relay cannot be built at all.
    let r = RelayConfig::from_address(None);
    assert_eq!(r.err().unwrap(), RelayError::Config);
}

#[test]
fn empty_address_is_fatal_config_error() {
    let r = RelayConfig::from_address(Some("".to_string()));
    assert_eq!(r.err().unwrap(), RelayError::Config);
}

#[test]
fn present_address_builds_the_config() {
    let r = RelayConfig::from_address(Some("redis://127.0.0.1:6379".to_string()));
    assert_eq!(r.unwrap().address, "redis://127.0.0.1:6379");
}

#[test]
fn error_kinds_are_distinct() {
    assert_ne!(RelayError::Config, RelayError::Transport);
    assert_ne!(RelayError::Transport, RelayError::Encoding);
    assert_ne!(RelayError::Config, RelayError::Encoding);
}

#[test]
fn queue_names() {
    assert_eq!(inbound_queue_key(), "messages");
    assert_eq!(persistence_queue_key(), "db_processor");
}

#[test]
fn single_producer_order_is_kept() {
    // Pushed m1, m2, m3; the consumer drains them in the same order.
    let mut q = BrokerQueue::new();
    q.lpush("m1".to_string());
    q.lpush("m2".to_string());
    q.lpush("m3".to_string());
    let out = q.drain();
    assert_eq!(out, vec!["m1".to_string(), "m2".to_string(), "m3".to_string()]);
    assert_eq!(q.len(), 0);
}

#[test]
fn each_entry_is_delivered_exactly_once() {
    // M entries in, exactly M distinct deliveries out, and the queue ends empty.
    let mut q = BrokerQueue::new();
    let msgs = ["a", "b", "c", "d", "e"];
    for m in msgs.iter() {
        q.lpush(m.to_string());
    }
    let mut seen: Vec<String> = Vec::new();
    loop {
        match q.rpop() {
            Some(x) => {
                assert!(!seen.contains(&x), "an entry was delivered twice");
                seen.push(x);
            }
            None => break,
        }
    }
    assert_eq!(seen.len(), msgs.len());
    assert_eq!(q.len(), 0);
    for m in msgs.iter() {
        assert!(seen.contains(&m.to_string()));
    }
}

#[test]
fn pop_on_empty_queue_is_none() {
    let mut q = BrokerQueue::new();
    assert_eq!(q.rpop(), None);
    assert_eq!(q.len(), 0);
}
