use panduza_utils::config::MqttBrokerConfig;
use panduza_utils::rumqtt::broker::router_section;
use panduza_utils::rumqtt::broker::tcpv4_section;
use panduza_utils::rumqtt::broker::websocket_section;
use panduza_utils::rumqtt::broker::SettingValue;

fn assert_int(pair: &(String, SettingValue), key: &str, val: i64) {
    assert_eq!(pair.0, key);
    match &pair.1 {
        SettingValue::Integer(v) => assert_eq!(*v, val),
        _ => panic!("expected integer setting for {}", key),
    }
}

fn assert_bool(pair: &(String, SettingValue), key: &str, val: bool) {
    assert_eq!(pair.0, key);
    match &pair.1 {
        SettingValue::Boolean(v) => assert_eq!(*v, val),
        _ => panic!("expected boolean setting for {}", key),
    }
}

fn assert_text(pair: &(String, SettingValue), key: &str, val: &str) {
    assert_eq!(pair.0, key);
    match &pair.1 {
        SettingValue::Text(v) => assert_eq!(v, val),
        _ => panic!("expected text setting for {}", key),
    }
}

#[test]
fn test_new_for_meduse_values() {
    let c = MqttBrokerConfig::new_for_meduse();
    let tcp = c.tcp.expect("tcp endpoint");
    assert_eq!(tcp.addr.as_deref(), Some("12.0.0.1"));
    assert_eq!(tcp.port, Some(1883));
    let ws = c.websocket.expect("websocket endpoint");
    assert_eq!(ws.addr.as_deref(), Some("0.0.0.0"));
    assert_eq!(ws.port, Some(8083));
}

#[test]
fn test_default_broker_config() {
    let c = MqttBrokerConfig::default();
    let tcp = c.tcp.expect("tcp endpoint");
    assert_eq!(tcp.addr.as_deref(), Some("127.0.0.1"));
    assert_eq!(tcp.port, Some(1883));
    assert!(c.websocket.is_none());
}

#[test]
fn test_websocket_section_values() {
    let c = MqttBrokerConfig::new_for_meduse();
    let ws = websocket_section(&c);
    assert_eq!(ws.len(), 4);
    assert_text(&ws[0], "name", "ws-1");
    assert_text(&ws[1], "listen", "0.0.0.0:8083");
    assert_int(&ws[2], "next_connection_delay_ms", 1);
    assert_eq!(ws[3].0, "connections");
    match &ws[3].1 {
        SettingValue::Section(conns) => {
            assert_eq!(conns.len(), 6);
            assert_int(&conns[0], "connection_timeout_ms", 60000);
            assert_int(&conns[1], "max_client_id_len", 256);
            assert_int(&conns[2], "throttle_delay_ms", 0);
            assert_int(&conns[3], "max_payload_size", 20480);
            assert_int(&conns[4], "max_inflight_count", 500);
            assert_int(&conns[5], "max_inflight_size", 1024);
        }
        _ => panic!("expected connections section"),
    }
}

#[test]
fn test_tcpv4_section_values() {
    let c = MqttBrokerConfig::new_for_meduse();
    let tcp = tcpv4_section(&c);
    assert_eq!(tcp.len(), 4);
    assert_text(&tcp[0], "name", "v4-1");
    assert_text(&tcp[1], "listen", "12.0.0.1:1883");
    assert_int(&tcp[2], "next_connection_delay_ms", 1);
    assert_eq!(tcp[3].0, "connections");
    match &tcp[3].1 {
        SettingValue::Section(conns) => {
            assert_eq!(conns.len(), 4);
            assert_int(&conns[0], "connection_timeout_ms", 60000);
            assert_int(&conns[1], "max_payload_size", 20480);
            assert_int(&conns[2], "max_inflight_count", 20480);
            assert_bool(&conns[3], "dynamic_filters", true);
        }
        _ => panic!("expected connections section"),
    }
}

#[test]
fn test_router_section_values() {
    let router = router_section();
    assert_eq!(router.len(), 5);
    assert_int(&router[0], "id", 0);
    assert_int(&router[1], "max_connections", 20480);
    assert_int(&router[2], "max_outgoing_packet_count", 200);
    assert_int(&router[3], "max_segment_size", 104857600);
    assert_int(&router[4], "max_segment_count", 10);
}
