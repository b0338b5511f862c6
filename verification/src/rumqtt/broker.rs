//! Assembly of the MQTT broker settings.
//!
//! The broker is configured from named sections of plain settings. Building
//! those sections from an `MqttBrokerConfig` is pure value construction and
//! is verified here; converting them into the configuration values the
//! broker library consumes, and spawning the broker thread, is left to the
//! application layer.

use crate::config::MqttBrokerConfig;
use crate::text::decimal_string;
use crate::text::spec_decimal;
use vstd::prelude::*;
use vstd::string::StringExecFns;

verus! {

/// A plain configuration setting value.
pub enum SettingValue {
    /// An integer setting.
    Integer(i64),
    /// A boolean setting.
    Boolean(bool),
    /// A text setting.
    Text(String),
    /// A nested section of named settings.
    Section(Vec<(String, SettingValue)>),
}

/// The pair holds the key and the given integer.
pub open spec fn pair_int(p: (String, SettingValue), key: Seq<char>, val: i64) -> bool {
    p.0@ == key && p.1 == SettingValue::Integer(val)
}

/// The pair holds the key and the given boolean.
pub open spec fn pair_bool(p: (String, SettingValue), key: Seq<char>, val: bool) -> bool {
    p.0@ == key && p.1 == SettingValue::Boolean(val)
}

/// The pair holds the key and the given text.
pub open spec fn pair_text(p: (String, SettingValue), key: Seq<char>, val: Seq<char>) -> bool {
    &&& p.0@ == key
    &&& p.1 matches SettingValue::Text(t) && t@ == val
}

/// The `host:port` listen address of an endpoint.
pub open spec fn spec_listen_addr(addr: Seq<char>, port: u16) -> Seq<char> {
    addr + ":"@ + spec_decimal(port as nat)
}

/// Render the `host:port` listen address.
pub fn listen_addr(addr: &String, port: u16) -> (r: String)
    ensures
        r@ == spec_listen_addr(addr@, port),
{
    let mut r = addr.clone();
    r.append(":");
    let p = decimal_string(port);
    r.append(p.as_str());
    r
}

/// Append an integer setting under the given key.
fn push_int(v: &mut Vec<(String, SettingValue)>, key: &str, val: i64)
    ensures
        final(v)@.len() == old(v)@.len() + 1,
        forall|j: int| 0 <= j < old(v)@.len() ==> final(v)@[j] == old(v)@[j],
        pair_int(final(v)@.last(), key@, val),
{
    v.push((String::from_str(key), SettingValue::Integer(val)));
}

/// Append a boolean setting under the given key.
fn push_bool(v: &mut Vec<(String, SettingValue)>, key: &str, val: bool)
    ensures
        final(v)@.len() == old(v)@.len() + 1,
        forall|j: int| 0 <= j < old(v)@.len() ==> final(v)@[j] == old(v)@[j],
        pair_bool(final(v)@.last(), key@, val),
{
    v.push((String::from_str(key), SettingValue::Boolean(val)));
}

/// Append a text setting under the given key.
fn push_text(v: &mut Vec<(String, SettingValue)>, key: &str, val: String)
    ensures
        final(v)@.len() == old(v)@.len() + 1,
        forall|j: int| 0 <= j < old(v)@.len() ==> final(v)@[j] == old(v)@[j],
        pair_text(final(v)@.last(), key@, val@),
{
    v.push((String::from_str(key), SettingValue::Text(val)));
}

/// The connection settings of the WebSocket server section.
pub open spec fn websocket_connections(c: Seq<(String, SettingValue)>) -> bool {
    &&& c.len() == 6
    &&& pair_int(c[0], "connection_timeout_ms"@, 60000)
    &&& pair_int(c[1], "max_client_id_len"@, 256)
    &&& pair_int(c[2], "throttle_delay_ms"@, 0)
    &&& pair_int(c[3], "max_payload_size"@, 20480)
    &&& pair_int(c[4], "max_inflight_count"@, 500)
    &&& pair_int(c[5], "max_inflight_size"@, 1024)
}

/// WebSocket configuration section: server name `ws-1`, the endpoint's
/// listen address, the connection delay, and the connection settings.
pub fn websocket_section(broker_config: &MqttBrokerConfig) -> (r: Vec<(String, SettingValue)>)
    requires
        broker_config.websocket matches Some(w) && w.addr is Some && w.port is Some,
    ensures
        r@.len() == 4,
        pair_text(r@[0], "name"@, "ws-1"@),
        pair_text(
            r@[1],
            "listen"@,
            spec_listen_addr((broker_config.websocket->0.addr->0)@, broker_config.websocket->0.port->0),
        ),
        pair_int(r@[2], "next_connection_delay_ms"@, 1),
        r@[3].0@ == "connections"@,
        r@[3].1 matches SettingValue::Section(c) && websocket_connections(c@),
{
    let w = if let Some(w) = &broker_config.websocket {
        w
    } else {
        vstd::pervasive::unreached()
    };
    let addr = if let Some(a) = &w.addr {
        a
    } else {
        vstd::pervasive::unreached()
    };
    let port = if let Some(p) = w.port {
        p
    } else {
        vstd::pervasive::unreached()
    };

    let mut connections: Vec<(String, SettingValue)> = Vec::new();
    push_int(&mut connections, "connection_timeout_ms", 60000);
    push_int(&mut connections, "max_client_id_len", 256);
    push_int(&mut connections, "throttle_delay_ms", 0);
    push_int(&mut connections, "max_payload_size", 20480);
    push_int(&mut connections, "max_inflight_count", 500);
    push_int(&mut connections, "max_inflight_size", 1024);

    let mut ws: Vec<(String, SettingValue)> = Vec::new();
    push_text(&mut ws, "name", String::from_str("ws-1"));
    push_text(&mut ws, "listen", listen_addr(addr, port));
    push_int(&mut ws, "next_connection_delay_ms", 1);
    ws.push((String::from_str("connections"), SettingValue::Section(connections)));
    ws
}

/// The connection settings of the TCPv4 server section.
pub open spec fn tcpv4_connections(c: Seq<(String, SettingValue)>) -> bool {
    &&& c.len() == 4
    &&& pair_int(c[0], "connection_timeout_ms"@, 60000)
    &&& pair_int(c[1], "max_payload_size"@, 20480)
    &&& pair_int(c[2], "max_inflight_count"@, 20480)
    &&& pair_bool(c[3], "dynamic_filters"@, true)
}

/// TCPv4 configuration section: server name `v4-1`, the endpoint's listen
/// address, the connection delay, and the connection settings.
pub fn tcpv4_section(broker_config: &MqttBrokerConfig) -> (r: Vec<(String, SettingValue)>)
    requires
        broker_config.tcp matches Some(t) && t.addr is Some && t.port is Some,
    ensures
        r@.len() == 4,
        pair_text(r@[0], "name"@, "v4-1"@),
        pair_text(
            r@[1],
            "listen"@,
            spec_listen_addr((broker_config.tcp->0.addr->0)@, broker_config.tcp->0.port->0),
        ),
        pair_int(r@[2], "next_connection_delay_ms"@, 1),
        r@[3].0@ == "connections"@,
        r@[3].1 matches SettingValue::Section(c) && tcpv4_connections(c@),
{
    let t = if let Some(t) = &broker_config.tcp {
        t
    } else {
        vstd::pervasive::unreached()
    };
    let addr = if let Some(a) = &t.addr {
        a
    } else {
        vstd::pervasive::unreached()
    };
    let port = if let Some(p) = t.port {
        p
    } else {
        vstd::pervasive::unreached()
    };

    let mut connections: Vec<(String, SettingValue)> = Vec::new();
    push_int(&mut connections, "connection_timeout_ms", 60000);
    push_int(&mut connections, "max_payload_size", 20480);
    push_int(&mut connections, "max_inflight_count", 20480);
    push_bool(&mut connections, "dynamic_filters", true);

    let mut tcp: Vec<(String, SettingValue)> = Vec::new();
    push_text(&mut tcp, "name", String::from_str("v4-1"));
    push_text(&mut tcp, "listen", listen_addr(addr, port));
    push_int(&mut tcp, "next_connection_delay_ms", 1);
    tcp.push((String::from_str("connections"), SettingValue::Section(connections)));
    tcp
}

/// The router settings of the broker.
pub open spec fn router_settings(c: Seq<(String, SettingValue)>) -> bool {
    &&& c.len() == 5
    &&& pair_int(c[0], "id"@, 0)
    &&& pair_int(c[1], "max_connections"@, 20480)
    &&& pair_int(c[2], "max_outgoing_packet_count"@, 200)
    &&& pair_int(c[3], "max_segment_size"@, 104857600)
    &&& pair_int(c[4], "max_segment_count"@, 10)
}

/// Router configuration section shared by every broker start.
pub fn router_section() -> (r: Vec<(String, SettingValue)>)
    ensures
        router_settings(r@),
{
    let mut router: Vec<(String, SettingValue)> = Vec::new();
    push_int(&mut router, "id", 0);
    push_int(&mut router, "max_connections", 20480);
    push_int(&mut router, "max_outgoing_packet_count", 200);
    push_int(&mut router, "max_segment_size", 104857600);
    push_int(&mut router, "max_segment_count", 10);
    router
}

} // verus!
