//! Plain configuration values for endpoints and the MQTT broker.
//!
//! These types carry only plain data (addresses, ports, identifiers), so the
//! code that assembles broker settings from them can be reasoned about
//! directly. Reading and writing configuration files is left to the
//! application layer, which converts from and to its own serializable copies.

use vstd::prelude::*;
use vstd::string::StringExecFns;

verus! {

/// Configuration for an IP endpoint.
#[derive(Clone, Debug)]
pub struct IPEndpointConfig {
    /// Bind/connect address of the endpoint.
    pub addr: Option<String>,
    /// Port of the endpoint.
    pub port: Option<u16>,
}

/// Configuration for a USB endpoint.
#[derive(Clone, Debug)]
pub struct UsbEndpointConfig {
    /// USB vendor id.
    pub vid: Option<u16>,
    /// USB product id.
    pub pid: Option<u16>,
    /// USB serial number.
    pub serial: Option<String>,
}

/// Configuration for a serial port endpoint.
#[derive(Clone, Debug)]
pub struct SerialPortEndpointConfig {
    /// Serial port name.
    pub name: Option<String>,
    /// USB endpoint configuration.
    pub usb: Option<UsbEndpointConfig>,
    /// Baud rate.
    pub baud_rate: Option<u32>,
}

/// Configuration for a broker.
#[derive(Clone, Debug)]
pub struct MqttBrokerConfig {
    /// TCP endpoint configuration.
    pub tcp: Option<IPEndpointConfig>,
    /// WebSocket endpoint configuration.
    pub websocket: Option<IPEndpointConfig>,
}

/// An endpoint holds exactly the given address and port.
pub open spec fn endpoint_is(e: IPEndpointConfig, addr: Seq<char>, port: u16) -> bool {
    &&& e.addr matches Some(a) && a@ == addr
    &&& e.port == Some(port)
}

impl MqttBrokerConfig {
    /// The broker configuration used for meduse deployments: TCP bound to
    /// 12.0.0.1 on port 1883 and a WebSocket endpoint on all interfaces,
    /// port 8083.
    pub fn new_for_meduse() -> (r: Self)
        ensures
            r.tcp matches Some(t) && endpoint_is(t, "12.0.0.1"@, 1883),
            r.websocket matches Some(w) && endpoint_is(w, "0.0.0.0"@, 8083),
    {
        MqttBrokerConfig {
            tcp: Some(
                IPEndpointConfig { addr: Some(String::from_str("12.0.0.1")), port: Some(1883) },
            ),
            websocket: Some(
                IPEndpointConfig { addr: Some(String::from_str("0.0.0.0")), port: Some(8083) },
            ),
        }
    }
}

impl Default for MqttBrokerConfig {
    /// The default broker configuration: TCP on localhost port 1883, no
    /// WebSocket endpoint.
    fn default() -> (r: Self)
        ensures
            r.tcp matches Some(t) && endpoint_is(t, "127.0.0.1"@, 1883),
            r.websocket is None,
    {
        MqttBrokerConfig {
            tcp: Some(
                IPEndpointConfig { addr: Some(String::from_str("127.0.0.1")), port: Some(1883) },
            ),
            websocket: None,
        }
    }
}

} // verus!
