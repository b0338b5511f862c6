/// Assembly of the broker settings sections.
pub mod broker;
/// Plain settings and topic addressing of the MQTT client.
pub mod client;
