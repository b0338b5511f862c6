//! Plain settings and topic addressing of the custom MQTT client.
//!
//! The settings carry the values the client's addressing logic reads — the
//! quality of service, the retain flag, and the topic prefix. The connection
//! handle itself, and the subscribe and publish calls made through it, live
//! in the application layer, which embeds these settings next to the handle.

use crate::rand::generate_random_string;
use crate::rand::is_alphanumeric_char;
use vstd::prelude::*;
use vstd::string::StringExecFns;

verus! {

/// Quality of service level for MQTT messages.
#[derive(Clone, Copy, Debug, PartialEq, Eq, Structural)]
pub enum QosLevel {
    /// Deliver at most once.
    AtMostOnce,
    /// Deliver at least once.
    AtLeastOnce,
    /// Deliver exactly once.
    ExactlyOnce,
}

/// Predefined quality of service, retain flag and topic prefix of the
/// custom MQTT client.
#[derive(Clone, Debug)]
pub struct RumqttClientSettings {
    /// Quality of service level for MQTT messages.
    pub qos: QosLevel,
    /// Retain flag for MQTT messages.
    pub retain: bool,
    /// Prefix put before every topic.
    pub prefix: String,
}

impl RumqttClientSettings {
    /// Create new client settings with the given QoS, retain flag and
    /// topic prefix.
    pub fn new(qos: QosLevel, retain: bool, prefix: String) -> (r: Self)
        ensures
            r.qos == qos,
            r.retain == retain,
            r.prefix@ == prefix@,
    {
        RumqttClientSettings { qos, retain, prefix }
    }

    /// Generate a topic string with the configured prefix: the prefix, a
    /// slash, then the topic.
    pub fn topic_with_prefix(&self, topic: &str) -> (r: String)
        ensures
            r@ == self.prefix@ + "/"@ + topic@,
    {
        let mut r = self.prefix.clone();
        r.append("/");
        r.append(topic);
        r
    }
}

/// Build the client id for a module: the module name, a dash, then five
/// random alphanumeric characters, so that concurrent clients of the same
/// module get distinct ids with overwhelming likelihood.
pub fn make_client_id(module_name: &str) -> (r: String)
    ensures
        r@.len() == module_name@.len() + 6,
        r@.subrange(0, module_name@.len() as int) == module_name@,
        r@[module_name@.len() as int] == '-',
        forall|i: int|
            module_name@.len() + 1 <= i < r@.len() ==> is_alphanumeric_char(#[trigger] r@[i]),
{
    let mut r = module_name.to_owned();
    r.append("-");
    let suffix = generate_random_string(5);
    r.append(suffix.as_str());
    proof {
        reveal_strlit("-");
        assert(r@.subrange(0, module_name@.len() as int) =~= module_name@);
    }
    r
}

} // verus!
