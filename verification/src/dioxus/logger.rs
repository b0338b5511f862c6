//! Builder for the Dioxus logger.
//!
//! The builder collects a minimum level and a list of target filters and
//! renders them as the comma-separated directive string that an environment
//! filter parses. Installing the global subscriber from that string is left
//! to the application layer.

use vstd::prelude::*;
use vstd::string::StringExecFns;

verus! {

/// Minimum log level of the logger.
#[derive(Clone, Copy, Debug, PartialEq, Eq, Structural)]
pub enum LogLevel {
    Error,
    Warn,
    Info,
    Debug,
    Trace,
}

/// Builder for the Dioxus logger.
#[derive(Clone, Debug)]
pub struct LoggerBuilder {
    /// Minimum log level.
    pub level: Option<LogLevel>,
    /// Additional filters.
    pub filters: Vec<String>,
    /// Whether to display the target of the log.
    pub display_target: bool,
}

/// The directive word of a log level.
pub open spec fn spec_level_str(level: LogLevel) -> Seq<char> {
    match level {
        LogLevel::Error => "error"@,
        LogLevel::Warn => "warn"@,
        LogLevel::Info => "info"@,
        LogLevel::Debug => "debug"@,
        LogLevel::Trace => "trace"@,
    }
}

/// Filters joined with a comma between consecutive entries.
pub open spec fn spec_joined(filters: Seq<String>) -> Seq<char>
    decreases filters.len(),
{
    if filters.len() == 0 {
        Seq::empty()
    } else if filters.len() == 1 {
        filters[0]@
    } else {
        spec_joined(filters.drop_last()) + ","@ + filters.last()@
    }
}

/// The full directive string of a builder: the level word (the level
/// defaults to info), a comma, then the joined filters.
pub open spec fn spec_filter_string(b: LoggerBuilder) -> Seq<char> {
    spec_level_str(if b.level is Some {
        b.level->0
    } else {
        LogLevel::Info
    }) + ","@ + spec_joined(b.filters@)
}

/// The builder has the given filters appended to those of `old`.
pub open spec fn filters_pushed(r: LoggerBuilder, b: LoggerBuilder, filter: Seq<char>) -> bool {
    &&& r.filters@.len() == b.filters@.len() + 1
    &&& forall|j: int| 0 <= j < b.filters@.len() ==> r.filters@[j] == b.filters@[j]
    &&& r.filters@.last()@ == filter
    &&& r.level == b.level
    &&& r.display_target == b.display_target
}

impl LoggerBuilder {
    /// Set the minimum log level.
    pub fn with_level(self, level: LogLevel) -> (r: Self)
        ensures
            r.level == Some(level),
            r.filters@ == self.filters@,
            r.display_target == self.display_target,
    {
        LoggerBuilder { level: Some(level), ..self }
    }

    /// Choose whether log lines carry their target.
    pub fn display_target(self, display: bool) -> (r: Self)
        ensures
            r.display_target == display,
            r.filters@ == self.filters@,
            r.level == self.level,
    {
        LoggerBuilder { display_target: display, ..self }
    }

    /// Add a filter to the logger.
    pub fn add_filter(self, filter: &str) -> (r: Self)
        ensures
            filters_pushed(r, self, filter@),
    {
        let mut filters = self.filters;
        filters.push(String::from_str(filter));
        LoggerBuilder { filters, ..self }
    }

    /// Silence the rumqttd target.
    pub fn filter_rumqttd(self) -> (r: Self)
        ensures
            filters_pushed(r, self, "rumqttd=off"@),
    {
        self.add_filter("rumqttd=off")
    }

    /// Silence the dioxus_core target.
    pub fn filter_dioxus_core(self) -> (r: Self)
        ensures
            filters_pushed(r, self, "dioxus_core=off"@),
    {
        self.add_filter("dioxus_core=off")
    }

    /// Silence the dioxus_signals target.
    pub fn filter_dioxus_signals(self) -> (r: Self)
        ensures
            filters_pushed(r, self, "dioxus_signals=off"@),
    {
        self.add_filter("dioxus_signals=off")
    }

    /// Silence the warnings target.
    pub fn filter_warnings(self) -> (r: Self)
        ensures
            filters_pushed(r, self, "warnings=off"@),
    {
        self.add_filter("warnings=off")
    }

    /// Silence the rmcp target.
    pub fn filter_rmcp(self) -> (r: Self)
        ensures
            filters_pushed(r, self, "rmcp=off"@),
    {
        self.add_filter("rmcp=off")
    }

    /// The directive word of the configured level, defaulting to info.
    pub fn level_str(&self) -> (r: &'static str)
        ensures
            r@ == spec_level_str(if self.level is Some {
                self.level->0
            } else {
                LogLevel::Info
            }),
    {
        match self.level {
            Some(LogLevel::Error) => "error",
            Some(LogLevel::Warn) => "warn",
            Some(LogLevel::Info) => "info",
            Some(LogLevel::Debug) => "debug",
            Some(LogLevel::Trace) => "trace",
            None => "info",
        }
    }

    /// Render the full directive string: level word, comma, joined filters.
    #[verifier::loop_isolation(false)]
    pub fn filter_string(&self) -> (r: String)
        ensures
            r@ == spec_filter_string(*self),
    {
        let mut r = self.level_str().to_owned();
        r.append(",");
        let mut i: usize = 0;
        while i < self.filters.len()
            invariant
                0 <= i <= self.filters@.len(),
                r@ == spec_level_str(if self.level is Some {
                    self.level->0
                } else {
                    LogLevel::Info
                }) + ","@ + spec_joined(self.filters@.subrange(0, i as int)),
            decreases self.filters@.len() - i,
        {
            if i > 0 {
                r.append(",");
            }
            r.append(self.filters[i].as_str());
            proof {
                let sub = self.filters@.subrange(0, i + 1);
                assert(sub.drop_last() =~= self.filters@.subrange(0, i as int));
                assert(sub.last() == self.filters@[i as int]);
                if i == 0 {
                    assert(spec_joined(sub) == self.filters@[0]@);
                    assert(spec_joined(self.filters@.subrange(0, 0)) == Seq::<char>::empty());
                    assert(r@ =~= spec_level_str(if self.level is Some {
                        self.level->0
                    } else {
                        LogLevel::Info
                    }) + ","@ + spec_joined(sub));
                } else {
                    assert(spec_joined(sub) == spec_joined(sub.drop_last()) + ","@ + sub.last()@);
                    assert(r@ =~= spec_level_str(if self.level is Some {
                        self.level->0
                    } else {
                        LogLevel::Info
                    }) + ","@ + spec_joined(sub));
                }
            }
            i = i + 1;
        }
        proof {
            assert(self.filters@.subrange(0, self.filters@.len() as int) =~= self.filters@);
        }
        r
    }
}

impl Default for LoggerBuilder {
    /// A builder with no level set, no filters, and targets hidden.
    fn default() -> (r: Self)
        ensures
            r.level is None,
            r.filters@.len() == 0,
            !r.display_target,
    {
        LoggerBuilder { level: None, filters: Vec::new(), display_target: false }
    }
}

} // verus!
