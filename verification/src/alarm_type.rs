//! The record-kind discriminator: every metric record is a counter, a timer
//! or a flow, and the durable queue keeps one list per kind, keyed by the
//! kind's lowercase name.
use vstd::prelude::*;

use crate::error::TypeError;
use crate::text::str_eq;

verus! {

/// The discriminator of a metric record's shape: one of the three live
/// kinds, or `Invalid` for anything unrecognized.
#[derive(Debug, Clone, Copy, PartialEq, Eq, Structural)]
pub enum MetricsAlarmType {
    Invalid,
    Counter,
    Timer,
    Flow,
}

impl MetricsAlarmType {
    /// The lowercase name of the kind.
    pub fn to_string(&self) -> (r: String)
        ensures
            *self == MetricsAlarmType::Counter ==> r@ == "counter"@,
            *self == MetricsAlarmType::Timer ==> r@ == "timer"@,
            *self == MetricsAlarmType::Flow ==> r@ == "flow"@,
            *self == MetricsAlarmType::Invalid ==> r@ == "invalid"@,
    {
        match self {
            MetricsAlarmType::Counter => String::from_str("counter"),
            MetricsAlarmType::Timer => String::from_str("timer"),
            MetricsAlarmType::Flow => String::from_str("flow"),
            MetricsAlarmType::Invalid => String::from_str("invalid"),
        }
    }

    /// Name of the durable-queue list that holds records of this kind.
    pub fn as_redis_key(&self) -> (r: String)
        ensures
            *self == MetricsAlarmType::Counter ==> r@ == "counter"@,
            *self == MetricsAlarmType::Timer ==> r@ == "timer"@,
            *self == MetricsAlarmType::Flow ==> r@ == "flow"@,
            *self == MetricsAlarmType::Invalid ==> r@ == "invalid"@,
    {
        self.to_string()
    }

    /// Maps a kind name to the kind. Exactly the three lowercase names of
    /// the live kinds are accepted; everything else is invalid, and the
    /// `Invalid` kind itself is never returned.
    pub fn from_str(s: &str) -> (r: Result<MetricsAlarmType, TypeError>)
        ensures
            s@ == "counter"@ ==> (r matches Ok(t) && t == MetricsAlarmType::Counter),
            s@ == "timer"@ ==> (r matches Ok(t) && t == MetricsAlarmType::Timer),
            s@ == "flow"@ ==> (r matches Ok(t) && t == MetricsAlarmType::Flow),
            (s@ != "counter"@ && s@ != "timer"@ && s@ != "flow"@) ==> (r matches Err(
                TypeError::MetricsAlarmTypeInvalid)),
            r matches Ok(t) ==> t != MetricsAlarmType::Invalid,
    {
        proof {
            reveal_strlit("counter");
            reveal_strlit("timer");
            reveal_strlit("flow");
            assert("counter"@.len() == 7);
            assert("timer"@.len() == 5);
            assert("flow"@.len() == 4);
        }
        if str_eq(s, "counter") {
            Ok(MetricsAlarmType::Counter)
        } else if str_eq(s, "timer") {
            Ok(MetricsAlarmType::Timer)
        } else if str_eq(s, "flow") {
            Ok(MetricsAlarmType::Flow)
        } else {
            Err(TypeError::MetricsAlarmTypeInvalid)
        }
    }
}

} // verus!
