//! The transport envelope: a record kind, a tenant name, and the typed
//! record itself. Envelopes are what moves through the queues and what the
//! durable queue stores, serialized.
use vstd::prelude::*;

use crate::alarm_type::MetricsAlarmType;

verus! {

/// Wraps a typed record as `content`, together with its kind and the tenant
/// (`env`) it belongs to.
#[derive(Debug)]
pub struct AlarmWrapper<UnitType> {
    pub alarm_type: MetricsAlarmType,
    pub env: String,
    pub content: UnitType,
}

} // verus!
