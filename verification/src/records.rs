//! The typed metric records: counters, timers and flows. Each carries a
//! timestamp, the advertising node's address, a category and a tag, plus
//! kind-specific numeric fields. Records are immutable once constructed.
use vstd::prelude::*;

use crate::ipaddress::{wf_ipv4, IpAddress};
use crate::text::{clean_text, wf_number_text};
use crate::timestamp::TimeStamp;

verus! {

/// A counter metric: an event count and a value.
#[derive(Debug)]
pub struct CounterUnit {
    send_timestamp: TimeStamp,
    public_ip: IpAddress,
    category: String,
    tag: String,
    count: u64,
    value: i64,
}

/// A timer metric: an event count with maximal, minimal and average times.
#[derive(Debug)]
pub struct TimerUnit {
    send_timestamp: TimeStamp,
    public_ip: IpAddress,
    category: String,
    tag: String,
    count: u64,
    max_time: u64,
    min_time: u64,
    avg_time: u64,
}

/// A flow metric: an event count with flow aggregates and a decimal
/// throughput figure, kept in its textual form.
#[derive(Debug)]
pub struct FlowUnit {
    send_timestamp: TimeStamp,
    public_ip: IpAddress,
    category: String,
    tag: String,
    count: u64,
    max_flow: i64,
    min_flow: i64,
    sum_flow: i64,
    avg_flow: i64,
    tps_flow: i64,
    tps: String,
}

impl CounterUnit {
    pub closed spec fn spec_ts(&self) -> u32 {
        self.send_timestamp@
    }

    pub closed spec fn spec_ip(&self) -> IpAddress {
        self.public_ip
    }

    pub closed spec fn spec_category(&self) -> Seq<char> {
        self.category@
    }

    pub closed spec fn spec_tag(&self) -> Seq<char> {
        self.tag@
    }

    pub closed spec fn spec_count(&self) -> u64 {
        self.count
    }

    pub closed spec fn spec_value(&self) -> i64 {
        self.value
    }

    /// The record can be written on the wire and read back: its address is
    /// a well-formed dotted quad and its strings need no escaping.
    pub open spec fn wf(&self) -> bool {
        &&& wf_ipv4(self.spec_ip().spec_ip())
        &&& clean_text(self.spec_category())
        &&& clean_text(self.spec_tag())
    }

    /// Builds a counter record from its parts.
    pub(crate) fn assemble(
        send_timestamp: TimeStamp,
        public_ip: IpAddress,
        category: String,
        tag: String,
        count: u64,
        value: i64,
    ) -> (r: CounterUnit)
        ensures
            r.spec_ts() == send_timestamp@,
            r.spec_ip() == public_ip,
            r.spec_category() == category@,
            r.spec_tag() == tag@,
            r.spec_count() == count,
            r.spec_value() == value,
    {
        CounterUnit { send_timestamp, public_ip, category, tag, count, value }
    }

    /// A fixed counter record for test data.
    pub fn rand() -> (r: CounterUnit)
        ensures
            r.spec_ts() == 123,
            r.spec_ip().spec_ip() == "11.11.11.11"@,
            r.spec_ip().spec_port() == 11,
            r.spec_category() == "cat"@,
            r.spec_tag() == "tag"@,
            r.spec_count() == 10,
            r.spec_value() == 100,
    {
        CounterUnit {
            send_timestamp: TimeStamp::rand(),
            public_ip: IpAddress::rand(),
            category: String::from_str("cat"),
            tag: String::from_str("tag"),
            count: 10,
            value: 100,
        }
    }

    pub fn send_timestamp(&self) -> (r: TimeStamp)
        ensures
            r@ == self.spec_ts(),
    {
        self.send_timestamp
    }

    pub fn public_ip(&self) -> (r: &IpAddress)
        ensures
            *r == self.spec_ip(),
    {
        &self.public_ip
    }

    pub fn category(&self) -> (r: &str)
        ensures
            r@ == self.spec_category(),
    {
        self.category.as_str()
    }

    pub fn tag(&self) -> (r: &str)
        ensures
            r@ == self.spec_tag(),
    {
        self.tag.as_str()
    }

    pub fn count(&self) -> (r: u64)
        ensures
            r == self.spec_count(),
    {
        self.count
    }

    pub fn value(&self) -> (r: i64)
        ensures
            r == self.spec_value(),
    {
        self.value
    }
}

impl TimerUnit {
    pub closed spec fn spec_ts(&self) -> u32 {
        self.send_timestamp@
    }

    pub closed spec fn spec_ip(&self) -> IpAddress {
        self.public_ip
    }

    pub closed spec fn spec_category(&self) -> Seq<char> {
        self.category@
    }

    pub closed spec fn spec_tag(&self) -> Seq<char> {
        self.tag@
    }

    pub closed spec fn spec_count(&self) -> u64 {
        self.count
    }

    pub closed spec fn spec_max(&self) -> u64 {
        self.max_time
    }

    pub closed spec fn spec_min(&self) -> u64 {
        self.min_time
    }

    pub closed spec fn spec_avg(&self) -> u64 {
        self.avg_time
    }

    /// The record can be written on the wire and read back.
    pub open spec fn wf(&self) -> bool {
        &&& wf_ipv4(self.spec_ip().spec_ip())
        &&& clean_text(self.spec_category())
        &&& clean_text(self.spec_tag())
    }

    /// Builds a timer record from its parts.
    pub(crate) fn assemble(
        send_timestamp: TimeStamp,
        public_ip: IpAddress,
        category: String,
        tag: String,
        count: u64,
        max_time: u64,
        min_time: u64,
        avg_time: u64,
    ) -> (r: TimerUnit)
        ensures
            r.spec_ts() == send_timestamp@,
            r.spec_ip() == public_ip,
            r.spec_category() == category@,
            r.spec_tag() == tag@,
            r.spec_count() == count,
            r.spec_max() == max_time,
            r.spec_min() == min_time,
            r.spec_avg() == avg_time,
    {
        TimerUnit {
            send_timestamp,
            public_ip,
            category,
            tag,
            count,
            max_time,
            min_time,
            avg_time,
        }
    }

    pub fn send_timestamp(&self) -> (r: TimeStamp)
        ensures
            r@ == self.spec_ts(),
    {
        self.send_timestamp
    }

    pub fn public_ip(&self) -> (r: &IpAddress)
        ensures
            *r == self.spec_ip(),
    {
        &self.public_ip
    }

    pub fn category(&self) -> (r: &str)
        ensures
            r@ == self.spec_category(),
    {
        self.category.as_str()
    }

    pub fn tag(&self) -> (r: &str)
        ensures
            r@ == self.spec_tag(),
    {
        self.tag.as_str()
    }

    pub fn count(&self) -> (r: u64)
        ensures
            r == self.spec_count(),
    {
        self.count
    }

    pub fn max_time(&self) -> (r: u64)
        ensures
            r == self.spec_max(),
    {
        self.max_time
    }

    pub fn min_time(&self) -> (r: u64)
        ensures
            r == self.spec_min(),
    {
        self.min_time
    }

    pub fn avg_time(&self) -> (r: u64)
        ensures
            r == self.spec_avg(),
    {
        self.avg_time
    }
}

impl FlowUnit {
    pub closed spec fn spec_ts(&self) -> u32 {
        self.send_timestamp@
    }

    pub closed spec fn spec_ip(&self) -> IpAddress {
        self.public_ip
    }

    pub closed spec fn spec_category(&self) -> Seq<char> {
        self.category@
    }

    pub closed spec fn spec_tag(&self) -> Seq<char> {
        self.tag@
    }

    pub closed spec fn spec_count(&self) -> u64 {
        self.count
    }

    pub closed spec fn spec_max(&self) -> i64 {
        self.max_flow
    }

    pub closed spec fn spec_min(&self) -> i64 {
        self.min_flow
    }

    pub closed spec fn spec_sum(&self) -> i64 {
        self.sum_flow
    }

    pub closed spec fn spec_avg(&self) -> i64 {
        self.avg_flow
    }

    pub closed spec fn spec_tps_flow(&self) -> i64 {
        self.tps_flow
    }

    pub closed spec fn spec_tps(&self) -> Seq<char> {
        self.tps@
    }

    /// The record can be written on the wire and read back: besides the
    /// address and string conditions, its throughput text is a well-formed
    /// decimal number.
    pub open spec fn wf(&self) -> bool {
        &&& wf_ipv4(self.spec_ip().spec_ip())
        &&& clean_text(self.spec_category())
        &&& clean_text(self.spec_tag())
        &&& wf_number_text(self.spec_tps())
    }

    /// Builds a flow record from its parts.
    pub(crate) fn assemble(
        send_timestamp: TimeStamp,
        public_ip: IpAddress,
        category: String,
        tag: String,
        count: u64,
        max_flow: i64,
        min_flow: i64,
        sum_flow: i64,
        avg_flow: i64,
        tps_flow: i64,
        tps: String,
    ) -> (r: FlowUnit)
        ensures
            r.spec_ts() == send_timestamp@,
            r.spec_ip() == public_ip,
            r.spec_category() == category@,
            r.spec_tag() == tag@,
            r.spec_count() == count,
            r.spec_max() == max_flow,
            r.spec_min() == min_flow,
            r.spec_sum() == sum_flow,
            r.spec_avg() == avg_flow,
            r.spec_tps_flow() == tps_flow,
            r.spec_tps() == tps@,
    {
        FlowUnit {
            send_timestamp,
            public_ip,
            category,
            tag,
            count,
            max_flow,
            min_flow,
            sum_flow,
            avg_flow,
            tps_flow,
            tps,
        }
    }

    pub fn send_timestamp(&self) -> (r: TimeStamp)
        ensures
            r@ == self.spec_ts(),
    {
        self.send_timestamp
    }

    pub fn public_ip(&self) -> (r: &IpAddress)
        ensures
            *r == self.spec_ip(),
    {
        &self.public_ip
    }

    pub fn category(&self) -> (r: &str)
        ensures
            r@ == self.spec_category(),
    {
        self.category.as_str()
    }

    pub fn tag(&self) -> (r: &str)
        ensures
            r@ == self.spec_tag(),
    {
        self.tag.as_str()
    }

    pub fn count(&self) -> (r: u64)
        ensures
            r == self.spec_count(),
    {
        self.count
    }

    pub fn max_flow(&self) -> (r: i64)
        ensures
            r == self.spec_max(),
    {
        self.max_flow
    }

    pub fn min_flow(&self) -> (r: i64)
        ensures
            r == self.spec_min(),
    {
        self.min_flow
    }

    pub fn sum_flow(&self) -> (r: i64)
        ensures
            r == self.spec_sum(),
    {
        self.sum_flow
    }

    pub fn avg_flow(&self) -> (r: i64)
        ensures
            r == self.spec_avg(),
    {
        self.avg_flow
    }

    pub fn tps_flow(&self) -> (r: i64)
        ensures
            r == self.spec_tps_flow(),
    {
        self.tps_flow
    }

    pub fn tps(&self) -> (r: &str)
        ensures
            r@ == self.spec_tps(),
    {
        self.tps.as_str()
    }
}

} // verus!
