//! A telemetry collection pipeline: agents tail structured log files,
//! extract embedded metric events, and forward them through an ingestion
//! gateway into a durable per-kind queue, from which per-tenant consumers
//! batch-write them into sharded storage.
//!
//! This crate holds the verified data path: the tailing state machine, the
//! line classifier, the wire forms of the metric records, the gateway's
//! routing rules, the durable-queue fan-out, and the per-tenant buffering
//! and flush policy. The surrounding processes (file and network transport,
//! storage round-trips) drive these functions from outside.

pub mod alarm_type;
pub mod alarm_wrapper;
pub mod client_status;
pub mod consumer_backend;
pub mod error;
pub mod ipaddress;
pub mod log_handler;
pub mod metainfos;
pub mod proxy;
pub mod queue;
pub mod records;
pub mod sql;
pub mod tailer;
pub mod text;
pub mod timestamp;
pub mod wire;

pub use alarm_type::MetricsAlarmType;
pub use alarm_wrapper::AlarmWrapper;
pub use client_status::ClientStatusInfo;
pub use consumer_backend::{ConsumerBackend, ConsumerBackendInner};
pub use error::{ClientError, TypeError};
pub use ipaddress::IpAddress;
pub use log_handler::LogHandler;
pub use metainfos::MetaInfos;
pub use tailer::{PollOutcome, TailCursor};
pub use records::{CounterUnit, FlowUnit, TimerUnit};
pub use sql::SqlTable;
pub use timestamp::TimeStamp;
