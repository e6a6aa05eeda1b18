//! The agent's status counters: file positions, scanned lines, queue
//! depths and transport outcomes, shared by the agent's loops and dumped
//! periodically by the surrounding process.
use vstd::prelude::*;

use crate::metainfos::MetaInfos;

verus! {

/// The agent's running counters, updated by every loop.
#[derive(Debug)]
pub struct ClientStatusInfo {
    pub log_path: String,
    pub meta: MetaInfos,
    pub start_time: u32,
    pub current_read_pos: u64,
    pub file_end_pos: u64,
    pub total_scan_line: u64,
    pub log_queue_current: usize,
    pub send_queue_current: usize,
    pub send_count: u64,
    pub success_count: u64,
}

impl ClientStatusInfo {
    /// Fresh counters for a monitoring run started at the given time.
    pub fn new(log_path: String, meta: MetaInfos, start_time: u32) -> (r: ClientStatusInfo)
        ensures
            r.log_path@ == log_path@,
            r.meta == meta,
            r.start_time == start_time,
            r.current_read_pos == 0,
            r.file_end_pos == 0,
            r.total_scan_line == 0,
            r.log_queue_current == 0,
            r.send_queue_current == 0,
            r.send_count == 0,
            r.success_count == 0,
    {
        ClientStatusInfo {
            log_path,
            meta,
            start_time,
            current_read_pos: 0,
            file_end_pos: 0,
            total_scan_line: 0,
            log_queue_current: 0,
            send_queue_current: 0,
            send_count: 0,
            success_count: 0,
        }
    }

    /// Records the position reads have reached.
    pub fn update_file_info_current(&mut self, current_pos: u64)
        ensures
            *final(self) == (ClientStatusInfo { current_read_pos: current_pos, ..*old(
                self) }),
    {
        self.current_read_pos = current_pos;
    }

    /// Records the last observed end of the file.
    pub fn update_file_info_end(&mut self, end_pos: u64)
        ensures
            *final(self) == (ClientStatusInfo { file_end_pos: end_pos, ..*old(self) }),
    {
        self.file_end_pos = end_pos;
    }

    /// Counts scanned lines, stopping at the counter's ceiling.
    pub fn update_file_info_line_cnt(&mut self, count: u64)
        ensures
            *final(self) == (ClientStatusInfo {
                total_scan_line: (if old(self).total_scan_line + count <= u64::MAX {
                    (old(self).total_scan_line + count) as u64
                } else {
                    u64::MAX
                }),
                ..*old(self)
            }),
    {
        if count <= u64::MAX - self.total_scan_line {
            self.total_scan_line = self.total_scan_line + count;
        } else {
            self.total_scan_line = u64::MAX;
        }
    }

    /// Records the raw-line queue's depth.
    pub fn log_queue_current(&mut self, sz: usize)
        ensures
            *final(self) == (ClientStatusInfo { log_queue_current: sz, ..*old(self) }),
    {
        self.log_queue_current = sz;
    }

    /// Records the outbound queue's depth.
    pub fn send_queue_current(&mut self, sz: usize)
        ensures
            *final(self) == (ClientStatusInfo { send_queue_current: sz, ..*old(self) }),
    {
        self.send_queue_current = sz;
    }

    /// Counts one batch post and whether it succeeded, stopping at the
    /// counters' ceiling.
    pub fn net_queue_count(&mut self, succ: bool)
        ensures
            final(self).send_count as int == (if old(self).send_count < u64::MAX {
                old(self).send_count + 1
            } else {
                u64::MAX as int
            }),
            final(self).success_count as int == (if succ && old(self).success_count
                < u64::MAX {
                old(self).success_count + 1
            } else {
                old(self).success_count as int
            }),
            final(self).log_path == old(self).log_path,
            final(self).meta == old(self).meta,
            final(self).start_time == old(self).start_time,
            final(self).current_read_pos == old(self).current_read_pos,
            final(self).file_end_pos == old(self).file_end_pos,
            final(self).total_scan_line == old(self).total_scan_line,
            final(self).log_queue_current == old(self).log_queue_current,
            final(self).send_queue_current == old(self).send_queue_current,
    {
        if self.send_count < u64::MAX {
            self.send_count = self.send_count + 1;
        }
        if succ && self.success_count < u64::MAX {
            self.success_count = self.success_count + 1;
        }
    }
}

} // verus!
