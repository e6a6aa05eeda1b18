//! The file-tailing state machine: a cursor over a growing log file that
//! survives stalls, truncation and replacement. The surrounding process
//! performs the seeks and reads; the cursor decides, from each observed
//! read position, whether a line was produced, whether the file stalled,
//! and when to inspect the file's end for a rotation back to offset zero.
use vstd::prelude::*;

use crate::text::find_char_from;

verus! {

/// What one poll of the file meant.
#[derive(Debug, Clone, Copy, PartialEq, Eq, Structural)]
pub enum PollOutcome {
    /// New bytes were read: the line is emitted and the cursor advances.
    Emitted,
    /// Nothing new; keep polling.
    Stalled,
    /// Nothing new for four consecutive polls: inspect the file's end.
    CheckEnd,
}

/// The tailer's cursor: the position reads resume from, the last observed
/// end of the file, and how many consecutive polls saw no growth.
#[derive(Debug, Clone, Copy, PartialEq, Eq, Structural)]
pub struct TailCursor {
    pub read_offset: u64,
    pub observed_end_offset: u64,
    pub stall_count: u32,
}

/// The read position never lies beyond the last known end of the file.
pub open spec fn wf_cursor(c: TailCursor) -> bool {
    c.read_offset <= c.observed_end_offset
}

/// The cursor after a poll that ended at `new_pos`, and what the poll
/// meant: growth emits and advances, a fourth consecutive stall asks for
/// an end check.
pub open spec fn spec_poll(c: TailCursor, new_pos: u64) -> (TailCursor, PollOutcome) {
    if new_pos > c.read_offset {
        (
            TailCursor {
                read_offset: new_pos,
                observed_end_offset: if new_pos > c.observed_end_offset {
                    new_pos
                } else {
                    c.observed_end_offset
                },
                stall_count: 0,
            },
            PollOutcome::Emitted,
        )
    } else if c.stall_count >= 3 {
        (TailCursor { stall_count: 0, ..c }, PollOutcome::CheckEnd)
    } else {
        (
            TailCursor { stall_count: (c.stall_count + 1) as u32, ..c },
            PollOutcome::Stalled,
        )
    }
}

/// The cursor after an end check that saw the file end at `end`: an end
/// smaller than the read position means the file was truncated or
/// replaced, and reading rewinds to offset zero; otherwise the file is
/// merely idle and polling continues at the current offset.
pub open spec fn spec_end_check(c: TailCursor, end: u64) -> (TailCursor, bool) {
    if end < c.read_offset {
        (TailCursor { read_offset: 0, observed_end_offset: end, stall_count: 0 }, true)
    } else {
        (TailCursor { read_offset: c.read_offset, observed_end_offset: end,
            stall_count: 0 }, false)
    }
}

impl TailCursor {
    /// A cursor at the start of a file.
    pub fn new() -> (r: TailCursor)
        ensures
            r.read_offset == 0,
            r.observed_end_offset == 0,
            r.stall_count == 0,
            wf_cursor(r),
    {
        TailCursor { read_offset: 0, observed_end_offset: 0, stall_count: 0 }
    }

    /// Records one poll that ended at `new_pos`.
    pub fn on_poll(&mut self, new_pos: u64) -> (r: PollOutcome)
        requires
            wf_cursor(*old(self)),
        ensures
            (*final(self), r) == spec_poll(*old(self), new_pos),
            wf_cursor(*final(self)),
    {
        if new_pos > self.read_offset {
            self.read_offset = new_pos;
            if new_pos > self.observed_end_offset {
                self.observed_end_offset = new_pos;
            }
            self.stall_count = 0;
            PollOutcome::Emitted
        } else if self.stall_count >= 3 {
            self.stall_count = 0;
            PollOutcome::CheckEnd
        } else {
            self.stall_count = self.stall_count + 1;
            PollOutcome::Stalled
        }
    }

    /// Records an end check that saw the file end at `end`. Returns
    /// whether the file was found rotated and reading rewound to zero.
    pub fn on_end_check(&mut self, end: u64) -> (rewound: bool)
        ensures
            (*final(self), rewound) == spec_end_check(*old(self), end),
            wf_cursor(*final(self)),
    {
        if end < self.read_offset {
            self.read_offset = 0;
            self.observed_end_offset = end;
            self.stall_count = 0;
            true
        } else {
            self.observed_end_offset = end;
            self.stall_count = 0;
            false
        }
    }
}

/// Position after reading one line of `f` from offset `o`: just past the
/// first newline at or after `o`, or the end of the file when no newline
/// follows. At the end of the file, nothing is read.
pub open spec fn read_pos(f: Seq<char>, o: int) -> int {
    if o >= f.len() {
        o
    } else {
        let k = find_char_from(f, o, '\n');
        if k < f.len() {
            k + 1
        } else {
            f.len() as int
        }
    }
}

/// A poll at a valid offset moves forward, and stands still exactly at the
/// end of the file.
pub proof fn lemma_read_pos_shape(f: Seq<char>, o: int)
    requires
        0 <= o <= f.len(),
    ensures
        o <= read_pos(f, o) <= f.len(),
        o < f.len() ==> read_pos(f, o) > o,
        o == f.len() ==> read_pos(f, o) == o,
{
    if o < f.len() {
        crate::text::lemma_find_char_shape(f, o, '\n');
    }
}

/// The flattening of a single line is the line itself.
proof fn proof_flatten_single(x: Seq<char>)
    ensures
        seq![x].flatten() == x,
{
    seq![x].lemma_flatten_one_element();
}

/// One text is the beginning of another.
pub open spec fn is_prefix(a: Seq<char>, b: Seq<char>) -> bool {
    a.len() <= b.len() && b.subrange(0, a.len() as int) == a
}

/// A run of the tailer: one poll per file snapshot, an end check whenever
/// a poll asks for one. Yields the final cursor and the emitted lines.
pub open spec fn spec_run(c: TailCursor, fs: Seq<Seq<char>>) -> (TailCursor, Seq<Seq<char>>)
    decreases fs.len(),
{
    if fs.len() == 0 {
        (c, Seq::empty())
    } else {
        let f = fs[0];
        let p = read_pos(f, c.read_offset as int);
        let step = spec_poll(c, p as u64);
        let c2 = if step.1 == PollOutcome::CheckEnd {
            spec_end_check(step.0, f.len() as u64).0
        } else {
            step.0
        };
        let rest = spec_run(c2, fs.subrange(1, fs.len() as int));
        if step.1 == PollOutcome::Emitted {
            (rest.0, seq![f.subrange(c.read_offset as int, p)] + rest.1)
        } else {
            (rest.0, rest.1)
        }
    }
}

/// Every snapshot is a prefix of the next: the file only grows.
pub open spec fn monotone(fs: Seq<Seq<char>>) -> bool {
    forall|k: int| 0 <= k < fs.len() - 1 ==> is_prefix(#[trigger] fs[k], fs[k + 1])
}

/// Within a prefix, the two files agree character by character, so their
/// subranges and line breaks agree too.
proof fn lemma_prefix_subrange(a: Seq<char>, b: Seq<char>, x: int, y: int)
    requires
        is_prefix(a, b),
        0 <= x <= y <= a.len(),
    ensures
        a.subrange(x, y) == b.subrange(x, y),
{
    assert forall|k: int| 0 <= k < y - x implies a.subrange(x, y)[k] == b.subrange(
        x, y)[k] by {
        assert(b.subrange(0, a.len() as int)[x + k] == a[x + k]);
    }
    assert(a.subrange(x, y) =~= b.subrange(x, y));
}

/// A prefix chain: every earlier snapshot is a prefix of the last.
proof fn lemma_monotone_last(fs: Seq<Seq<char>>, k: int)
    requires
        monotone(fs),
        0 <= k < fs.len(),
    ensures
        is_prefix(fs[k], fs[fs.len() - 1]),
    decreases fs.len() - k,
{
    if k < fs.len() - 1 {
        lemma_monotone_last(fs, k + 1);
        let a = fs[k];
        let b = fs[k + 1];
        let c = fs[fs.len() - 1];
        assert(is_prefix(a, b));
        assert forall|t: int| 0 <= t < a.len() implies c.subrange(0, a.len() as int)[t]
            == a[t] by {
            assert(c.subrange(0, b.len() as int)[t] == b[t]);
            assert(b.subrange(0, a.len() as int)[t] == a[t]);
        }
        assert(c.subrange(0, a.len() as int) =~= a);
    } else {
        assert(fs[k].subrange(0, fs[k].len() as int) =~= fs[k]);
    }
}

/// The tailing law for a file that grows without truncation: over any
/// sequence of snapshots, whatever the polling cadence, the lines the
/// tailer emits are, in order and without loss or duplication, exactly
/// the characters of the file between the starting offset and the final
/// read position.
pub proof fn lemma_tailer_emits_exactly(c0: TailCursor, fs: Seq<Seq<char>>)
    requires
        fs.len() > 0,
        monotone(fs),
        c0.read_offset as int <= fs[0].len(),
        fs[fs.len() - 1].len() <= u64::MAX,
    ensures
        ({
            let r = spec_run(c0, fs);
            let last = fs[fs.len() - 1];
            &&& c0.read_offset <= r.0.read_offset
            &&& r.0.read_offset as int <= last.len()
            &&& r.1.flatten() =~= last.subrange(c0.read_offset as int,
                r.0.read_offset as int)
        }),
    decreases fs.len(),
{
    let f = fs[0];
    let last = fs[fs.len() - 1];
    lemma_monotone_last(fs, 0);
    let o = c0.read_offset as int;
    lemma_read_pos_shape(f, o);
    let p = read_pos(f, o);
    let step = spec_poll(c0, p as u64);
    let c2 = if step.1 == PollOutcome::CheckEnd {
        spec_end_check(step.0, f.len() as u64).0
    } else {
        step.0
    };
    assert(c2.read_offset as int <= f.len());
    assert(c2.read_offset >= c0.read_offset);
    let rest_fs = fs.subrange(1, fs.len() as int);
    if fs.len() == 1 {
        assert(spec_run(c2, rest_fs).1 =~= Seq::<Seq<char>>::empty());
        assert(Seq::<Seq<char>>::empty().flatten() =~= Seq::<char>::empty());
        if step.1 == PollOutcome::Emitted {
            let r = spec_run(c0, fs);
            assert(r.0 == c2);
            assert(r.1 =~= seq![f.subrange(o, p)]);
            proof_flatten_single(f.subrange(o, p));
            assert(r.1.flatten() =~= f.subrange(o, p));
            assert(last == f);
        } else {
            let r = spec_run(c0, fs);
            assert(r.1 =~= Seq::<Seq<char>>::empty());
            assert(c2.read_offset == c0.read_offset);
            assert(last.subrange(o, o) =~= Seq::<char>::empty());
        }
    } else {
        assert(monotone(rest_fs)) by {
            assert forall|k: int| 0 <= k < rest_fs.len() - 1 implies is_prefix(
                #[trigger] rest_fs[k], rest_fs[k + 1]) by {
                assert(rest_fs[k] == fs[k + 1]);
                assert(rest_fs[k + 1] == fs[k + 2]);
            }
        }
        assert(rest_fs[0] == fs[1]);
        assert(is_prefix(f, fs[1]));
        assert(c2.read_offset as int <= rest_fs[0].len());
        assert(rest_fs[rest_fs.len() - 1] == last);
        lemma_tailer_emits_exactly(c2, rest_fs);
        let rr = spec_run(c2, rest_fs);
        let r = spec_run(c0, fs);
        assert(r.0 == rr.0);
        if step.1 == PollOutcome::Emitted {
            assert(r.1 == seq![f.subrange(o, p)] + rr.1);
            assert(r.1.flatten() =~= f.subrange(o, p) + rr.1.flatten()) by {
                assert((seq![f.subrange(o, p)] + rr.1).flatten() =~= seq![f.subrange(
                    o, p)].flatten() + rr.1.flatten()) by {
                    vstd::seq_lib::lemma_flatten_concat(seq![f.subrange(o, p)], rr.1);
                }
                proof_flatten_single(f.subrange(o, p));
                assert(seq![f.subrange(o, p)].flatten() =~= f.subrange(o, p));
            }
            lemma_prefix_subrange(f, last, o, p);
            assert(c2.read_offset as int == p);
            assert(last.subrange(o, rr.0.read_offset as int) =~= last.subrange(o, p)
                + last.subrange(p, rr.0.read_offset as int));
        } else {
            assert(r.1 == rr.1);
            assert(c2.read_offset == c0.read_offset);
        }
    }
}

/// The rotation law: from a quiet cursor, four consecutive stalls force an
/// end check, and an end check that sees the file shorter than the read
/// position rewinds reading to offset zero, so the next emitted line comes
/// from the start of the replaced file; a file at least as long as the
/// read position never rewinds.
pub proof fn lemma_stall_rotation(c0: TailCursor, end: u64)
    requires
        c0.stall_count == 0,
    ensures
        ({
            let c1 = spec_poll(c0, c0.read_offset).0;
            let c2 = spec_poll(c1, c1.read_offset).0;
            let c3 = spec_poll(c2, c2.read_offset).0;
            let s4 = spec_poll(c3, c3.read_offset);
            &&& spec_poll(c0, c0.read_offset).1 == PollOutcome::Stalled
            &&& s4.1 == PollOutcome::CheckEnd
            &&& (end < c0.read_offset ==> spec_end_check(s4.0, end) == (TailCursor {
                read_offset: 0,
                observed_end_offset: end,
                stall_count: 0,
            }, true))
            &&& (end >= c0.read_offset ==> spec_end_check(s4.0, end).0.read_offset
                == c0.read_offset && !spec_end_check(s4.0, end).1)
        }),
{
}

} // verus!
