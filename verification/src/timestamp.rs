//! The timestamp carried inside every metric record: unsigned 32-bit epoch
//! seconds, written on the wire as a quoted decimal string.
use vstd::prelude::*;

use crate::error::TypeError;
use crate::text::{dec_seq, dec_val, digit_run_end, parse_u64_at, str_to_chars, u64_to_string};

verus! {

/// Unsigned 32-bit epoch seconds.
#[derive(Debug, Clone, Copy)]
pub struct TimeStamp {
    ts: u32,
}

impl View for TimeStamp {
    type V = u32;

    closed spec fn view(&self) -> u32 {
        self.ts
    }
}

/// The text is a plain digit run whose value fits 32 bits.
pub open spec fn wf_timestamp_text(s: Seq<char>) -> bool {
    &&& s.len() > 0
    &&& digit_run_end(s, 0) == s.len()
    &&& dec_val(s) <= u32::MAX
}

impl TimeStamp {
    /// A timestamp of the given epoch second.
    pub fn new(ts: u32) -> (r: TimeStamp)
        ensures
            r@ == ts,
    {
        TimeStamp { ts }
    }

    /// The epoch second this timestamp holds.
    pub fn data(&self) -> (r: u32)
        ensures
            r == self@,
    {
        self.ts
    }

    /// A fixed timestamp for test data.
    pub fn rand() -> (r: TimeStamp)
        ensures
            r@ == 123,
    {
        TimeStamp { ts: 123 }
    }

    /// The canonical decimal text of this timestamp.
    pub fn to_string(&self) -> (r: String)
        ensures
            r@ == dec_seq(self@ as nat),
    {
        u64_to_string(self.ts as u64)
    }

    /// Reads a timestamp from its decimal text. Succeeds exactly on a
    /// non-empty all-digit text whose value fits 32 bits.
    pub fn from_str(s: &str) -> (r: Result<TimeStamp, TypeError>)
        ensures
            r is Ok <==> wf_timestamp_text(s@),
            r matches Ok(t) ==> t@ as nat == dec_val(s@),
            r is Err ==> r matches Err(TypeError::DeFromStringError(_)),
    {
        let v: Vec<char> = str_to_chars(s);
        proof {
            assert(v@.subrange(0, v@.len() as int) =~= v@);
        }
        match parse_u64_at(&v, 0) {
            Some((x, j)) => {
                if j == v.len() && x <= 0xffff_ffffu64 {
                    Ok(TimeStamp { ts: x as u32 })
                } else {
                    proof {
                        if j != v@.len() {
                            crate::text::lemma_digit_run_end_shape(v@, 0);
                        }
                    }
                    Err(TypeError::DeFromStringError(String::from_str(
                        "timestamp text malformed",
                    )))
                }
            },
            None => {
                proof {
                    if digit_run_end(v@, 0) == v@.len() && v@.len() > 0 && dec_val(v@)
                        <= u32::MAX {
                        assert(dec_val(v@.subrange(0, digit_run_end(v@, 0))) <= u64::MAX);
                    }
                }
                Err(TypeError::DeFromStringError(String::from_str(
                    "timestamp text malformed",
                )))
            },
        }
    }
}

} // verus!
