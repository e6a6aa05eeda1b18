//! The record classifier: finds the metrics marker in a raw log line,
//! captures the JSON object after it, reads the discriminator and the
//! kind-specific fields, and produces a serialized envelope. Unparseable
//! lines yield nothing and are dropped, never an error.
//!
//! The payload grammar: fields in any order, whitespace allowed between
//! tokens, strings taken unescaped (a backslash or control character ends
//! the parse), numbers as plain decimals (no exponent form).
use vstd::prelude::*;

use crate::alarm_type::MetricsAlarmType;
use crate::alarm_wrapper::AlarmWrapper;
use crate::metainfos::MetaInfos;
use crate::records::{CounterUnit, FlowUnit, TimerUnit};
use crate::timestamp::TimeStamp;
use crate::text::{
    clean_run_end, clean_text, lemma_clean_run_end_shape, str_eq, str_to_chars,
};

verus! {

/// First position at or after `i` where the pattern stands, or the length
/// if it stands nowhere.
pub open spec fn find_sub_from(s: Seq<char>, pat: Seq<char>, i: int) -> int
    decreases s.len() - i,
{
    if i < 0 || i + pat.len() > s.len() {
        s.len() as int
    } else if pat.len() == 0 {
        i
    } else if s.subrange(i, i + pat.len()) == pat {
        i
    } else {
        find_sub_from(s, pat, i + 1)
    }
}

/// First position at or after `i` where the pattern stands, or the length.
pub fn find_sub(v: &Vec<char>, i: usize, pat: &str) -> (j: usize)
    requires
        i <= v@.len(),
    ensures
        j == find_sub_from(v@, pat@, i as int),
        i <= j <= v@.len(),
{
    let n: usize = pat.unicode_len();
    if n == 0 {
        return i;
    }
    let mut j: usize = i;
    loop
        invariant_except_break
            i <= j <= v@.len(),
            n == pat@.len(),
            n >= 1,
            find_sub_from(v@, pat@, j as int) == find_sub_from(v@, pat@, i as int),
        ensures
            j == find_sub_from(v@, pat@, i as int),
            i <= j <= v@.len(),
        decreases v@.len() - j,
    {
        if n > v.len() - j {
            proof {
                lemma_find_sub_high(v@, pat@, j as int);
            }
            j = v.len();
            break;
        }
        match crate::text::expect_lit(v, j, pat) {
            Some(_) => {
                break;
            },
            None => {
                j = j + 1;
            },
        }
    }
    j
}

/// A found pattern stands where the search says, whole.
pub proof fn lemma_find_sub_shape(s: Seq<char>, pat: Seq<char>, i: int)
    requires
        0 <= i <= s.len(),
    ensures
        find_sub_from(s, pat, i) == s.len() || (i <= find_sub_from(s, pat, i)
            && find_sub_from(s, pat, i) + pat.len() <= s.len() && s.subrange(
            find_sub_from(s, pat, i), find_sub_from(s, pat, i) + pat.len()) == pat),
    decreases s.len() - i,
{
    if i + pat.len() <= s.len() && pat.len() > 0 && s.subrange(i, i + pat.len()) != pat {
        lemma_find_sub_shape(s, pat, i + 1);
    } else if i + pat.len() <= s.len() && pat.len() == 0 {
        assert(s.subrange(i, i) =~= pat);
    }
}

/// Past the end, a pattern is never found.
proof fn lemma_find_sub_high(s: Seq<char>, pat: Seq<char>, i: int)
    requires
        0 <= i,
        i + pat.len() > s.len(),
    ensures
        find_sub_from(s, pat, i) == s.len(),
{
}

/// End of a JSON object scan: walks characters from `i` with the given
/// brace depth and string state, and yields the position after the brace
/// that closes the object, or one past the length when the object never
/// closes or a string holds a backslash.
pub open spec fn obj_end_from(s: Seq<char>, i: int, depth: int, in_str: bool) -> int
    decreases s.len() - i,
{
    if i < 0 || i >= s.len() {
        s.len() as int + 1
    } else if in_str {
        if s[i] == '"' {
            obj_end_from(s, i + 1, depth, false)
        } else if s[i] == '\\' {
            s.len() as int + 1
        } else {
            obj_end_from(s, i + 1, depth, true)
        }
    } else {
        if s[i] == '"' {
            obj_end_from(s, i + 1, depth, true)
        } else if s[i] == '{' {
            obj_end_from(s, i + 1, depth + 1, false)
        } else if s[i] == '}' {
            if depth <= 1 {
                i + 1
            } else {
                obj_end_from(s, i + 1, depth - 1, false)
            }
        } else {
            obj_end_from(s, i + 1, depth, false)
        }
    }
}

/// Position after the brace closing the object that starts at `i`, or
/// nothing when it never closes.
pub fn obj_scan(v: &Vec<char>, i: usize) -> (r: Option<usize>)
    requires
        i <= v@.len(),
    ensures
        r matches Some(j) ==> j == obj_end_from(v@, i as int, 0, false) && i < j
            <= v@.len(),
        r is None ==> obj_end_from(v@, i as int, 0, false) > v@.len(),
    {
    let mut j: usize = i;
    let mut depth: usize = 0;
    let mut in_str: bool = false;
    let mut ok: bool = true;
    loop
        invariant_except_break
            i <= j <= v@.len(),
            depth <= j,
            ok,
            obj_end_from(v@, j as int, depth as int, in_str) == obj_end_from(
                v@, i as int, 0, false),
        ensures
            ({
                let e = obj_end_from(v@, i as int, 0, false);
                (!ok ==> e > v@.len()) && (ok ==> j == e && i < j <= v@.len())
            }),
        decreases v@.len() - j,
    {
        if j == v.len() {
            proof {
                assert(obj_end_from(v@, j as int, depth as int, in_str) == v@.len() + 1);
            }
            ok = false;
            break;
        }
        let c: char = v[j];
        if in_str {
            if c == '"' {
                in_str = false;
            } else if c == '\\' {
                ok = false;
                break;
            }
        } else {
            if c == '"' {
                in_str = true;
            } else if c == '{' {
                depth = depth + 1;
            } else if c == '}' {
                if depth <= 1 {
                    j = j + 1;
                    break;
                } else {
                    depth = depth - 1;
                }
            }
        }
        j = j + 1;
    }
    if ok {
        Some(j)
    } else {
        None
    }
}

/// First position at or after `i` ending a plain token: a comma, a closing
/// brace, whitespace, or the length.
pub open spec fn plain_end(s: Seq<char>, i: int) -> int
    decreases s.len() - i,
{
    if i < 0 || i >= s.len() {
        s.len() as int
    } else if s[i] == ',' || s[i] == '}' || crate::text::is_ws_char(s[i]) {
        i
    } else {
        plain_end(s, i + 1)
    }
}

/// First position at or after `i` ending a plain token: a comma, a closing
/// brace, whitespace, or the length.
fn plain_scan(v: &Vec<char>, i: usize) -> (j: usize)
    requires
        i <= v@.len(),
    ensures
        j == plain_end(v@, i as int),
        i <= j <= v@.len(),
{
    let mut j: usize = i;
    while j < v.len() && v[j] != ',' && v[j] != '}' && v[j] != ' ' && v[j] != '\t'
        && v[j] != '\n' && v[j] != '\r'
        invariant
            i <= j <= v@.len(),
            plain_end(v@, j as int) == plain_end(v@, i as int),
        decreases v@.len() - j,
    {
        j = j + 1;
    }
    j
}

/// The extent of one JSON value starting at `jv`: whether it is a quoted
/// string, the value's first and last-plus-one positions, and the position
/// after the whole value (past the closing quote for strings).
pub open spec fn spec_value_extent(s: Seq<char>, jv: int) -> Option<(bool, int, int, int)> {
    if jv < 0 || jv >= s.len() {
        None
    } else if s[jv] == '"' {
        let je = clean_run_end(s, jv + 1);
        if je < s.len() && s[je] == '"' {
            Some((true, jv + 1, je, je + 1))
        } else {
            None
        }
    } else if s[jv] == '{' {
        let je = obj_end_from(s, jv, 0, false);
        if je <= s.len() {
            Some((false, jv, je, je))
        } else {
            None
        }
    } else {
        let je = plain_end(s, jv);
        if je > jv {
            Some((false, jv, je, je))
        } else {
            None
        }
    }
}

/// The value of the named key in the object fields starting at `i`:
/// whether the value was a quoted string, and the positions of its text.
/// Whitespace may stand between the tokens.
pub open spec fn spec_field_from(s: Seq<char>, i: int, key: Seq<char>) -> Option<
    (bool, int, int),
>
    decreases s.len() - i,
{
    if i < 0 {
        None
    } else {
        let ks = crate::text::ws_end(s, i);
        if ks >= s.len() || s[ks] != '"' {
            None
        } else {
            let ke = clean_run_end(s, ks + 1);
            if !(ke < s.len() && s[ke] == '"') {
                None
            } else {
                let co = crate::text::ws_end(s, ke + 1);
                if !(co < s.len() && s[co] == ':') {
                    None
                } else {
                    let jv = crate::text::ws_end(s, co + 1);
                    match spec_value_extent(s, jv) {
                        None => None,
                        Some((is_s, lo, hi, after)) => {
                            let sep = crate::text::ws_end(s, after);
                            if s.subrange(ks + 1, ke) == key {
                                Some((is_s, lo, hi))
                            } else if sep < s.len() && s[sep] == ',' && sep > i {
                                spec_field_from(s, sep + 1, key)
                            } else {
                                None
                            }
                        },
                    }
                }
            }
        }
    }
}

/// Reads the extent of one JSON value starting at `jv`.
fn value_extent(v: &Vec<char>, jv: usize) -> (r: Option<(bool, usize, usize, usize)>)
    requires
        jv <= v@.len(),
    ensures
        r is Some <==> spec_value_extent(v@, jv as int) is Some,
        r matches Some(p) ==> (spec_value_extent(v@, jv as int) matches Some(q)
            && p.0 == q.0 && p.1 == q.1 && p.2 == q.2 && p.3 == q.3
            && jv <= p.1 <= p.2 <= v@.len() && p.2 <= p.3 <= v@.len()),
{
    if jv == v.len() {
        return None;
    }
    let c: char = v[jv];
    if c == '"' {
        match crate::text::scan_string_at(v, jv + 1) {
            Some((_t, j)) => {
                proof {
                    lemma_clean_run_end_shape(v@, jv as int + 1);
                }
                Some((true, jv + 1, j - 1, j))
            },
            None => None,
        }
    } else if c == '{' {
        match obj_scan(v, jv) {
            Some(j) => Some((false, jv, j, j)),
            None => None,
        }
    } else {
        let je: usize = plain_scan(v, jv);
        if je > jv {
            Some((false, jv, je, je))
        } else {
            None
        }
    }
}

/// Looks up the named key among the object fields starting at `i`.
pub(crate) fn find_field(v: &Vec<char>, i: usize, key: &str) -> (r: Option<(bool, usize, usize)>)
    requires
        i <= v@.len(),
    ensures
        r is Some <==> spec_field_from(v@, i as int, key@) is Some,
        r matches Some(p) ==> (spec_field_from(v@, i as int, key@) matches Some(q)
            && p.0 == q.0 && p.1 == q.1 && p.2 == q.2 && p.1 <= p.2 <= v@.len()),
    decreases v@.len() - i,
{
    let ks: usize = crate::text::skip_ws(v, i);
    if ks == v.len() {
        return None;
    }
    if v[ks] != '"' {
        return None;
    }
    let (kstr, kafter): (String, usize) = match crate::text::scan_string_at(v, ks + 1) {
        Some(x) => x,
        None => {
            return None;
        },
    };
    proof {
        lemma_clean_run_end_shape(v@, ks as int + 1);
    }
    let ke: usize = kafter - 1;
    let co: usize = crate::text::skip_ws(v, ke + 1);
    if !(co < v.len() && v[co] == ':') {
        return None;
    }
    let jv: usize = crate::text::skip_ws(v, co + 1);
    let (is_s, lo, hi, after): (bool, usize, usize, usize) = match value_extent(v, jv) {
        Some(x) => x,
        None => {
            return None;
        },
    };
    let sep: usize = crate::text::skip_ws(v, after);
    if str_eq(kstr.as_str(), key) {
        proof {
            assert(v@.subrange(ks as int + 1, ke as int) == key@);
        }
        Some((is_s, lo, hi))
    } else {
        proof {
            assert(v@.subrange(ks as int + 1, ke as int) != key@);
        }
        if sep < v.len() && v[sep] == ',' && sep > i {
            find_field(v, sep + 1, key)
        } else {
            None
        }
    }
}

/// The characters of `v` between `i` and `j`, as their own vector.
pub fn sub_vec(v: &Vec<char>, i: usize, j: usize) -> (r: Vec<char>)
    requires
        i <= j <= v@.len(),
    ensures
        r@ == v@.subrange(i as int, j as int),
{
    let mut r: Vec<char> = Vec::new();
    let mut k: usize = i;
    proof {
        assert(r@ =~= v@.subrange(i as int, i as int));
    }
    while k < j
        invariant
            i <= k <= j <= v@.len(),
            r@ == v@.subrange(i as int, k as int),
        decreases j - k,
    {
        r.push(v[k]);
        k = k + 1;
        proof {
            assert(r@ =~= v@.subrange(i as int, k as int));
        }
    }
    r
}


/// A string field's text is clean: it was scanned as an unescaped run.
pub proof fn lemma_field_string_clean(s: Seq<char>, i: int, key: Seq<char>)
    ensures
        spec_field_from(s, i, key) matches Some((is_s, lo, hi)) ==> (is_s ==> clean_text(
            s.subrange(lo, hi))),
    decreases s.len() - i,
{
    if i >= 0 {
        let ks = crate::text::ws_end(s, i);
        if ks < s.len() && s[ks] == '"' {
            let ke = clean_run_end(s, ks + 1);
            if ke < s.len() && s[ke] == '"' {
                let co = crate::text::ws_end(s, ke + 1);
                if co < s.len() && s[co] == ':' {
                    let jv = crate::text::ws_end(s, co + 1);
                    match spec_value_extent(s, jv) {
                        None => {},
                        Some((is_s, lo, hi, after)) => {
                            let sep = crate::text::ws_end(s, after);
                            if s.subrange(ks + 1, ke) == key {
                                if is_s {
                                    lemma_clean_run_end_shape(s, lo);
                                    assert forall|k: int| 0 <= k < hi - lo implies
                                        crate::text::is_clean_char(#[trigger] s.subrange(
                                        lo, hi)[k]) by {
                                        assert(s.subrange(lo, hi)[k] == s[lo + k]);
                                    }
                                }
                            } else if sep < s.len() && s[sep] == ',' && sep > i {
                                lemma_field_string_clean(s, sep + 1, key);
                            }
                        },
                    }
                }
            }
        }
    }
}

/// The text of the named top-level field, when its value is a quoted
/// string.
pub open spec fn spec_str_field(s: Seq<char>, key: Seq<char>) -> Option<Seq<char>> {
    match spec_field_from(s, 1, key) {
        Some((is_s, lo, hi)) => if is_s {
            Some(s.subrange(lo, hi))
        } else {
            None
        },
        None => None,
    }
}

/// The positions of the named top-level field's value, when that value is
/// an object.
pub open spec fn spec_obj_field(s: Seq<char>, key: Seq<char>) -> Option<(int, int)> {
    match spec_field_from(s, 1, key) {
        Some((is_s, lo, hi)) => if !is_s && 0 <= lo < s.len() && s[lo] == '{' {
            Some((lo, hi))
        } else {
            None
        },
        None => None,
    }
}

/// The value of the named top-level field, when it is an unsigned number
/// covering the field exactly.
pub open spec fn spec_u64_field(s: Seq<char>, key: Seq<char>) -> Option<u64> {
    match spec_field_from(s, 1, key) {
        Some((is_s, lo, hi)) => if is_s {
            None
        } else {
            match crate::wire::spec_u64_at(s, lo) {
                Some((n, j)) => if j == hi {
                    Some(n)
                } else {
                    None
                },
                None => None,
            }
        },
        None => None,
    }
}

/// The value of the named top-level field, when it is a signed number
/// covering the field exactly.
pub open spec fn spec_i64_field(s: Seq<char>, key: Seq<char>) -> Option<i64> {
    match spec_field_from(s, 1, key) {
        Some((is_s, lo, hi)) => if is_s {
            None
        } else {
            match crate::wire::spec_i64_at(s, lo) {
                Some((n, j)) => if j == hi {
                    Some(n)
                } else {
                    None
                },
                None => None,
            }
        },
        None => None,
    }
}

/// The text of the named top-level field, when its value is a quoted
/// string holding exactly one decimal number.
pub open spec fn spec_numtext_field(s: Seq<char>, key: Seq<char>) -> Option<Seq<char>> {
    match spec_field_from(s, 1, key) {
        Some((is_s, lo, hi)) => if is_s {
            match crate::wire::spec_number_at(s, lo) {
                Some((t, e)) => if e == hi {
                    Some(t)
                } else {
                    None
                },
                None => None,
            }
        } else {
            None
        },
        None => None,
    }
}

/// The classified fields of a counter payload object: category, tag,
/// count, value.
pub open spec fn spec_counter_fields(s: Seq<char>) -> Option<(Seq<char>, Seq<char>, u64, i64)> {
    if s.len() == 0 || s[0] != '{' {
        None
    } else {
        match spec_str_field(s, "category"@) {
            None => None,
            Some(cat) => match spec_str_field(s, "tag"@) {
                None => None,
                Some(tag) => match spec_obj_field(s, "content"@) {
                    None => None,
                    Some((lo, hi)) => {
                        let c = s.subrange(lo, hi);
                        match spec_u64_field(c, "count"@) {
                            None => None,
                            Some(count) => match spec_i64_field(c, "value"@) {
                                None => None,
                                Some(value) => Some((cat, tag, count, value)),
                            },
                        }
                    },
                },
            },
        }
    }
}

/// The classified fields of a timer payload object: category, tag, count,
/// maximal, minimal and average times.
pub open spec fn spec_timer_fields(s: Seq<char>) -> Option<
    (Seq<char>, Seq<char>, u64, u64, u64, u64),
> {
    if s.len() == 0 || s[0] != '{' {
        None
    } else {
        match spec_str_field(s, "category"@) {
            None => None,
            Some(cat) => match spec_str_field(s, "tag"@) {
                None => None,
                Some(tag) => match spec_obj_field(s, "content"@) {
                    None => None,
                    Some((lo, hi)) => {
                        let c = s.subrange(lo, hi);
                        match spec_u64_field(c, "count"@) {
                            None => None,
                            Some(count) => match spec_u64_field(c, "max_time"@) {
                                None => None,
                                Some(mx) => match spec_u64_field(c, "min_time"@) {
                                    None => None,
                                    Some(mn) => match spec_u64_field(c, "avg_time"@) {
                                        None => None,
                                        Some(av) => Some((cat, tag, count, mx, mn, av)),
                                    },
                                },
                            },
                        }
                    },
                },
            },
        }
    }
}

/// The classified fields of a flow payload object: category, tag, count,
/// the flow aggregates, and the throughput text.
pub open spec fn spec_flow_fields(s: Seq<char>) -> Option<
    ((Seq<char>, Seq<char>, u64), (i64, i64, i64, i64, i64, Seq<char>)),
> {
    if s.len() == 0 || s[0] != '{' {
        None
    } else {
        match spec_str_field(s, "category"@) {
            None => None,
            Some(cat) => match spec_str_field(s, "tag"@) {
                None => None,
                Some(tag) => match spec_obj_field(s, "content"@) {
                    None => None,
                    Some((lo, hi)) => {
                        let c = s.subrange(lo, hi);
                        match spec_u64_field(c, "count"@) {
                            None => None,
                            Some(count) => match spec_i64_field(c, "max_flow"@) {
                                None => None,
                                Some(mx) => match spec_i64_field(c, "min_flow"@) {
                                    None => None,
                                    Some(mn) => match spec_i64_field(c, "sum_flow"@) {
                                        None => None,
                                        Some(sm) => match spec_i64_field(c, "avg_flow"@) {
                                            None => None,
                                            Some(av) => match spec_i64_field(
                                                c, "tps_flow"@) {
                                                None => None,
                                                Some(tf) => match spec_numtext_field(
                                                    c, "tps"@) {
                                                    None => None,
                                                    Some(tps) => Some((
                                                        (cat, tag, count),
                                                        (mx, mn, sm, av, tf, tps),
                                                    )),
                                                },
                                            },
                                        },
                                    },
                                },
                            },
                        }
                    },
                },
            },
        }
    }
}

/// Looks up a string-valued field and returns its text.
fn get_str_field(v: &Vec<char>, key: &str) -> (r: Option<String>)
    ensures
        r is Some <==> spec_str_field(v@, key@) is Some,
        r matches Some(t) ==> (spec_str_field(v@, key@) matches Some(q) && t@ == q
            && clean_text(t@)),
{
    proof {
        lemma_field_string_clean(v@, 1, key@);
    }
    if v.len() == 0 {
        return None;
    }
    match find_field(v, 1, key) {
        Some((is_s, lo, hi)) => {
            if is_s {
                Some(crate::text::copy_range(v, lo, hi))
            } else {
                None
            }
        },
        None => None,
    }
}

/// Looks up an unsigned-number field and returns its value.
fn get_u64_field(v: &Vec<char>, key: &str) -> (r: Option<u64>)
    ensures
        r == spec_u64_field(v@, key@),
{
    if v.len() == 0 {
        return None;
    }
    match find_field(v, 1, key) {
        Some((is_s, lo, hi)) => {
            if is_s {
                return None;
            }
            match crate::text::parse_u64_at(v, lo) {
                Some((n, j)) => {
                    if j == hi {
                        Some(n)
                    } else {
                        None
                    }
                },
                None => None,
            }
        },
        None => None,
    }
}

/// Looks up a signed-number field and returns its value.
fn get_i64_field(v: &Vec<char>, key: &str) -> (r: Option<i64>)
    ensures
        r == spec_i64_field(v@, key@),
{
    if v.len() == 0 {
        return None;
    }
    match find_field(v, 1, key) {
        Some((is_s, lo, hi)) => {
            if is_s {
                return None;
            }
            match crate::text::parse_i64_at(v, lo) {
                Some((n, j)) => {
                    if j == hi {
                        Some(n)
                    } else {
                        None
                    }
                },
                None => None,
            }
        },
        None => None,
    }
}

/// Looks up a string field holding one decimal number and returns its text.
fn get_numtext_field(v: &Vec<char>, key: &str) -> (r: Option<String>)
    ensures
        r is Some <==> spec_numtext_field(v@, key@) is Some,
        r matches Some(t) ==> (spec_numtext_field(v@, key@) matches Some(q) && t@ == q
            && crate::text::wf_number_text(t@)),
{
    if v.len() == 0 {
        return None;
    }
    match find_field(v, 1, key) {
        Some((is_s, lo, hi)) => {
            if !is_s {
                return None;
            }
            match crate::text::scan_number_at(v, lo) {
                Some((t, e)) => {
                    if e == hi {
                        Some(t)
                    } else {
                        None
                    }
                },
                None => None,
            }
        },
        None => None,
    }
}

/// Looks up an object-valued field and returns its characters.
fn get_obj_field(v: &Vec<char>, key: &str) -> (r: Option<Vec<char>>)
    ensures
        r is Some <==> spec_obj_field(v@, key@) is Some,
        r matches Some(c) ==> (spec_obj_field(v@, key@) matches Some(q) && c@
            == v@.subrange(q.0, q.1)),
{
    if v.len() == 0 {
        return None;
    }
    match find_field(v, 1, key) {
        Some((is_s, lo, hi)) => {
            if is_s {
                return None;
            }
            if !(lo < v.len() && v[lo] == '{') {
                return None;
            }
            Some(sub_vec(v, lo, hi))
        },
        None => None,
    }
}


impl CounterUnit {
    /// Classifies a counter payload object: pulls the category, tag and
    /// numeric fields, stamps the given time and the agent's own address,
    /// and wraps the record for the agent's tenant. Returns nothing
    /// exactly when a required field is missing or malformed.
    pub fn handle_log(payload: &str, meta: &MetaInfos, now: u32) -> (r: Option<
        AlarmWrapper<CounterUnit>>)
        ensures
            r is Some <==> spec_counter_fields(payload@) is Some,
            r matches Some(w) ==> (spec_counter_fields(payload@) matches Some(f) && ({
                &&& w.alarm_type == MetricsAlarmType::Counter
                &&& w.env@ == meta.env_name@
                &&& w.content.spec_ts() == now
                &&& w.content.spec_ip().spec_ip() == meta.node_ip_port.spec_ip()
                &&& w.content.spec_ip().spec_port() == meta.node_ip_port.spec_port()
                &&& w.content.spec_category() == f.0
                &&& w.content.spec_tag() == f.1
                &&& w.content.spec_count() == f.2
                &&& w.content.spec_value() == f.3
                &&& (meta.wf() ==> crate::wire::wf_counter_env(w))
            })),
    {
        let v: Vec<char> = str_to_chars(payload);
        if v.len() == 0 {
            return None;
        }
        if v[0] != '{' {
            return None;
        }
        let cat: String = match get_str_field(&v, "category") {
            Some(x) => x,
            None => {
                return None;
            },
        };
        let tag: String = match get_str_field(&v, "tag") {
            Some(x) => x,
            None => {
                return None;
            },
        };
        let cv: Vec<char> = match get_obj_field(&v, "content") {
            Some(x) => x,
            None => {
                return None;
            },
        };
        let count: u64 = match get_u64_field(&cv, "count") {
            Some(x) => x,
            None => {
                return None;
            },
        };
        let value: i64 = match get_i64_field(&cv, "value") {
            Some(x) => x,
            None => {
                return None;
            },
        };
        let w: AlarmWrapper<CounterUnit> = AlarmWrapper {
            alarm_type: MetricsAlarmType::Counter,
            env: meta.env_name.clone(),
            content: CounterUnit::assemble(
                TimeStamp::new(now),
                meta.node_ip_port.duplicate(),
                cat,
                tag,
                count,
                value,
            ),
        };
        Some(w)
    }
}

impl TimerUnit {
    /// Classifies a timer payload object, as `CounterUnit::handle_log`
    /// does for counters.
    pub fn handle_log(payload: &str, meta: &MetaInfos, now: u32) -> (r: Option<
        AlarmWrapper<TimerUnit>>)
        ensures
            r is Some <==> spec_timer_fields(payload@) is Some,
            r matches Some(w) ==> (spec_timer_fields(payload@) matches Some(f) && ({
                &&& w.alarm_type == MetricsAlarmType::Timer
                &&& w.env@ == meta.env_name@
                &&& w.content.spec_ts() == now
                &&& w.content.spec_ip().spec_ip() == meta.node_ip_port.spec_ip()
                &&& w.content.spec_ip().spec_port() == meta.node_ip_port.spec_port()
                &&& w.content.spec_category() == f.0
                &&& w.content.spec_tag() == f.1
                &&& w.content.spec_count() == f.2
                &&& w.content.spec_max() == f.3
                &&& w.content.spec_min() == f.4
                &&& w.content.spec_avg() == f.5
                &&& (meta.wf() ==> crate::wire::wf_timer_env(w))
            })),
    {
        let v: Vec<char> = str_to_chars(payload);
        if v.len() == 0 {
            return None;
        }
        if v[0] != '{' {
            return None;
        }
        let cat: String = match get_str_field(&v, "category") {
            Some(x) => x,
            None => {
                return None;
            },
        };
        let tag: String = match get_str_field(&v, "tag") {
            Some(x) => x,
            None => {
                return None;
            },
        };
        let cv: Vec<char> = match get_obj_field(&v, "content") {
            Some(x) => x,
            None => {
                return None;
            },
        };
        let count: u64 = match get_u64_field(&cv, "count") {
            Some(x) => x,
            None => {
                return None;
            },
        };
        let mx: u64 = match get_u64_field(&cv, "max_time") {
            Some(x) => x,
            None => {
                return None;
            },
        };
        let mn: u64 = match get_u64_field(&cv, "min_time") {
            Some(x) => x,
            None => {
                return None;
            },
        };
        let av: u64 = match get_u64_field(&cv, "avg_time") {
            Some(x) => x,
            None => {
                return None;
            },
        };
        let w: AlarmWrapper<TimerUnit> = AlarmWrapper {
            alarm_type: MetricsAlarmType::Timer,
            env: meta.env_name.clone(),
            content: TimerUnit::assemble(
                TimeStamp::new(now),
                meta.node_ip_port.duplicate(),
                cat,
                tag,
                count,
                mx,
                mn,
                av,
            ),
        };
        Some(w)
    }
}

impl FlowUnit {
    /// Classifies a flow payload object, as `CounterUnit::handle_log` does
    /// for counters; the throughput is taken from a quoted decimal text.
    pub fn handle_log(payload: &str, meta: &MetaInfos, now: u32) -> (r: Option<
        AlarmWrapper<FlowUnit>>)
        ensures
            r is Some <==> spec_flow_fields(payload@) is Some,
            r matches Some(w) ==> (spec_flow_fields(payload@) matches Some(f) && ({
                &&& w.alarm_type == MetricsAlarmType::Flow
                &&& w.env@ == meta.env_name@
                &&& w.content.spec_ts() == now
                &&& w.content.spec_ip().spec_ip() == meta.node_ip_port.spec_ip()
                &&& w.content.spec_ip().spec_port() == meta.node_ip_port.spec_port()
                &&& w.content.spec_category() == f.0.0
                &&& w.content.spec_tag() == f.0.1
                &&& w.content.spec_count() == f.0.2
                &&& w.content.spec_max() == f.1.0
                &&& w.content.spec_min() == f.1.1
                &&& w.content.spec_sum() == f.1.2
                &&& w.content.spec_avg() == f.1.3
                &&& w.content.spec_tps_flow() == f.1.4
                &&& w.content.spec_tps() == f.1.5
                &&& (meta.wf() ==> crate::wire::wf_flow_env(w))
            })),
    {
        let v: Vec<char> = str_to_chars(payload);
        if v.len() == 0 {
            return None;
        }
        if v[0] != '{' {
            return None;
        }
        let cat: String = match get_str_field(&v, "category") {
            Some(x) => x,
            None => {
                return None;
            },
        };
        let tag: String = match get_str_field(&v, "tag") {
            Some(x) => x,
            None => {
                return None;
            },
        };
        let cv: Vec<char> = match get_obj_field(&v, "content") {
            Some(x) => x,
            None => {
                return None;
            },
        };
        let count: u64 = match get_u64_field(&cv, "count") {
            Some(x) => x,
            None => {
                return None;
            },
        };
        let mx: i64 = match get_i64_field(&cv, "max_flow") {
            Some(x) => x,
            None => {
                return None;
            },
        };
        let mn: i64 = match get_i64_field(&cv, "min_flow") {
            Some(x) => x,
            None => {
                return None;
            },
        };
        let sm: i64 = match get_i64_field(&cv, "sum_flow") {
            Some(x) => x,
            None => {
                return None;
            },
        };
        let av: i64 = match get_i64_field(&cv, "avg_flow") {
            Some(x) => x,
            None => {
                return None;
            },
        };
        let tf: i64 = match get_i64_field(&cv, "tps_flow") {
            Some(x) => x,
            None => {
                return None;
            },
        };
        let tps: String = match get_numtext_field(&cv, "tps") {
            Some(x) => x,
            None => {
                return None;
            },
        };
        let w: AlarmWrapper<FlowUnit> = AlarmWrapper {
            alarm_type: MetricsAlarmType::Flow,
            env: meta.env_name.clone(),
            content: FlowUnit::assemble(
                TimeStamp::new(now),
                meta.node_ip_port.duplicate(),
                cat,
                tag,
                count,
                mx,
                mn,
                sm,
                av,
                tf,
                tps,
            ),
        };
        Some(w)
    }
}

/// The payload object embedded in a raw line: the balanced JSON object
/// standing right after the first metrics marker.
pub open spec fn spec_payload_of(line: Seq<char>) -> Option<Seq<char>> {
    let m = find_sub_from(line, "[metrics]"@, 0);
    if m == line.len() {
        None
    } else {
        let ost = m + "[metrics]"@.len();
        if ost < line.len() && line[ost] == '{' {
            let oe = obj_end_from(line, ost, 0, false);
            if oe <= line.len() {
                Some(line.subrange(ost, oe))
            } else {
                None
            }
        } else {
            None
        }
    }
}

/// A raw line classifies into a record: it carries a payload whose `type`
/// field names a live kind and whose fields fit that kind.
pub open spec fn spec_classifies(line: Seq<char>) -> bool {
    match spec_payload_of(line) {
        None => false,
        Some(p) => match spec_str_field(p, "type"@) {
            None => false,
            Some(ty) => {
                if ty == "counter"@ {
                    spec_counter_fields(p) is Some
                } else if ty == "timer"@ {
                    spec_timer_fields(p) is Some
                } else if ty == "flow"@ {
                    spec_flow_fields(p) is Some
                } else {
                    false
                }
            },
        },
    }
}

/// The agent's classifying side: holds the monitored file's path, the
/// tenant name, and the resolved metadata stamped into every record.
#[derive(Debug)]
pub struct LogHandler {
    pub log_path: String,
    pub env_name: String,
    pub meta: MetaInfos,
}

impl LogHandler {
    /// Builds the handler from its parts.
    pub fn new(log_path: String, env_name: String, meta: MetaInfos) -> (r: LogHandler)
        ensures
            r.log_path@ == log_path@,
            r.env_name@ == env_name@,
            r.meta == meta,
    {
        LogHandler { log_path, env_name, meta }
    }

    /// Classifies one raw line: finds the metrics marker, captures the
    /// payload object, dispatches on its `type` field, and returns the
    /// wire text of the resulting envelope. Returns nothing exactly when
    /// the line does not classify; the returned text parses back to the
    /// classified fields.
    pub fn handler_metrics(&self, log: String, now: u32) -> (r: Option<String>)
        ensures
            r is Some <==> spec_classifies(log@),
            r matches Some(out) ==> (self.meta.wf() ==> (spec_payload_of(log@) matches
                Some(p) && spec_str_field(p, "type"@) matches Some(ty) && ({
                &&& ty == "counter"@ ==> (spec_counter_fields(p) matches Some(f)
                    && crate::wire::spec_from_wire_counter_env(out@) matches Some(t)
                    && t.0 == self.meta.env_name@ && t.1.0 == now
                    && t.1.1 == self.meta.node_ip_port.spec_ip()
                    && t.1.2 == self.meta.node_ip_port.spec_port()
                    && t.1.3 == f.0 && t.1.4 == f.1 && t.1.5 == f.2 && t.1.6 == f.3)
                &&& ty == "timer"@ ==> (spec_timer_fields(p) matches Some(f)
                    && crate::wire::spec_from_wire_timer_env(out@) matches Some(t)
                    && t.0 == self.meta.env_name@ && t.1.0.0 == now
                    && t.1.0.1 == self.meta.node_ip_port.spec_ip()
                    && t.1.0.2 == self.meta.node_ip_port.spec_port()
                    && t.1.0.3 == f.0 && t.1.0.4 == f.1 && t.1.1.0 == f.2
                    && t.1.1.1 == f.3 && t.1.1.2 == f.4 && t.1.1.3 == f.5)
                &&& ty == "flow"@ ==> (spec_flow_fields(p) matches Some(f)
                    && crate::wire::spec_from_wire_flow_env(out@) matches Some(t)
                    && t.0 == self.meta.env_name@ && t.1.0.0 == now
                    && t.1.0.1 == self.meta.node_ip_port.spec_ip()
                    && t.1.0.2 == self.meta.node_ip_port.spec_port()
                    && t.1.0.3 == f.0.0 && t.1.0.4 == f.0.1 && t.1.1.0 == f.0.2
                    && t.1.1.1 == f.1.0 && t.1.1.2 == f.1.1 && t.1.1.3 == f.1.2
                    && t.1.1.4 == f.1.3 && t.1.1.5 == f.1.4 && t.1.1.6 == f.1.5)
            }))),
    {
        let v: Vec<char> = str_to_chars(log.as_str());
        let m: usize = find_sub(&v, 0, "[metrics]");
        if m == v.len() {
            return None;
        }
        proof {
            reveal_strlit("[metrics]");
            assert("[metrics]"@.len() == 9);
            lemma_find_sub_shape(v@, "[metrics]"@, 0);
        }
        let ost: usize = m + 9;
        if !(ost < v.len()) {
            return None;
        }
        if v[ost] != '{' {
            return None;
        }
        let oe: usize = match obj_scan(&v, ost) {
            Some(x) => x,
            None => {
                return None;
            },
        };
        let pv: Vec<char> = sub_vec(&v, ost, oe);
        let ty: String = match get_str_field(&pv, "type") {
            Some(x) => x,
            None => {
                return None;
            },
        };
        let payload: String = crate::text::chars_to_string(&pv);
        proof {
            reveal_strlit("counter");
            reveal_strlit("timer");
            reveal_strlit("flow");
            assert("counter"@.len() == 7);
            assert("timer"@.len() == 5);
            assert("flow"@.len() == 4);
        }
        match MetricsAlarmType::from_str(ty.as_str()) {
            Ok(MetricsAlarmType::Counter) => {
                match CounterUnit::handle_log(payload.as_str(), &self.meta, now) {
                    Some(w) => {
                        let out: String = w.to_wire();
                        proof {
                            if self.meta.wf() {
                                crate::wire::lemma_counter_env_wire_round_trip(w);
                            }
                        }
                        Some(out)
                    },
                    None => None,
                }
            },
            Ok(MetricsAlarmType::Timer) => {
                match TimerUnit::handle_log(payload.as_str(), &self.meta, now) {
                    Some(w) => {
                        let out: String = w.to_wire();
                        proof {
                            if self.meta.wf() {
                                crate::wire::lemma_timer_env_wire_round_trip(w);
                            }
                        }
                        Some(out)
                    },
                    None => None,
                }
            },
            Ok(MetricsAlarmType::Flow) => {
                match FlowUnit::handle_log(payload.as_str(), &self.meta, now) {
                    Some(w) => {
                        let out: String = w.to_wire();
                        proof {
                            if self.meta.wf() {
                                crate::wire::lemma_flow_env_wire_round_trip(w);
                            }
                        }
                        Some(out)
                    },
                    None => None,
                }
            },
            Ok(MetricsAlarmType::Invalid) => None,
            Err(_) => None,
        }
    }
}

} // verus!
