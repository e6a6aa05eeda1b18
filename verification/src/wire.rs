//! The wire forms of the metric records and their envelopes: a fixed JSON
//! shape with the fields in declaration order, timestamps and addresses as
//! quoted strings, numbers bare. Serialization is exact, and parsing is
//! proved to recover every well-formed record from its own wire text.
use vstd::prelude::*;

use crate::alarm_type::MetricsAlarmType;
use crate::alarm_wrapper::AlarmWrapper;
use crate::ipaddress::{wf_ip_port_text, IpAddress};
use crate::records::{CounterUnit, FlowUnit, TimerUnit};
use crate::text::{
    clean_run_end, clean_text, dec_seq, dec_seq_i64, dec_val, digit_run_end, find_char_from,
    is_clean_char, is_digit_char, lemma_clean_run_end_exact, lemma_dec_seq_digits,
    lemma_dec_val_of_dec_seq, lemma_digit_run_end_exact, parse_i64_at, parse_u64_at,
    scan_number_at, scan_string_at, signed_start, str_to_chars, u64_to_string,
    i64_to_string, expect_lit, number_end, wf_number_text,
};
use crate::timestamp::TimeStamp;

verus! {

/// The literal matches at `i`; yields the position after it.
pub open spec fn spec_lit_at(s: Seq<char>, i: int, lit: Seq<char>) -> Option<int> {
    if i + lit.len() <= s.len() && s.subrange(i, i + lit.len()) == lit {
        Some(i + lit.len())
    } else {
        None
    }
}

/// A digit run at `i` whose value fits 64 bits; yields value and position
/// after it.
pub open spec fn spec_u64_at(s: Seq<char>, i: int) -> Option<(u64, int)> {
    let j = digit_run_end(s, i);
    if j > i && dec_val(s.subrange(i, j)) <= u64::MAX {
        Some((dec_val(s.subrange(i, j)) as u64, j))
    } else {
        None
    }
}

/// A possibly minus-signed digit run at `i` whose value fits a signed
/// 64-bit number; yields value and position after it.
pub open spec fn spec_i64_at(s: Seq<char>, i: int) -> Option<(i64, int)> {
    let st = signed_start(s, i);
    let j = digit_run_end(s, st);
    let mag = dec_val(s.subrange(st, j));
    let bound: nat = if st > i {
        i64::MAX as nat + 1
    } else {
        i64::MAX as nat
    };
    if j > st && mag <= bound {
        Some(((if st > i {
            -(mag as int)
        } else {
            mag as int
        }) as i64, j))
    } else {
        None
    }
}

/// A clean string run at `i` closed by a double quote; yields its text and
/// the position after the quote.
pub open spec fn spec_str_at(s: Seq<char>, i: int) -> Option<(Seq<char>, int)> {
    let j = clean_run_end(s, i);
    if j < s.len() && s[j] == '"' {
        Some((s.subrange(i, j), j + 1))
    } else {
        None
    }
}

/// A quoted `ip:port` text at `i`; yields address text, port, and the
/// position after the closing quote.
pub open spec fn spec_ip_at(s: Seq<char>, i: int) -> Option<(Seq<char>, u64, int)> {
    match spec_str_at(s, i) {
        None => None,
        Some((t, j)) => {
            if wf_ip_port_text(t) {
                let c = find_char_from(t, 0, ':');
                Some((t.subrange(0, c), dec_val(t.subrange(c + 1, t.len() as int)) as u64, j))
            } else {
                None
            }
        },
    }
}

/// A decimal number text at `i`: optional minus sign, digits, optional
/// fraction; yields its text and the position after it.
pub open spec fn spec_number_at(s: Seq<char>, i: int) -> Option<(Seq<char>, int)> {
    if digit_run_end(s, signed_start(s, i)) > signed_start(s, i) {
        Some((s.subrange(i, number_end(s, i)), number_end(s, i)))
    } else {
        None
    }
}

/// A well-formed number text standing at `p`, followed by nothing that
/// could extend it, scans back to itself.
proof fn lemma_spec_number_embed(s: Seq<char>, p: int, t: Seq<char>)
    requires
        0 <= p,
        p + t.len() <= s.len(),
        s.subrange(p, p + t.len()) == t,
        wf_number_text(t),
        p + t.len() < s.len() ==> !is_digit_char(s[p + t.len()]) && s[p + t.len()] != '.',
    ensures
        spec_number_at(s, p) == Some((t, p + t.len())),
{
    crate::text::lemma_number_end_embed(s, p, t);
}

/// Subranges of a concatenation: those within the left part and the one
/// covering the right part.
pub proof fn lemma_concat_parts(a: Seq<char>, b: Seq<char>)
    ensures
        forall|x: int, y: int|
            0 <= x <= y <= a.len() ==> #[trigger] (a + b).subrange(x, y) == a.subrange(x, y),
        (a + b).subrange(a.len() as int, (a.len() + b.len()) as int) == b,
        (a + b).len() == a.len() + b.len(),
{
    assert forall|x: int, y: int| 0 <= x <= y <= a.len() implies #[trigger] (a + b).subrange(
        x, y) == a.subrange(x, y) by {
        assert((a + b).subrange(x, y) =~= a.subrange(x, y));
    }
    assert((a + b).subrange(a.len() as int, (a.len() + b.len()) as int) =~= b);
}

/// A literal standing at `p` is found there.
proof fn lemma_spec_lit_embed(s: Seq<char>, p: int, lit: Seq<char>)
    requires
        0 <= p,
        p + lit.len() <= s.len(),
        s.subrange(p, p + lit.len()) == lit,
    ensures
        spec_lit_at(s, p, lit) == Some(p + lit.len()),
{
}

/// The canonical digits of `n` standing at `p`, not followed by another
/// digit, parse back to `n`.
proof fn lemma_spec_u64_embed(s: Seq<char>, p: int, n: u64)
    requires
        0 <= p,
        p + dec_seq(n as nat).len() <= s.len(),
        s.subrange(p, p + dec_seq(n as nat).len()) == dec_seq(n as nat),
        p + dec_seq(n as nat).len() < s.len() ==> !is_digit_char(
            s[p + dec_seq(n as nat).len()]),
    ensures
        spec_u64_at(s, p) == Some((n, p + dec_seq(n as nat).len())),
{
    let d = dec_seq(n as nat);
    lemma_dec_seq_digits(n as nat);
    lemma_dec_val_of_dec_seq(n as nat);
    assert forall|k: int| p <= k < p + d.len() implies is_digit_char(#[trigger] s[k]) by {
        assert(s[k] == s.subrange(p, p + d.len())[k - p]);
    }
    lemma_digit_run_end_exact(s, p, p + d.len());
}

/// The canonical signed digits of `x` standing at `p`, not followed by
/// another digit, parse back to `x`.
proof fn lemma_spec_i64_embed(s: Seq<char>, p: int, x: i64)
    requires
        0 <= p,
        p + dec_seq_i64(x as int).len() <= s.len(),
        s.subrange(p, p + dec_seq_i64(x as int).len()) == dec_seq_i64(x as int),
        p + dec_seq_i64(x as int).len() < s.len() ==> !is_digit_char(
            s[p + dec_seq_i64(x as int).len()]),
    ensures
        spec_i64_at(s, p) == Some((x, p + dec_seq_i64(x as int).len())),
{
    let d = dec_seq_i64(x as int);
    assert forall|k: int| p <= k < p + d.len() implies #[trigger] s[k] == d[k - p] by {
        assert(s[k] == s.subrange(p, p + d.len())[k - p]);
    }
    if x < 0 {
        let m = (-(x as int)) as nat;
        lemma_dec_seq_digits(m);
        lemma_dec_val_of_dec_seq(m);
        assert(d == seq!['-'] + dec_seq(m));
        assert(d[0] == '-');
        assert(s[p] == '-');
        assert(signed_start(s, p) == p + 1);
        assert forall|k: int| p + 1 <= k < p + d.len() implies is_digit_char(
            #[trigger] s[k]) by {
            assert(s[k] == d[k - p]);
            assert(d[k - p] == dec_seq(m)[k - p - 1]);
        }
        lemma_digit_run_end_exact(s, p + 1, p + d.len());
        assert forall|k: int| 0 <= k < d.len() - 1 implies s.subrange(p + 1, p
            + d.len())[k] == dec_seq(m)[k] by {
            assert(s[p + 1 + k] == d[k + 1]);
            assert(d[k + 1] == dec_seq(m)[k]);
        }
        assert(s.subrange(p + 1, p + d.len()) =~= dec_seq(m));
    } else {
        let m = x as nat;
        lemma_dec_seq_digits(m);
        lemma_dec_val_of_dec_seq(m);
        assert(d == dec_seq(m));
        assert(is_digit_char(s[p]));
        assert(s[p] != '-');
        assert(signed_start(s, p) == p);
        assert forall|k: int| p <= k < p + d.len() implies is_digit_char(
            #[trigger] s[k]) by {
            assert(s[k] == d[k - p]);
        }
        lemma_digit_run_end_exact(s, p, p + d.len());
        assert forall|k: int| 0 <= k < d.len() implies s.subrange(p, p + d.len())[k]
            == dec_seq(m)[k] by {
            assert(s[p + k] == d[k]);
        }
        assert(s.subrange(p, p + d.len()) =~= dec_seq(m));
    }
}

/// A clean text standing at `p`, closed by a double quote, scans back to
/// itself.
proof fn lemma_spec_str_embed(s: Seq<char>, p: int, t: Seq<char>)
    requires
        0 <= p,
        p + t.len() + 1 <= s.len(),
        s.subrange(p, p + t.len()) == t,
        clean_text(t),
        s[p + t.len()] == '"',
    ensures
        spec_str_at(s, p) == Some((t, p + t.len() + 1)),
{
    assert forall|k: int| p <= k < p + t.len() implies is_clean_char(#[trigger] s[k]) by {
        assert(s[k] == s.subrange(p, p + t.len())[k - p]);
    }
    assert(!is_clean_char(s[p + t.len()]));
    lemma_clean_run_end_exact(s, p, p + t.len());
}

/// The quoted text of a well-formed address standing at `p` parses back to
/// its address part and port.
proof fn lemma_spec_ip_embed(s: Seq<char>, p: int, a: IpAddress)
    requires
        0 <= p,
        p + a.spec_text().len() + 1 <= s.len(),
        s.subrange(p, p + a.spec_text().len()) == a.spec_text(),
        s[p + a.spec_text().len()] == '"',
        a.wf(),
    ensures
        spec_ip_at(s, p) == Some((a.spec_ip(), a.spec_port(), p + a.spec_text().len() + 1)),
{
    crate::ipaddress::lemma_ip_text_parses(a);
    lemma_spec_str_embed(s, p, a.spec_text());
}

/// The wire text of a counter record.
pub open spec fn spec_ser_counter(u: CounterUnit) -> Seq<char> {
    "{\"send_timestamp\":\""@ + dec_seq(u.spec_ts() as nat) + "\",\"public_ip\":\""@
        + u.spec_ip().spec_text() + seq!['"'] + ",\"category\":\""@ + u.spec_category()
        + seq!['"'] + ",\"tag\":\""@ + u.spec_tag() + seq!['"'] + ",\"count\":"@ + dec_seq(
        u.spec_count() as nat) + ",\"value\":"@ + dec_seq_i64(u.spec_value() as int) + "}"@
}

/// The parsed fields of a counter record's wire text: timestamp, address
/// text, port, category, tag, count, value.
pub open spec fn spec_parse_counter_at(s: Seq<char>, i: int) -> Option<
    ((u32, Seq<char>, u64, Seq<char>, Seq<char>, u64, i64), int),
> {
    match spec_lit_at(s, i, "{\"send_timestamp\":\""@) {
        None => None,
        Some(i1) => match spec_u64_at(s, i1) {
            None => None,
            Some((ts, i2)) => if ts > u32::MAX {
                None
            } else {
                match spec_lit_at(s, i2, "\",\"public_ip\":\""@) {
                    None => None,
                    Some(i3) => match spec_ip_at(s, i3) {
                        None => None,
                        Some((ipt, port, i4)) => match spec_lit_at(
                            s, i4, ",\"category\":\""@) {
                            None => None,
                            Some(i5) => match spec_str_at(s, i5) {
                                None => None,
                                Some((cat, i6)) => match spec_lit_at(s, i6, ",\"tag\":\""@) {
                                    None => None,
                                    Some(i7) => match spec_str_at(s, i7) {
                                        None => None,
                                        Some((tag, i8)) => match spec_lit_at(
                                            s, i8, ",\"count\":"@) {
                                            None => None,
                                            Some(i9) => match spec_u64_at(s, i9) {
                                                None => None,
                                                Some((count, i10)) => match spec_lit_at(
                                                    s, i10, ",\"value\":"@) {
                                                    None => None,
                                                    Some(i11) => match spec_i64_at(s, i11) {
                                                        None => None,
                                                        Some((value, i12)) => match spec_lit_at(
                                                            s, i12, "}"@) {
                                                            None => None,
                                                            Some(i13) => Some((
                                                                (ts as u32, ipt, port, cat,
                                                                tag, count, value),
                                                                i13,
                                                            )),
                                                        },
                                                    },
                                                },
                                            },
                                        },
                                    },
                                },
                            },
                        },
                    },
                }
            },
        },
    }
}

/// The parsed fields of a whole counter wire text: the parse must consume
/// everything.
pub open spec fn spec_from_wire_counter(s: Seq<char>) -> Option<
    (u32, Seq<char>, u64, Seq<char>, Seq<char>, u64, i64),
> {
    match spec_parse_counter_at(s, 0) {
        Some((t, j)) => if j == s.len() {
            Some(t)
        } else {
            None
        },
        None => None,
    }
}

/// The two counter records hold the same fields.
pub open spec fn counter_eq(a: CounterUnit, b: CounterUnit) -> bool {
    &&& a.spec_ts() == b.spec_ts()
    &&& a.spec_ip().spec_ip() == b.spec_ip().spec_ip()
    &&& a.spec_ip().spec_port() == b.spec_ip().spec_port()
    &&& a.spec_category() == b.spec_category()
    &&& a.spec_tag() == b.spec_tag()
    &&& a.spec_count() == b.spec_count()
    &&& a.spec_value() == b.spec_value()
}

/// A counter record's fields match the parsed tuple.
pub open spec fn counter_matches(
    u: CounterUnit,
    t: (u32, Seq<char>, u64, Seq<char>, Seq<char>, u64, i64),
) -> bool {
    &&& u.spec_ts() == t.0
    &&& u.spec_ip().spec_ip() == t.1
    &&& u.spec_ip().spec_port() == t.2
    &&& u.spec_category() == t.3
    &&& u.spec_tag() == t.4
    &&& u.spec_count() == t.5
    &&& u.spec_value() == t.6
}

/// A subrange fact carries over from a known window of a larger text.
proof fn lemma_transfer_piece(s: Seq<char>, p: int, w: Seq<char>, x: int, y: int, piece: Seq<char>)
    requires
        0 <= p,
        p + w.len() <= s.len(),
        s.subrange(p, p + w.len()) == w,
        0 <= x <= y <= w.len(),
        w.subrange(x, y) == piece,
    ensures
        s.subrange(p + x, p + y) == piece,
{
    assert forall|m: int| 0 <= m < y - x implies s.subrange(p + x, p + y)[m]
        == piece[m] by {
        assert(s.subrange(p, p + w.len())[x + m] == w[x + m]);
        assert(w.subrange(x, y)[m] == w[x + m]);
    }
    assert(s.subrange(p + x, p + y) =~= piece);
}

/// The wire text of a well-formed counter record, standing anywhere inside
/// a larger text, parses back to the record's own fields.
#[verifier::rlimit(100)]
#[verifier::spinoff_prover]
pub proof fn lemma_counter_ser_embed(s: Seq<char>, p: int, u: CounterUnit)
    requires
        u.wf(),
        0 <= p,
        p + spec_ser_counter(u).len() <= s.len(),
        s.subrange(p, p + spec_ser_counter(u).len()) == spec_ser_counter(u),
    ensures
        spec_parse_counter_at(s, p) matches Some((t, j)) && j == p + spec_ser_counter(
            u).len() && counter_matches(u, t),
{
    let l1 = "{\"send_timestamp\":\""@;
    let l2 = "\",\"public_ip\":\""@;
    let l3 = ",\"category\":\""@;
    let l4 = ",\"tag\":\""@;
    let l5 = ",\"count\":"@;
    let l6 = ",\"value\":"@;
    let l7 = "}"@;
    let q = seq!['"'];
    reveal_strlit("{\"send_timestamp\":\"");
    reveal_strlit("\",\"public_ip\":\"");
    reveal_strlit(",\"category\":\"");
    reveal_strlit(",\"tag\":\"");
    reveal_strlit(",\"count\":");
    reveal_strlit(",\"value\":");
    reveal_strlit("}");
    let t_ts = dec_seq(u.spec_ts() as nat);
    let ipt = u.spec_ip().spec_text();
    let cat = u.spec_category();
    let tag = u.spec_tag();
    let t_cnt = dec_seq(u.spec_count() as nat);
    let t_val = dec_seq_i64(u.spec_value() as int);
    let a1 = l1 + t_ts;
    let a2 = a1 + l2;
    let a3 = a2 + ipt;
    let a4 = a3 + q;
    let a5 = a4 + l3;
    let a6 = a5 + cat;
    let a7 = a6 + q;
    let a8 = a7 + l4;
    let a9 = a8 + tag;
    let a10 = a9 + q;
    let a11 = a10 + l5;
    let a12 = a11 + t_cnt;
    let a13 = a12 + l6;
    let a14 = a13 + t_val;
    let w = a14 + l7;
    assert(w == spec_ser_counter(u));
    lemma_concat_parts(l1, t_ts);
    lemma_concat_parts(a1, l2);
    lemma_concat_parts(a2, ipt);
    lemma_concat_parts(a3, q);
    lemma_concat_parts(a4, l3);
    lemma_concat_parts(a5, cat);
    lemma_concat_parts(a6, q);
    lemma_concat_parts(a7, l4);
    lemma_concat_parts(a8, tag);
    lemma_concat_parts(a9, q);
    lemma_concat_parts(a10, l5);
    lemma_concat_parts(a11, t_cnt);
    lemma_concat_parts(a12, l6);
    lemma_concat_parts(a13, t_val);
    lemma_concat_parts(a14, l7);
    let p1 = l1.len() as int;
    let p2 = p1 + t_ts.len();
    let p3 = p2 + l2.len();
    let p4 = p3 + ipt.len();
    let p5 = p4 + 1;
    let p6 = p5 + l3.len();
    let p7 = p6 + cat.len();
    let p8 = p7 + 1;
    let p9 = p8 + l4.len();
    let p10 = p9 + tag.len();
    let p11 = p10 + 1;
    let p12 = p11 + l5.len();
    let p13 = p12 + t_cnt.len();
    let p14 = p13 + l6.len();
    let p15 = p14 + t_val.len();
    assert(w.len() == p15 + 1);
    assert(w.subrange(0, p1) == l1);
    assert(w.subrange(p1, p2) == t_ts);
    assert(w.subrange(p2, p3) == l2);
    assert(w.subrange(p3, p4) == ipt);
    assert(w.subrange(p4, p5) == q);
    assert(w.subrange(p5, p6) == l3);
    assert(w.subrange(p6, p7) == cat);
    assert(w.subrange(p7, p8) == q);
    assert(w.subrange(p8, p9) == l4);
    assert(w.subrange(p9, p10) == tag);
    assert(w.subrange(p10, p11) == q);
    assert(w.subrange(p11, p12) == l5);
    assert(w.subrange(p12, p13) == t_cnt);
    assert(w.subrange(p13, p14) == l6);
    assert(w.subrange(p14, p15) == t_val);
    assert(w.subrange(p15, w.len() as int) == l7);
    lemma_transfer_piece(s, p, w, 0, p1, l1);
    lemma_transfer_piece(s, p, w, p1, p2, t_ts);
    lemma_transfer_piece(s, p, w, p2, p3, l2);
    lemma_transfer_piece(s, p, w, p3, p4, ipt);
    lemma_transfer_piece(s, p, w, p4, p5, q);
    lemma_transfer_piece(s, p, w, p5, p6, l3);
    lemma_transfer_piece(s, p, w, p6, p7, cat);
    lemma_transfer_piece(s, p, w, p7, p8, q);
    lemma_transfer_piece(s, p, w, p8, p9, l4);
    lemma_transfer_piece(s, p, w, p9, p10, tag);
    lemma_transfer_piece(s, p, w, p10, p11, q);
    lemma_transfer_piece(s, p, w, p11, p12, l5);
    lemma_transfer_piece(s, p, w, p12, p13, t_cnt);
    lemma_transfer_piece(s, p, w, p13, p14, l6);
    lemma_transfer_piece(s, p, w, p14, p15, t_val);
    lemma_transfer_piece(s, p, w, p15, w.len() as int, l7);
    assert(s[p + p4] == '"') by {
        assert(s.subrange(p + p4, p + p5)[0] == '"');
    }
    assert(s[p + p7] == '"') by {
        assert(s.subrange(p + p7, p + p8)[0] == '"');
    }
    assert(s[p + p10] == '"') by {
        assert(s.subrange(p + p10, p + p11)[0] == '"');
    }
    assert(s[p + p2] == '"') by {
        assert(s.subrange(p + p2, p + p3)[0] == l2[0]);
    }
    assert(s[p + p13] == ',') by {
        assert(s.subrange(p + p13, p + p14)[0] == l6[0]);
    }
    assert(s[p + p15] == '}') by {
        assert(s.subrange(p + p15, p + w.len())[0] == l7[0]);
    }
    lemma_spec_lit_embed(s, p, l1);
    lemma_spec_u64_embed(s, p + p1, u.spec_ts() as u64);
    lemma_spec_lit_embed(s, p + p2, l2);
    lemma_spec_ip_embed(s, p + p3, u.spec_ip());
    lemma_spec_lit_embed(s, p + p5, l3);
    lemma_spec_str_embed(s, p + p6, cat);
    lemma_spec_lit_embed(s, p + p8, l4);
    lemma_spec_str_embed(s, p + p9, tag);
    lemma_spec_lit_embed(s, p + p11, l5);
    lemma_spec_u64_embed(s, p + p12, u.spec_count());
    lemma_spec_lit_embed(s, p + p13, l6);
    lemma_spec_i64_embed(s, p + p14, u.spec_value());
    lemma_spec_lit_embed(s, p + p15, l7);
    assert(spec_parse_counter_at(s, p) matches Some((t, j)) && j == p + w.len()
        && counter_matches(u, t));
}

/// Serializing a well-formed counter record and reading the text back
/// yields the record's own fields, and nothing is left over.
pub proof fn lemma_counter_wire_round_trip(u: CounterUnit)
    requires
        u.wf(),
    ensures
        spec_from_wire_counter(spec_ser_counter(u)) matches Some(t) && counter_matches(u, t),
{
    let s = spec_ser_counter(u);
    assert(s.subrange(0, s.len() as int) =~= s);
    lemma_counter_ser_embed(s, 0, u);
}

impl CounterUnit {
    /// Writes this record in its wire form.
    pub fn to_wire(&self) -> (r: String)
        ensures
            r@ == spec_ser_counter(*self),
    {
        let mut s: String = String::from_str("{\"send_timestamp\":\"");
        let ts: String = u64_to_string(self.send_timestamp().data() as u64);
        s.append(ts.as_str());
        s.append("\",\"public_ip\":\"");
        let ip: String = self.public_ip().to_string();
        s.append(ip.as_str());
        crate::text::push_char(&mut s, '"');
        s.append(",\"category\":\"");
        s.append(self.category());
        crate::text::push_char(&mut s, '"');
        s.append(",\"tag\":\"");
        s.append(self.tag());
        crate::text::push_char(&mut s, '"');
        s.append(",\"count\":");
        let cnt: String = u64_to_string(self.count());
        s.append(cnt.as_str());
        s.append(",\"value\":");
        let val: String = i64_to_string(self.value());
        s.append(val.as_str());
        s.append("}");
        proof {
            assert(s@ =~= spec_ser_counter(*self));
        }
        s
    }

    /// Reads a counter record from its wire form. The result mirrors the
    /// wire grammar exactly, and every well-formed record is recovered from
    /// its own wire text.
    pub fn from_wire(s: &str) -> (r: Option<CounterUnit>)
        ensures
            r is Some <==> spec_from_wire_counter(s@) is Some,
            r matches Some(u) ==> (spec_from_wire_counter(s@) matches Some(t)
                && counter_matches(u, t) && u.wf()),
            forall|u: CounterUnit| u.wf() && s@ == #[trigger] spec_ser_counter(u) ==> (
            r matches Some(u2) && counter_eq(u2, u)),
    {
        let v: Vec<char> = str_to_chars(s);
        let r: Option<CounterUnit> = match parse_counter_at(&v, 0) {
            Some((u, j)) => {
                if j == v.len() {
                    Some(u)
                } else {
                    None
                }
            },
            None => None,
        };
        proof {
            assert forall|u: CounterUnit| u.wf() && s@ == #[trigger] spec_ser_counter(u)
                implies (r matches Some(u2) && counter_eq(u2, u)) by {
                lemma_counter_wire_round_trip(u);
            }
        }
        r
    }
}

/// Reads a counter record starting at `i`; returns it and the position
/// after its closing brace.
#[verifier::rlimit(100)]
#[verifier::spinoff_prover]
fn parse_counter_at(v: &Vec<char>, i: usize) -> (r: Option<(CounterUnit, usize)>)
    requires
        i <= v@.len(),
    ensures
        r is Some <==> spec_parse_counter_at(v@, i as int) is Some,
        r matches Some((u, j)) ==> (spec_parse_counter_at(v@, i as int) matches Some(
            (t, jj)) && j == jj && counter_matches(u, t) && u.wf() && j <= v@.len()),
{
    let i1: usize = match expect_lit(v, i, "{\"send_timestamp\":\"") {
        Some(x) => x,
        None => {
            return None;
        },
    };
    let (ts64, i2): (u64, usize) = match parse_u64_at(v, i1) {
        Some(x) => x,
        None => {
            return None;
        },
    };
    if ts64 > 0xffff_ffffu64 {
        return None;
    }
    let i3: usize = match expect_lit(v, i2, "\",\"public_ip\":\"") {
        Some(x) => x,
        None => {
            return None;
        },
    };
    let (ip, i4): (IpAddress, usize) = match scan_string_at(v, i3) {
        Some((t, j)) => {
            match IpAddress::from_str(t.as_str()) {
                Ok(a) => (a, j),
                Err(_) => {
                    return None;
                },
            }
        },
        None => {
            return None;
        },
    };
    let i5: usize = match expect_lit(v, i4, ",\"category\":\"") {
        Some(x) => x,
        None => {
            return None;
        },
    };
    let (cat, i6): (String, usize) = match scan_string_at(v, i5) {
        Some(x) => x,
        None => {
            return None;
        },
    };
    let i7: usize = match expect_lit(v, i6, ",\"tag\":\"") {
        Some(x) => x,
        None => {
            return None;
        },
    };
    let (tag, i8): (String, usize) = match scan_string_at(v, i7) {
        Some(x) => x,
        None => {
            return None;
        },
    };
    let i9: usize = match expect_lit(v, i8, ",\"count\":") {
        Some(x) => x,
        None => {
            return None;
        },
    };
    let (count, i10): (u64, usize) = match parse_u64_at(v, i9) {
        Some(x) => x,
        None => {
            return None;
        },
    };
    let i11: usize = match expect_lit(v, i10, ",\"value\":") {
        Some(x) => x,
        None => {
            return None;
        },
    };
    let (value, i12): (i64, usize) = match parse_i64_at(v, i11) {
        Some(x) => x,
        None => {
            return None;
        },
    };
    let i13: usize = match expect_lit(v, i12, "}") {
        Some(x) => x,
        None => {
            return None;
        },
    };
    let u: CounterUnit = CounterUnit::assemble(
        TimeStamp::new(ts64 as u32),
        ip,
        cat,
        tag,
        count,
        value,
    );
    proof {
        let s = v@;
        assert(spec_lit_at(s, i as int, "{\"send_timestamp\":\""@) == Some(i1 as int));
        assert(spec_u64_at(s, i1 as int) == Some((ts64, i2 as int)));
        assert(spec_lit_at(s, i2 as int, "\",\"public_ip\":\""@) == Some(i3 as int));
        assert(spec_ip_at(s, i3 as int) matches Some((t, p, j)) && t == ip.spec_ip()
            && p == ip.spec_port() && j == i4 as int);
        assert(spec_lit_at(s, i4 as int, ",\"category\":\""@) == Some(i5 as int));
        assert(spec_str_at(s, i5 as int) == Some((cat@, i6 as int)));
        assert(spec_lit_at(s, i6 as int, ",\"tag\":\""@) == Some(i7 as int));
        assert(spec_str_at(s, i7 as int) == Some((tag@, i8 as int)));
        assert(spec_lit_at(s, i8 as int, ",\"count\":"@) == Some(i9 as int));
        assert(spec_u64_at(s, i9 as int) == Some((count, i10 as int)));
        assert(spec_lit_at(s, i10 as int, ",\"value\":"@) == Some(i11 as int));
        assert(spec_i64_at(s, i11 as int) == Some((value, i12 as int)));
        assert(spec_lit_at(s, i12 as int, "}"@) == Some(i13 as int));
        assert(spec_parse_counter_at(s, i as int) matches Some((t, jj)) && jj == i13
            && counter_matches(u, t));
    }
    Some((u, i13))
}


/// The wire text of a timer record.
pub open spec fn spec_ser_timer(u: TimerUnit) -> Seq<char> {
    "{\"send_timestamp\":\""@ + dec_seq(u.spec_ts() as nat)
        + "\",\"public_ip\":\""@ + u.spec_ip().spec_text() + seq!['"']
        + ",\"category\":\""@ + u.spec_category() + seq!['"']
        + ",\"tag\":\""@ + u.spec_tag() + seq!['"']
        + ",\"count\":"@ + dec_seq(u.spec_count() as nat)
        + ",\"max_time\":"@ + dec_seq(u.spec_max() as nat)
        + ",\"min_time\":"@ + dec_seq(u.spec_min() as nat)
        + ",\"avg_time\":"@ + dec_seq(u.spec_avg() as nat) + "}"@
}


/// The parsed fields of a timer record's wire text.
pub open spec fn spec_parse_timer_at(s: Seq<char>, i: int) -> Option<(((u32, Seq<char>, u64, Seq<char>, Seq<char>), (u64, u64, u64, u64)), int)> {
    match spec_lit_at(s, i, "{\"send_timestamp\":\""@) {
        None => None,
        Some(i1) => {
            match spec_u64_at(s, i1) {
                None => None,
                Some((ts, i2)) => if ts > u32::MAX { None } else {
                    match spec_lit_at(s, i2, "\",\"public_ip\":\""@) {
                        None => None,
                        Some(i3) => {
                            match spec_ip_at(s, i3) {
                                None => None,
                                Some((ipt, port, i4)) => {
                                    match spec_lit_at(s, i4, ",\"category\":\""@) {
                                        None => None,
                                        Some(i5) => {
                                            match spec_str_at(s, i5) {
                                                None => None,
                                                Some((cat, i6)) => {
                                                    match spec_lit_at(s, i6, ",\"tag\":\""@) {
                                                        None => None,
                                                        Some(i7) => {
                                                            match spec_str_at(s, i7) {
                                                                None => None,
                                                                Some((tag, i8)) => {
                                                                    match spec_lit_at(s, i8, ",\"count\":"@) {
                                                                        None => None,
                                                                        Some(i9) => {
                                                                            match spec_u64_at(s, i9) {
                                                                                None => None,
                                                                                Some((count, i10)) => {
                                                                                    match spec_lit_at(s, i10, ",\"max_time\":"@) {
                                                                                        None => None,
                                                                                        Some(i11) => {
                                                                                            match spec_u64_at(s, i11) {
                                                                                                None => None,
                                                                                                Some((v_max, i12)) => {
                                                                                                    match spec_lit_at(s, i12, ",\"min_time\":"@) {
                                                                                                        None => None,
                                                                                                        Some(i13) => {
                                                                                                            match spec_u64_at(s, i13) {
                                                                                                                None => None,
                                                                                                                Some((v_min, i14)) => {
                                                                                                                    match spec_lit_at(s, i14, ",\"avg_time\":"@) {
                                                                                                                        None => None,
                                                                                                                        Some(i15) => {
                                                                                                                            match spec_u64_at(s, i15) {
                                                                                                                                None => None,
                                                                                                                                Some((v_avg, i16)) => {
                                                                                                                                    match spec_lit_at(s, i16, "}"@) {
                                                                                                                                        None => None,
                                                                                                                                        Some(i17) => {
                                                                                                                                            Some((((ts as u32, ipt, port, cat, tag), (count, v_max, v_min, v_avg)), i17))
                                                                                                                                        },
                                                                                                                                    }
                                                                                                                                },
                                                                                                                            }
                                                                                                                        },
                                                                                                                    }
                                                                                                                },
                                                                                                            }
                                                                                                        },
                                                                                                    }
                                                                                                },
                                                                                            }
                                                                                        },
                                                                                    }
                                                                                },
                                                                            }
                                                                        },
                                                                    }
                                                                },
                                                            }
                                                        },
                                                    }
                                                },
                                            }
                                        },
                                    }
                                },
                            }
                        },
                    }
                },
            }
        },
    }
}

/// The parsed fields of a whole timer wire text: the parse must consume
/// everything.
pub open spec fn spec_from_wire_timer(s: Seq<char>) -> Option<((u32, Seq<char>, u64, Seq<char>, Seq<char>), (u64, u64, u64, u64))> {
    match spec_parse_timer_at(s, 0) {
        Some((t, j)) => if j == s.len() {
            Some(t)
        } else {
            None
        },
        None => None,
    }
}


/// The two timer records hold the same fields.
pub open spec fn timer_eq(a: TimerUnit, b: TimerUnit) -> bool {
    &&& a.spec_ts() == b.spec_ts()
    &&& a.spec_ip().spec_ip() == b.spec_ip().spec_ip()
    &&& a.spec_ip().spec_port() == b.spec_ip().spec_port()
    &&& a.spec_category() == b.spec_category()
    &&& a.spec_tag() == b.spec_tag()
    &&& a.spec_count() == b.spec_count()
    &&& a.spec_max() == b.spec_max()
    &&& a.spec_min() == b.spec_min()
    &&& a.spec_avg() == b.spec_avg()
}

/// A timer record's fields match the parsed tuple.
pub open spec fn timer_matches(u: TimerUnit, t: (((u32, Seq<char>, u64, Seq<char>, Seq<char>), (u64, u64, u64, u64)))) -> bool {
    &&& u.spec_ts() == t.0.0
    &&& u.spec_ip().spec_ip() == t.0.1
    &&& u.spec_ip().spec_port() == t.0.2
    &&& u.spec_category() == t.0.3
    &&& u.spec_tag() == t.0.4
    &&& u.spec_count() == t.1.0
    &&& u.spec_max() == t.1.1
    &&& u.spec_min() == t.1.2
    &&& u.spec_avg() == t.1.3
}

/// The wire text of a well-formed timer record, standing anywhere inside
/// a larger text, parses back to the record's own fields.
#[verifier::rlimit(100)]
#[verifier::spinoff_prover]
pub proof fn lemma_timer_ser_embed(s: Seq<char>, p: int, u: TimerUnit)
    requires
        u.wf(),
        0 <= p,
        p + spec_ser_timer(u).len() <= s.len(),
        s.subrange(p, p + spec_ser_timer(u).len()) == spec_ser_timer(u),
    ensures
        spec_parse_timer_at(s, p) matches Some((t, j)) && j == p + spec_ser_timer(
            u).len() && timer_matches(u, t),
{
    let l1 = "{\"send_timestamp\":\""@;
    let l2 = "\",\"public_ip\":\""@;
    let l3 = ",\"category\":\""@;
    let l4 = ",\"tag\":\""@;
    let l5 = ",\"count\":"@;
    let f6 = ",\"max_time\":"@;
    let f7 = ",\"min_time\":"@;
    let f8 = ",\"avg_time\":"@;
    let l7 = "}"@;
    let q = seq!['"'];
    reveal_strlit("{\"send_timestamp\":\"");
    reveal_strlit("\",\"public_ip\":\"");
    reveal_strlit(",\"category\":\"");
    reveal_strlit(",\"tag\":\"");
    reveal_strlit(",\"count\":");
    reveal_strlit(",\"max_time\":");
    reveal_strlit(",\"min_time\":");
    reveal_strlit(",\"avg_time\":");
    reveal_strlit("}");
    let t_ts = dec_seq(u.spec_ts() as nat);
    let ipt = u.spec_ip().spec_text();
    let cat = u.spec_category();
    let tag = u.spec_tag();
    let t_cnt = dec_seq(u.spec_count() as nat);
    let t_max = dec_seq(u.spec_max() as nat);
    let t_min = dec_seq(u.spec_min() as nat);
    let t_avg = dec_seq(u.spec_avg() as nat);
    let a1 = l1 + t_ts;
    let a2 = a1 + l2;
    let a3 = a2 + ipt;
    let a4 = a3 + q;
    let a5 = a4 + l3;
    let a6 = a5 + cat;
    let a7 = a6 + q;
    let a8 = a7 + l4;
    let a9 = a8 + tag;
    let a10 = a9 + q;
    let a11 = a10 + l5;
    let a12 = a11 + t_cnt;
    let a13 = a12 + f6;
    let a14 = a13 + t_max;
    let a15 = a14 + f7;
    let a16 = a15 + t_min;
    let a17 = a16 + f8;
    let a18 = a17 + t_avg;
    let w = a18 + l7;
    assert(w == spec_ser_timer(u));
    lemma_concat_parts(l1, t_ts);
    lemma_concat_parts(a1, l2);
    lemma_concat_parts(a2, ipt);
    lemma_concat_parts(a3, q);
    lemma_concat_parts(a4, l3);
    lemma_concat_parts(a5, cat);
    lemma_concat_parts(a6, q);
    lemma_concat_parts(a7, l4);
    lemma_concat_parts(a8, tag);
    lemma_concat_parts(a9, q);
    lemma_concat_parts(a10, l5);
    lemma_concat_parts(a11, t_cnt);
    lemma_concat_parts(a12, f6);
    lemma_concat_parts(a13, t_max);
    lemma_concat_parts(a14, f7);
    lemma_concat_parts(a15, t_min);
    lemma_concat_parts(a16, f8);
    lemma_concat_parts(a17, t_avg);
    lemma_concat_parts(a18, l7);
    let p1 = l1.len() as int;
    let p2 = p1 + t_ts.len();
    let p3 = p2 + l2.len();
    let p4 = p3 + ipt.len();
    let p5 = p4 + 1;
    let p6 = p5 + l3.len();
    let p7 = p6 + cat.len();
    let p8 = p7 + 1;
    let p9 = p8 + l4.len();
    let p10 = p9 + tag.len();
    let p11 = p10 + 1;
    let p12 = p11 + l5.len();
    let p13 = p12 + t_cnt.len();
    let p14 = p13 + f6.len();
    let p15 = p14 + t_max.len();
    let p16 = p15 + f7.len();
    let p17 = p16 + t_min.len();
    let p18 = p17 + f8.len();
    let p19 = p18 + t_avg.len();
    assert(w.subrange(0, p1) == l1);
    assert(w.subrange(p1, p2) == t_ts);
    assert(w.subrange(p2, p3) == l2);
    assert(w.subrange(p3, p4) == ipt);
    assert(w.subrange(p4, p5) == q);
    assert(w.subrange(p5, p6) == l3);
    assert(w.subrange(p6, p7) == cat);
    assert(w.subrange(p7, p8) == q);
    assert(w.subrange(p8, p9) == l4);
    assert(w.subrange(p9, p10) == tag);
    assert(w.subrange(p10, p11) == q);
    assert(w.subrange(p11, p12) == l5);
    assert(w.subrange(p12, p13) == t_cnt);
    assert(w.subrange(p13, p14) == f6);
    assert(w.subrange(p14, p15) == t_max);
    assert(w.subrange(p15, p16) == f7);
    assert(w.subrange(p16, p17) == t_min);
    assert(w.subrange(p17, p18) == f8);
    assert(w.subrange(p18, p19) == t_avg);
    assert(w.subrange(p19, w.len() as int) == l7);
    lemma_transfer_piece(s, p, w, 0, p1, l1);
    lemma_transfer_piece(s, p, w, p1, p2, t_ts);
    lemma_transfer_piece(s, p, w, p2, p3, l2);
    lemma_transfer_piece(s, p, w, p3, p4, ipt);
    lemma_transfer_piece(s, p, w, p4, p5, q);
    lemma_transfer_piece(s, p, w, p5, p6, l3);
    lemma_transfer_piece(s, p, w, p6, p7, cat);
    lemma_transfer_piece(s, p, w, p7, p8, q);
    lemma_transfer_piece(s, p, w, p8, p9, l4);
    lemma_transfer_piece(s, p, w, p9, p10, tag);
    lemma_transfer_piece(s, p, w, p10, p11, q);
    lemma_transfer_piece(s, p, w, p11, p12, l5);
    lemma_transfer_piece(s, p, w, p12, p13, t_cnt);
    lemma_transfer_piece(s, p, w, p13, p14, f6);
    lemma_transfer_piece(s, p, w, p14, p15, t_max);
    lemma_transfer_piece(s, p, w, p15, p16, f7);
    lemma_transfer_piece(s, p, w, p16, p17, t_min);
    lemma_transfer_piece(s, p, w, p17, p18, f8);
    lemma_transfer_piece(s, p, w, p18, p19, t_avg);
    lemma_transfer_piece(s, p, w, p19, w.len() as int, l7);
    assert(s[p + p4] == '"') by {
        assert(s.subrange(p + p4, p + p5)[0] == '"');
    }
    assert(s[p + p7] == '"') by {
        assert(s.subrange(p + p7, p + p8)[0] == '"');
    }
    assert(s[p + p10] == '"') by {
        assert(s.subrange(p + p10, p + p11)[0] == '"');
    }
    assert(s[p + p2] == '"') by {
        assert(s.subrange(p + p2, p + p3)[0] == l2[0]);
    }
    assert(s[p + p13] == ',') by {
        assert(s.subrange(p + p13, p + p14)[0] == f6[0]);
    }
    assert(s[p + p15] == ',') by {
        assert(s.subrange(p + p15, p + p16)[0] == f7[0]);
    }
    assert(s[p + p17] == ',') by {
        assert(s.subrange(p + p17, p + p18)[0] == f8[0]);
    }
    assert(s[p + p19] == '}') by {
        assert(s.subrange(p + p19, p + w.len() as int)[0] == l7[0]);
    }
    lemma_spec_lit_embed(s, p, l1);
    lemma_spec_u64_embed(s, p + p1, u.spec_ts() as u64);
    lemma_spec_lit_embed(s, p + p2, l2);
    lemma_spec_ip_embed(s, p + p3, u.spec_ip());
    lemma_spec_lit_embed(s, p + p5, l3);
    lemma_spec_str_embed(s, p + p6, cat);
    lemma_spec_lit_embed(s, p + p8, l4);
    lemma_spec_str_embed(s, p + p9, tag);
    lemma_spec_lit_embed(s, p + p11, l5);
    lemma_spec_u64_embed(s, p + p12, u.spec_count());
    lemma_spec_lit_embed(s, p + p13, f6);
    lemma_spec_u64_embed(s, p + p14, u.spec_max());
    lemma_spec_lit_embed(s, p + p15, f7);
    lemma_spec_u64_embed(s, p + p16, u.spec_min());
    lemma_spec_lit_embed(s, p + p17, f8);
    lemma_spec_u64_embed(s, p + p18, u.spec_avg());
    lemma_spec_lit_embed(s, p + p19, l7);
    assert(spec_parse_timer_at(s, p) matches Some((t, j)) && j == p + w.len()
        && timer_matches(u, t));
}

/// Serializing a well-formed timer record and reading the text back
/// yields the record's own fields, and nothing is left over.
pub proof fn lemma_timer_wire_round_trip(u: TimerUnit)
    requires
        u.wf(),
    ensures
        spec_from_wire_timer(spec_ser_timer(u)) matches Some(t) && timer_matches(u, t),
{
    let s = spec_ser_timer(u);
    assert(s.subrange(0, s.len() as int) =~= s);
    lemma_timer_ser_embed(s, 0, u);
}


impl TimerUnit {
    /// Writes this record in its wire form.
    pub fn to_wire(&self) -> (r: String)
        ensures
            r@ == spec_ser_timer(*self),
    {
        let mut s: String = String::from_str("{\"send_timestamp\":\"");
        let ts: String = u64_to_string(self.send_timestamp().data() as u64);
        s.append(ts.as_str());
        s.append("\",\"public_ip\":\"");
        let ip: String = self.public_ip().to_string();
        s.append(ip.as_str());
        crate::text::push_char(&mut s, '"');
        s.append(",\"category\":\"");
        s.append(self.category());
        crate::text::push_char(&mut s, '"');
        s.append(",\"tag\":\"");
        s.append(self.tag());
        crate::text::push_char(&mut s, '"');
        s.append(",\"count\":");
        let cnt: String = u64_to_string(self.count());
        s.append(cnt.as_str());
        s.append(",\"max_time\":");
        let x_max: String = u64_to_string(self.max_time());
        s.append(x_max.as_str());
        s.append(",\"min_time\":");
        let x_min: String = u64_to_string(self.min_time());
        s.append(x_min.as_str());
        s.append(",\"avg_time\":");
        let x_avg: String = u64_to_string(self.avg_time());
        s.append(x_avg.as_str());
        s.append("}");
        proof {
            assert(s@ =~= spec_ser_timer(*self));
        }
        s
    }

    /// Reads a timer record from its wire form. The result mirrors the
    /// wire grammar exactly, and every well-formed record is recovered from
    /// its own wire text.
    pub fn from_wire(s: &str) -> (r: Option<TimerUnit>)
        ensures
            r is Some <==> spec_from_wire_timer(s@) is Some,
            r matches Some(u) ==> (spec_from_wire_timer(s@) matches Some(t)
                && timer_matches(u, t) && u.wf()),
            forall|u: TimerUnit| u.wf() && s@ == #[trigger] spec_ser_timer(u) ==> (
            r matches Some(u2) && timer_eq(u2, u)),
    {
        let v: Vec<char> = str_to_chars(s);
        let r: Option<TimerUnit> = match parse_timer_at(&v, 0) {
            Some((u, j)) => {
                if j == v.len() {
                    Some(u)
                } else {
                    None
                }
            },
            None => None,
        };
        proof {
            assert forall|u: TimerUnit| u.wf() && s@ == #[trigger] spec_ser_timer(u)
                implies (r matches Some(u2) && timer_eq(u2, u)) by {
                lemma_timer_wire_round_trip(u);
            }
        }
        r
    }
}


/// Reads a timer record starting at `i`; returns it and the position
/// after its closing brace.
#[verifier::rlimit(100)]
#[verifier::spinoff_prover]
fn parse_timer_at(v: &Vec<char>, i: usize) -> (r: Option<(TimerUnit, usize)>)
    requires
        i <= v@.len(),
    ensures
        r is Some <==> spec_parse_timer_at(v@, i as int) is Some,
        r matches Some((u, j)) ==> (spec_parse_timer_at(v@, i as int) matches Some(
            (t, jj)) && j == jj && timer_matches(u, t) && u.wf() && j <= v@.len()),
{
    let i1: usize = match expect_lit(v, i, "{\"send_timestamp\":\"") {
        Some(x) => x,
        None => {
            return None;
        },
    };
    let (ts64, i2): (u64, usize) = match parse_u64_at(v, i1) {
        Some(x) => x,
        None => {
            return None;
        },
    };
    if ts64 > 0xffff_ffffu64 {
        return None;
    }
    let i3: usize = match expect_lit(v, i2, "\",\"public_ip\":\"") {
        Some(x) => x,
        None => {
            return None;
        },
    };
    let (ip, i4): (IpAddress, usize) = match scan_string_at(v, i3) {
        Some((t, j)) => {
            match IpAddress::from_str(t.as_str()) {
                Ok(a) => (a, j),
                Err(_) => {
                    return None;
                },
            }
        },
        None => {
            return None;
        },
    };
    let i5: usize = match expect_lit(v, i4, ",\"category\":\"") {
        Some(x) => x,
        None => {
            return None;
        },
    };
    let (cat, i6): (String, usize) = match scan_string_at(v, i5) {
        Some(x) => x,
        None => {
            return None;
        },
    };
    let i7: usize = match expect_lit(v, i6, ",\"tag\":\"") {
        Some(x) => x,
        None => {
            return None;
        },
    };
    let (tag, i8): (String, usize) = match scan_string_at(v, i7) {
        Some(x) => x,
        None => {
            return None;
        },
    };
    let i9: usize = match expect_lit(v, i8, ",\"count\":") {
        Some(x) => x,
        None => {
            return None;
        },
    };
    let (count, i10): (u64, usize) = match parse_u64_at(v, i9) {
        Some(x) => x,
        None => {
            return None;
        },
    };
    let i11: usize = match expect_lit(v, i10, ",\"max_time\":") {
        Some(x) => x,
        None => {
            return None;
        },
    };
    let (x_max, i12): (u64, usize) = match parse_u64_at(v, i11) {
        Some(x) => x,
        None => {
            return None;
        },
    };
    let i13: usize = match expect_lit(v, i12, ",\"min_time\":") {
        Some(x) => x,
        None => {
            return None;
        },
    };
    let (x_min, i14): (u64, usize) = match parse_u64_at(v, i13) {
        Some(x) => x,
        None => {
            return None;
        },
    };
    let i15: usize = match expect_lit(v, i14, ",\"avg_time\":") {
        Some(x) => x,
        None => {
            return None;
        },
    };
    let (x_avg, i16): (u64, usize) = match parse_u64_at(v, i15) {
        Some(x) => x,
        None => {
            return None;
        },
    };
    let i17: usize = match expect_lit(v, i16, "}") {
        Some(x) => x,
        None => {
            return None;
        },
    };
    let u: TimerUnit = TimerUnit::assemble(
        TimeStamp::new(ts64 as u32),
        ip,
        cat,
        tag,
        count,
        x_max,
        x_min,
        x_avg,
    );
    proof {
        let s = v@;
        assert(spec_lit_at(s, i as int, "{\"send_timestamp\":\""@) == Some(i1 as int));
        assert(spec_u64_at(s, i1 as int) == Some((ts64, i2 as int)));
        assert(spec_lit_at(s, i2 as int, "\",\"public_ip\":\""@) == Some(i3 as int));
        assert(spec_ip_at(s, i3 as int) matches Some((t, p, j)) && t == ip.spec_ip()
            && p == ip.spec_port() && j == i4 as int);
        assert(spec_lit_at(s, i4 as int, ",\"category\":\""@) == Some(i5 as int));
        assert(spec_str_at(s, i5 as int) == Some((cat@, i6 as int)));
        assert(spec_lit_at(s, i6 as int, ",\"tag\":\""@) == Some(i7 as int));
        assert(spec_str_at(s, i7 as int) == Some((tag@, i8 as int)));
        assert(spec_lit_at(s, i8 as int, ",\"count\":"@) == Some(i9 as int));
        assert(spec_u64_at(s, i9 as int) == Some((count, i10 as int)));
        assert(spec_lit_at(s, i10 as int, ",\"max_time\":"@) == Some(i11 as int));
        assert(spec_u64_at(s, i11 as int) == Some((x_max, i12 as int)));
        assert(spec_lit_at(s, i12 as int, ",\"min_time\":"@) == Some(i13 as int));
        assert(spec_u64_at(s, i13 as int) == Some((x_min, i14 as int)));
        assert(spec_lit_at(s, i14 as int, ",\"avg_time\":"@) == Some(i15 as int));
        assert(spec_u64_at(s, i15 as int) == Some((x_avg, i16 as int)));
        assert(spec_lit_at(s, i16 as int, "}"@) == Some(i17 as int));
        assert(spec_parse_timer_at(s, i as int) matches Some((t, jj)) && jj == i17
            && timer_matches(u, t));
    }
    Some((u, i17))
}
/// The wire text of a flow record.
pub open spec fn spec_ser_flow(u: FlowUnit) -> Seq<char> {
    "{\"send_timestamp\":\""@ + dec_seq(u.spec_ts() as nat)
        + "\",\"public_ip\":\""@ + u.spec_ip().spec_text() + seq!['"']
        + ",\"category\":\""@ + u.spec_category() + seq!['"']
        + ",\"tag\":\""@ + u.spec_tag() + seq!['"']
        + ",\"count\":"@ + dec_seq(u.spec_count() as nat)
        + ",\"max_flow\":"@ + dec_seq_i64(u.spec_max() as int)
        + ",\"min_flow\":"@ + dec_seq_i64(u.spec_min() as int)
        + ",\"sum_flow\":"@ + dec_seq_i64(u.spec_sum() as int)
        + ",\"avg_flow\":"@ + dec_seq_i64(u.spec_avg() as int)
        + ",\"tps_flow\":"@ + dec_seq_i64(u.spec_tps_flow() as int)
        + ",\"tps\":"@ + u.spec_tps() + "}"@
}


/// The parsed fields of a flow record's wire text.
pub open spec fn spec_parse_flow_at(s: Seq<char>, i: int) -> Option<(((u32, Seq<char>, u64, Seq<char>, Seq<char>), (u64, i64, i64, i64, i64, i64, Seq<char>)), int)> {
    match spec_lit_at(s, i, "{\"send_timestamp\":\""@) {
        None => None,
        Some(i1) => {
            match spec_u64_at(s, i1) {
                None => None,
                Some((ts, i2)) => if ts > u32::MAX { None } else {
                    match spec_lit_at(s, i2, "\",\"public_ip\":\""@) {
                        None => None,
                        Some(i3) => {
                            match spec_ip_at(s, i3) {
                                None => None,
                                Some((ipt, port, i4)) => {
                                    match spec_lit_at(s, i4, ",\"category\":\""@) {
                                        None => None,
                                        Some(i5) => {
                                            match spec_str_at(s, i5) {
                                                None => None,
                                                Some((cat, i6)) => {
                                                    match spec_lit_at(s, i6, ",\"tag\":\""@) {
                                                        None => None,
                                                        Some(i7) => {
                                                            match spec_str_at(s, i7) {
                                                                None => None,
                                                                Some((tag, i8)) => {
                                                                    match spec_lit_at(s, i8, ",\"count\":"@) {
                                                                        None => None,
                                                                        Some(i9) => {
                                                                            match spec_u64_at(s, i9) {
                                                                                None => None,
                                                                                Some((count, i10)) => {
                                                                                    match spec_lit_at(s, i10, ",\"max_flow\":"@) {
                                                                                        None => None,
                                                                                        Some(i11) => {
                                                                                            match spec_i64_at(s, i11) {
                                                                                                None => None,
                                                                                                Some((v_max, i12)) => {
                                                                                                    match spec_lit_at(s, i12, ",\"min_flow\":"@) {
                                                                                                        None => None,
                                                                                                        Some(i13) => {
                                                                                                            match spec_i64_at(s, i13) {
                                                                                                                None => None,
                                                                                                                Some((v_min, i14)) => {
                                                                                                                    match spec_lit_at(s, i14, ",\"sum_flow\":"@) {
                                                                                                                        None => None,
                                                                                                                        Some(i15) => {
                                                                                                                            match spec_i64_at(s, i15) {
                                                                                                                                None => None,
                                                                                                                                Some((v_sum, i16)) => {
                                                                                                                                    match spec_lit_at(s, i16, ",\"avg_flow\":"@) {
                                                                                                                                        None => None,
                                                                                                                                        Some(i17) => {
                                                                                                                                            match spec_i64_at(s, i17) {
                                                                                                                                                None => None,
                                                                                                                                                Some((v_avg, i18)) => {
                                                                                                                                                    match spec_lit_at(s, i18, ",\"tps_flow\":"@) {
                                                                                                                                                        None => None,
                                                                                                                                                        Some(i19) => {
                                                                                                                                                            match spec_i64_at(s, i19) {
                                                                                                                                                                None => None,
                                                                                                                                                                Some((v_tps_flow, i20)) => {
                                                                                                                                                                    match spec_lit_at(s, i20, ",\"tps\":"@) {
                                                                                                                                                                        None => None,
                                                                                                                                                                        Some(i21) => {
                                                                                                                                                                            match spec_number_at(s, i21) {
                                                                                                                                                                                None => None,
                                                                                                                                                                                Some((v_tps, i22)) => {
                                                                                                                                                                                    match spec_lit_at(s, i22, "}"@) {
                                                                                                                                                                                        None => None,
                                                                                                                                                                                        Some(i23) => {
                                                                                                                                                                                            Some((((ts as u32, ipt, port, cat, tag), (count, v_max, v_min, v_sum, v_avg, v_tps_flow, v_tps)), i23))
                                                                                                                                                                                        },
                                                                                                                                                                                    }
                                                                                                                                                                                },
                                                                                                                                                                            }
                                                                                                                                                                        },
                                                                                                                                                                    }
                                                                                                                                                                },
                                                                                                                                                            }
                                                                                                                                                        },
                                                                                                                                                    }
                                                                                                                                                },
                                                                                                                                            }
                                                                                                                                        },
                                                                                                                                    }
                                                                                                                                },
                                                                                                                            }
                                                                                                                        },
                                                                                                                    }
                                                                                                                },
                                                                                                            }
                                                                                                        },
                                                                                                    }
                                                                                                },
                                                                                            }
                                                                                        },
                                                                                    }
                                                                                },
                                                                            }
                                                                        },
                                                                    }
                                                                },
                                                            }
                                                        },
                                                    }
                                                },
                                            }
                                        },
                                    }
                                },
                            }
                        },
                    }
                },
            }
        },
    }
}

/// The parsed fields of a whole flow wire text: the parse must consume
/// everything.
pub open spec fn spec_from_wire_flow(s: Seq<char>) -> Option<((u32, Seq<char>, u64, Seq<char>, Seq<char>), (u64, i64, i64, i64, i64, i64, Seq<char>))> {
    match spec_parse_flow_at(s, 0) {
        Some((t, j)) => if j == s.len() {
            Some(t)
        } else {
            None
        },
        None => None,
    }
}


/// The two flow records hold the same fields.
pub open spec fn flow_eq(a: FlowUnit, b: FlowUnit) -> bool {
    &&& a.spec_ts() == b.spec_ts()
    &&& a.spec_ip().spec_ip() == b.spec_ip().spec_ip()
    &&& a.spec_ip().spec_port() == b.spec_ip().spec_port()
    &&& a.spec_category() == b.spec_category()
    &&& a.spec_tag() == b.spec_tag()
    &&& a.spec_count() == b.spec_count()
    &&& a.spec_max() == b.spec_max()
    &&& a.spec_min() == b.spec_min()
    &&& a.spec_sum() == b.spec_sum()
    &&& a.spec_avg() == b.spec_avg()
    &&& a.spec_tps_flow() == b.spec_tps_flow()
    &&& a.spec_tps() == b.spec_tps()
}

/// A flow record's fields match the parsed tuple.
pub open spec fn flow_matches(u: FlowUnit, t: (((u32, Seq<char>, u64, Seq<char>, Seq<char>), (u64, i64, i64, i64, i64, i64, Seq<char>)))) -> bool {
    &&& u.spec_ts() == t.0.0
    &&& u.spec_ip().spec_ip() == t.0.1
    &&& u.spec_ip().spec_port() == t.0.2
    &&& u.spec_category() == t.0.3
    &&& u.spec_tag() == t.0.4
    &&& u.spec_count() == t.1.0
    &&& u.spec_max() == t.1.1
    &&& u.spec_min() == t.1.2
    &&& u.spec_sum() == t.1.3
    &&& u.spec_avg() == t.1.4
    &&& u.spec_tps_flow() == t.1.5
    &&& u.spec_tps() == t.1.6
}

/// The pieces of a flow record's wire text, located inside a larger text:
/// every literal, number and string stands at its own offset, and the
/// characters that end each piece are where the grammar puts them.
#[verifier::rlimit(100)]
#[verifier::spinoff_prover]
proof fn lemma_flow_layout(s: Seq<char>, p: int, u: FlowUnit)
    requires
        0 <= p,
        p + spec_ser_flow(u).len() <= s.len(),
        s.subrange(p, p + spec_ser_flow(u).len()) == spec_ser_flow(u),
    ensures
        ({
            let l1 = "{\"send_timestamp\":\""@;
            let l2 = "\",\"public_ip\":\""@;
            let l3 = ",\"category\":\""@;
            let l4 = ",\"tag\":\""@;
            let l5 = ",\"count\":"@;
            let f6 = ",\"max_flow\":"@;
            let f7 = ",\"min_flow\":"@;
            let f8 = ",\"sum_flow\":"@;
            let f9 = ",\"avg_flow\":"@;
            let f10 = ",\"tps_flow\":"@;
            let f11 = ",\"tps\":"@;
            let l7 = "}"@;
            let q = seq!['"'];
            let t_ts = dec_seq(u.spec_ts() as nat);
            let ipt = u.spec_ip().spec_text();
            let cat = u.spec_category();
            let tag = u.spec_tag();
            let t_cnt = dec_seq(u.spec_count() as nat);
            let t_max = dec_seq_i64(u.spec_max() as int);
            let t_min = dec_seq_i64(u.spec_min() as int);
            let t_sum = dec_seq_i64(u.spec_sum() as int);
            let t_avg = dec_seq_i64(u.spec_avg() as int);
            let t_tps_flow = dec_seq_i64(u.spec_tps_flow() as int);
            let t_tps = u.spec_tps();
            let p1 = l1.len() as int;
            let p2 = p1 + t_ts.len();
            let p3 = p2 + l2.len();
            let p4 = p3 + ipt.len();
            let p5 = p4 + 1;
            let p6 = p5 + l3.len();
            let p7 = p6 + cat.len();
            let p8 = p7 + 1;
            let p9 = p8 + l4.len();
            let p10 = p9 + tag.len();
            let p11 = p10 + 1;
            let p12 = p11 + l5.len();
            let p13 = p12 + t_cnt.len();
            let p14 = p13 + f6.len();
            let p15 = p14 + t_max.len();
            let p16 = p15 + f7.len();
            let p17 = p16 + t_min.len();
            let p18 = p17 + f8.len();
            let p19 = p18 + t_sum.len();
            let p20 = p19 + f9.len();
            let p21 = p20 + t_avg.len();
            let p22 = p21 + f10.len();
            let p23 = p22 + t_tps_flow.len();
            let p24 = p23 + f11.len();
            let p25 = p24 + t_tps.len();
            &&& s.subrange(p + 0, p + p1) == l1
            &&& s.subrange(p + p1, p + p2) == t_ts
            &&& s.subrange(p + p2, p + p3) == l2
            &&& s.subrange(p + p3, p + p4) == ipt
            &&& s.subrange(p + p4, p + p5) == q
            &&& s.subrange(p + p5, p + p6) == l3
            &&& s.subrange(p + p6, p + p7) == cat
            &&& s.subrange(p + p7, p + p8) == q
            &&& s.subrange(p + p8, p + p9) == l4
            &&& s.subrange(p + p9, p + p10) == tag
            &&& s.subrange(p + p10, p + p11) == q
            &&& s.subrange(p + p11, p + p12) == l5
            &&& s.subrange(p + p12, p + p13) == t_cnt
            &&& s.subrange(p + p13, p + p14) == f6
            &&& s.subrange(p + p14, p + p15) == t_max
            &&& s.subrange(p + p15, p + p16) == f7
            &&& s.subrange(p + p16, p + p17) == t_min
            &&& s.subrange(p + p17, p + p18) == f8
            &&& s.subrange(p + p18, p + p19) == t_sum
            &&& s.subrange(p + p19, p + p20) == f9
            &&& s.subrange(p + p20, p + p21) == t_avg
            &&& s.subrange(p + p21, p + p22) == f10
            &&& s.subrange(p + p22, p + p23) == t_tps_flow
            &&& s.subrange(p + p23, p + p24) == f11
            &&& s.subrange(p + p24, p + p25) == t_tps
            &&& s.subrange(p + p25, p + spec_ser_flow(u).len()) == l7
            &&& s[p + p4] == '"'
            &&& s[p + p7] == '"'
            &&& s[p + p10] == '"'
            &&& s[p + p2] == '"'
            &&& s[p + p13] == ','
            &&& s[p + p15] == ','
            &&& s[p + p17] == ','
            &&& s[p + p19] == ','
            &&& s[p + p21] == ','
            &&& s[p + p23] == ','
            &&& s[p + p25] == '}'
        }),
{
    reveal_strlit("{\"send_timestamp\":\"");
    reveal_strlit("\",\"public_ip\":\"");
    reveal_strlit(",\"category\":\"");
    reveal_strlit(",\"tag\":\"");
    reveal_strlit(",\"count\":");
    reveal_strlit(",\"max_flow\":");
    reveal_strlit(",\"min_flow\":");
    reveal_strlit(",\"sum_flow\":");
    reveal_strlit(",\"avg_flow\":");
    reveal_strlit(",\"tps_flow\":");
    reveal_strlit(",\"tps\":");
    reveal_strlit("}");
    let l1 = "{\"send_timestamp\":\""@;
    let l2 = "\",\"public_ip\":\""@;
    let l3 = ",\"category\":\""@;
    let l4 = ",\"tag\":\""@;
    let l5 = ",\"count\":"@;
    let f6 = ",\"max_flow\":"@;
    let f7 = ",\"min_flow\":"@;
    let f8 = ",\"sum_flow\":"@;
    let f9 = ",\"avg_flow\":"@;
    let f10 = ",\"tps_flow\":"@;
    let f11 = ",\"tps\":"@;
    let l7 = "}"@;
    let q = seq!['"'];
    let t_ts = dec_seq(u.spec_ts() as nat);
    let ipt = u.spec_ip().spec_text();
    let cat = u.spec_category();
    let tag = u.spec_tag();
    let t_cnt = dec_seq(u.spec_count() as nat);
    let t_max = dec_seq_i64(u.spec_max() as int);
    let t_min = dec_seq_i64(u.spec_min() as int);
    let t_sum = dec_seq_i64(u.spec_sum() as int);
    let t_avg = dec_seq_i64(u.spec_avg() as int);
    let t_tps_flow = dec_seq_i64(u.spec_tps_flow() as int);
    let t_tps = u.spec_tps();
    let p1 = l1.len() as int;
    let p2 = p1 + t_ts.len();
    let p3 = p2 + l2.len();
    let p4 = p3 + ipt.len();
    let p5 = p4 + 1;
    let p6 = p5 + l3.len();
    let p7 = p6 + cat.len();
    let p8 = p7 + 1;
    let p9 = p8 + l4.len();
    let p10 = p9 + tag.len();
    let p11 = p10 + 1;
    let p12 = p11 + l5.len();
    let p13 = p12 + t_cnt.len();
    let p14 = p13 + f6.len();
    let p15 = p14 + t_max.len();
    let p16 = p15 + f7.len();
    let p17 = p16 + t_min.len();
    let p18 = p17 + f8.len();
    let p19 = p18 + t_sum.len();
    let p20 = p19 + f9.len();
    let p21 = p20 + t_avg.len();
    let p22 = p21 + f10.len();
    let p23 = p22 + t_tps_flow.len();
    let p24 = p23 + f11.len();
    let p25 = p24 + t_tps.len();
    let a1 = l1 + t_ts;
    let a2 = a1 + l2;
    let a3 = a2 + ipt;
    let a4 = a3 + q;
    let a5 = a4 + l3;
    let a6 = a5 + cat;
    let a7 = a6 + q;
    let a8 = a7 + l4;
    let a9 = a8 + tag;
    let a10 = a9 + q;
    let a11 = a10 + l5;
    let a12 = a11 + t_cnt;
    let a13 = a12 + f6;
    let a14 = a13 + t_max;
    let a15 = a14 + f7;
    let a16 = a15 + t_min;
    let a17 = a16 + f8;
    let a18 = a17 + t_sum;
    let a19 = a18 + f9;
    let a20 = a19 + t_avg;
    let a21 = a20 + f10;
    let a22 = a21 + t_tps_flow;
    let a23 = a22 + f11;
    let a24 = a23 + t_tps;
    let w = a24 + l7;
    assert(w == spec_ser_flow(u));
    assert(w.len() == p25 + 1);
    assert({
        let l1 = "{\"send_timestamp\":\""@;
        let l2 = "\",\"public_ip\":\""@;
        let l3 = ",\"category\":\""@;
        let l4 = ",\"tag\":\""@;
        let l5 = ",\"count\":"@;
        let f6 = ",\"max_flow\":"@;
        let f7 = ",\"min_flow\":"@;
        let f8 = ",\"sum_flow\":"@;
        let f9 = ",\"avg_flow\":"@;
        let f10 = ",\"tps_flow\":"@;
        let f11 = ",\"tps\":"@;
        let l7 = "}"@;
        let q = seq!['"'];
        let t_ts = dec_seq(u.spec_ts() as nat);
        let ipt = u.spec_ip().spec_text();
        let cat = u.spec_category();
        let tag = u.spec_tag();
        let t_cnt = dec_seq(u.spec_count() as nat);
        let t_max = dec_seq_i64(u.spec_max() as int);
        let t_min = dec_seq_i64(u.spec_min() as int);
        let t_sum = dec_seq_i64(u.spec_sum() as int);
        let t_avg = dec_seq_i64(u.spec_avg() as int);
        let t_tps_flow = dec_seq_i64(u.spec_tps_flow() as int);
        let t_tps = u.spec_tps();
        let p1 = l1.len() as int;
        let p2 = p1 + t_ts.len();
        let p3 = p2 + l2.len();
        let p4 = p3 + ipt.len();
        let p5 = p4 + 1;
        let p6 = p5 + l3.len();
        let p7 = p6 + cat.len();
        let p8 = p7 + 1;
        let p9 = p8 + l4.len();
        let p10 = p9 + tag.len();
        let p11 = p10 + 1;
        let p12 = p11 + l5.len();
        let p13 = p12 + t_cnt.len();
        let p14 = p13 + f6.len();
        let p15 = p14 + t_max.len();
        let p16 = p15 + f7.len();
        let p17 = p16 + t_min.len();
        let p18 = p17 + f8.len();
        let p19 = p18 + t_sum.len();
        let p20 = p19 + f9.len();
        let p21 = p20 + t_avg.len();
        let p22 = p21 + f10.len();
        let p23 = p22 + t_tps_flow.len();
        let p24 = p23 + f11.len();
        let p25 = p24 + t_tps.len();
        &&& s.subrange(p + 0, p + p1) == l1
            &&& s.subrange(p + p1, p + p2) == t_ts
            &&& s.subrange(p + p2, p + p3) == l2
            &&& s.subrange(p + p3, p + p4) == ipt
            &&& s.subrange(p + p4, p + p5) == q
            &&& s.subrange(p + p5, p + p6) == l3
            &&& s.subrange(p + p6, p + p7) == cat
            &&& s.subrange(p + p7, p + p8) == q
            &&& s.subrange(p + p8, p + p9) == l4
            &&& s.subrange(p + p9, p + p10) == tag
            &&& s.subrange(p + p10, p + p11) == q
            &&& s.subrange(p + p11, p + p12) == l5
            &&& s.subrange(p + p12, p + p13) == t_cnt
            &&& s.subrange(p + p13, p + p14) == f6
            &&& s.subrange(p + p14, p + p15) == t_max
            &&& s.subrange(p + p15, p + p16) == f7
            &&& s.subrange(p + p16, p + p17) == t_min
            &&& s.subrange(p + p17, p + p18) == f8
            &&& s.subrange(p + p18, p + p19) == t_sum
            &&& s.subrange(p + p19, p + p20) == f9
            &&& s.subrange(p + p20, p + p21) == t_avg
            &&& s.subrange(p + p21, p + p22) == f10
            &&& s.subrange(p + p22, p + p23) == t_tps_flow
            &&& s.subrange(p + p23, p + p24) == f11
            &&& s.subrange(p + p24, p + p25) == t_tps
            &&& s.subrange(p + p25, p + spec_ser_flow(u).len()) == l7
    }) by {
        lemma_concat_parts(l1, t_ts);
        lemma_concat_parts(a1, l2);
        lemma_concat_parts(a2, ipt);
        lemma_concat_parts(a3, q);
        lemma_concat_parts(a4, l3);
        lemma_concat_parts(a5, cat);
        lemma_concat_parts(a6, q);
        lemma_concat_parts(a7, l4);
        lemma_concat_parts(a8, tag);
        lemma_concat_parts(a9, q);
        lemma_concat_parts(a10, l5);
        lemma_concat_parts(a11, t_cnt);
        lemma_concat_parts(a12, f6);
        lemma_concat_parts(a13, t_max);
        lemma_concat_parts(a14, f7);
        lemma_concat_parts(a15, t_min);
        lemma_concat_parts(a16, f8);
        lemma_concat_parts(a17, t_sum);
        lemma_concat_parts(a18, f9);
        lemma_concat_parts(a19, t_avg);
        lemma_concat_parts(a20, f10);
        lemma_concat_parts(a21, t_tps_flow);
        lemma_concat_parts(a22, f11);
        lemma_concat_parts(a23, t_tps);
        lemma_concat_parts(a24, l7);
        assert(w.subrange(0, p1) == l1);
        assert(w.subrange(p1, p2) == t_ts);
        assert(w.subrange(p2, p3) == l2);
        assert(w.subrange(p3, p4) == ipt);
        assert(w.subrange(p4, p5) == q);
        assert(w.subrange(p5, p6) == l3);
        assert(w.subrange(p6, p7) == cat);
        assert(w.subrange(p7, p8) == q);
        assert(w.subrange(p8, p9) == l4);
        assert(w.subrange(p9, p10) == tag);
        assert(w.subrange(p10, p11) == q);
        assert(w.subrange(p11, p12) == l5);
        assert(w.subrange(p12, p13) == t_cnt);
        assert(w.subrange(p13, p14) == f6);
        assert(w.subrange(p14, p15) == t_max);
        assert(w.subrange(p15, p16) == f7);
        assert(w.subrange(p16, p17) == t_min);
        assert(w.subrange(p17, p18) == f8);
        assert(w.subrange(p18, p19) == t_sum);
        assert(w.subrange(p19, p20) == f9);
        assert(w.subrange(p20, p21) == t_avg);
        assert(w.subrange(p21, p22) == f10);
        assert(w.subrange(p22, p23) == t_tps_flow);
        assert(w.subrange(p23, p24) == f11);
        assert(w.subrange(p24, p25) == t_tps);
        assert(w.subrange(p25, w.len() as int) == l7);
        lemma_transfer_piece(s, p, w, 0, p1, l1);
        lemma_transfer_piece(s, p, w, p1, p2, t_ts);
        lemma_transfer_piece(s, p, w, p2, p3, l2);
        lemma_transfer_piece(s, p, w, p3, p4, ipt);
        lemma_transfer_piece(s, p, w, p4, p5, q);
        lemma_transfer_piece(s, p, w, p5, p6, l3);
        lemma_transfer_piece(s, p, w, p6, p7, cat);
        lemma_transfer_piece(s, p, w, p7, p8, q);
        lemma_transfer_piece(s, p, w, p8, p9, l4);
        lemma_transfer_piece(s, p, w, p9, p10, tag);
        lemma_transfer_piece(s, p, w, p10, p11, q);
        lemma_transfer_piece(s, p, w, p11, p12, l5);
        lemma_transfer_piece(s, p, w, p12, p13, t_cnt);
        lemma_transfer_piece(s, p, w, p13, p14, f6);
        lemma_transfer_piece(s, p, w, p14, p15, t_max);
        lemma_transfer_piece(s, p, w, p15, p16, f7);
        lemma_transfer_piece(s, p, w, p16, p17, t_min);
        lemma_transfer_piece(s, p, w, p17, p18, f8);
        lemma_transfer_piece(s, p, w, p18, p19, t_sum);
        lemma_transfer_piece(s, p, w, p19, p20, f9);
        lemma_transfer_piece(s, p, w, p20, p21, t_avg);
        lemma_transfer_piece(s, p, w, p21, p22, f10);
        lemma_transfer_piece(s, p, w, p22, p23, t_tps_flow);
        lemma_transfer_piece(s, p, w, p23, p24, f11);
        lemma_transfer_piece(s, p, w, p24, p25, t_tps);
        lemma_transfer_piece(s, p, w, p25, w.len() as int, l7);
    }
    assert(s[p + p4] == '"') by {
            assert(s.subrange(p + p4, p + p5)[0] == '"');
        }
        assert(s[p + p7] == '"') by {
            assert(s.subrange(p + p7, p + p8)[0] == '"');
        }
        assert(s[p + p10] == '"') by {
            assert(s.subrange(p + p10, p + p11)[0] == '"');
        }
        assert(s[p + p2] == '"') by {
            assert(s.subrange(p + p2, p + p3)[0] == l2[0]);
        }
        assert(s[p + p13] == ',') by {
            assert(s.subrange(p + p13, p + p14)[0] == f6[0]);
        }
        assert(s[p + p15] == ',') by {
            assert(s.subrange(p + p15, p + p16)[0] == f7[0]);
        }
        assert(s[p + p17] == ',') by {
            assert(s.subrange(p + p17, p + p18)[0] == f8[0]);
        }
        assert(s[p + p19] == ',') by {
            assert(s.subrange(p + p19, p + p20)[0] == f9[0]);
        }
        assert(s[p + p21] == ',') by {
            assert(s.subrange(p + p21, p + p22)[0] == f10[0]);
        }
        assert(s[p + p23] == ',') by {
            assert(s.subrange(p + p23, p + p24)[0] == f11[0]);
        }
        assert(s[p + p25] == '}') by {
            assert(s.subrange(p + p25, p + p25 + 1)[0] == l7[0]);
        }
}

/// The wire text of a well-formed flow record, standing anywhere inside
/// a larger text, parses back to the record's own fields.
#[verifier::rlimit(100)]
#[verifier::spinoff_prover]
pub proof fn lemma_flow_ser_embed(s: Seq<char>, p: int, u: FlowUnit)
    requires
        u.wf(),
        0 <= p,
        p + spec_ser_flow(u).len() <= s.len(),
        s.subrange(p, p + spec_ser_flow(u).len()) == spec_ser_flow(u),
    ensures
        spec_parse_flow_at(s, p) matches Some((t, j)) && j == p + spec_ser_flow(
            u).len() && flow_matches(u, t),
{
    reveal_strlit("{\"send_timestamp\":\"");
    reveal_strlit("\",\"public_ip\":\"");
    reveal_strlit(",\"category\":\"");
    reveal_strlit(",\"tag\":\"");
    reveal_strlit(",\"count\":");
    reveal_strlit(",\"max_flow\":");
    reveal_strlit(",\"min_flow\":");
    reveal_strlit(",\"sum_flow\":");
    reveal_strlit(",\"avg_flow\":");
    reveal_strlit(",\"tps_flow\":");
    reveal_strlit(",\"tps\":");
    reveal_strlit("}");
    let l1 = "{\"send_timestamp\":\""@;
    let l2 = "\",\"public_ip\":\""@;
    let l3 = ",\"category\":\""@;
    let l4 = ",\"tag\":\""@;
    let l5 = ",\"count\":"@;
    let f6 = ",\"max_flow\":"@;
    let f7 = ",\"min_flow\":"@;
    let f8 = ",\"sum_flow\":"@;
    let f9 = ",\"avg_flow\":"@;
    let f10 = ",\"tps_flow\":"@;
    let f11 = ",\"tps\":"@;
    let l7 = "}"@;
    let q = seq!['"'];
    let t_ts = dec_seq(u.spec_ts() as nat);
    let ipt = u.spec_ip().spec_text();
    let cat = u.spec_category();
    let tag = u.spec_tag();
    let t_cnt = dec_seq(u.spec_count() as nat);
    let t_max = dec_seq_i64(u.spec_max() as int);
    let t_min = dec_seq_i64(u.spec_min() as int);
    let t_sum = dec_seq_i64(u.spec_sum() as int);
    let t_avg = dec_seq_i64(u.spec_avg() as int);
    let t_tps_flow = dec_seq_i64(u.spec_tps_flow() as int);
    let t_tps = u.spec_tps();
    let p1 = l1.len() as int;
    let p2 = p1 + t_ts.len();
    let p3 = p2 + l2.len();
    let p4 = p3 + ipt.len();
    let p5 = p4 + 1;
    let p6 = p5 + l3.len();
    let p7 = p6 + cat.len();
    let p8 = p7 + 1;
    let p9 = p8 + l4.len();
    let p10 = p9 + tag.len();
    let p11 = p10 + 1;
    let p12 = p11 + l5.len();
    let p13 = p12 + t_cnt.len();
    let p14 = p13 + f6.len();
    let p15 = p14 + t_max.len();
    let p16 = p15 + f7.len();
    let p17 = p16 + t_min.len();
    let p18 = p17 + f8.len();
    let p19 = p18 + t_sum.len();
    let p20 = p19 + f9.len();
    let p21 = p20 + t_avg.len();
    let p22 = p21 + f10.len();
    let p23 = p22 + t_tps_flow.len();
    let p24 = p23 + f11.len();
    let p25 = p24 + t_tps.len();
    lemma_flow_layout(s, p, u);
    assert(spec_ser_flow(u).len() == p25 + 1);
    lemma_spec_lit_embed(s, p, l1);
    lemma_spec_u64_embed(s, p + p1, u.spec_ts() as u64);
    lemma_spec_lit_embed(s, p + p2, l2);
    lemma_spec_ip_embed(s, p + p3, u.spec_ip());
    lemma_spec_lit_embed(s, p + p5, l3);
    lemma_spec_str_embed(s, p + p6, cat);
    lemma_spec_lit_embed(s, p + p8, l4);
    lemma_spec_str_embed(s, p + p9, tag);
    lemma_spec_lit_embed(s, p + p11, l5);
    lemma_spec_u64_embed(s, p + p12, u.spec_count());
    lemma_spec_lit_embed(s, p + p13, f6);
    lemma_spec_i64_embed(s, p + p14, u.spec_max());
    lemma_spec_lit_embed(s, p + p15, f7);
    lemma_spec_i64_embed(s, p + p16, u.spec_min());
    lemma_spec_lit_embed(s, p + p17, f8);
    lemma_spec_i64_embed(s, p + p18, u.spec_sum());
    lemma_spec_lit_embed(s, p + p19, f9);
    lemma_spec_i64_embed(s, p + p20, u.spec_avg());
    lemma_spec_lit_embed(s, p + p21, f10);
    lemma_spec_i64_embed(s, p + p22, u.spec_tps_flow());
    lemma_spec_lit_embed(s, p + p23, f11);
    lemma_spec_number_embed(s, p + p24, u.spec_tps());
    lemma_spec_lit_embed(s, p + p25, l7);
    assert(spec_parse_flow_at(s, p) matches Some((t, j)) && j == p + spec_ser_flow(
        u).len() && flow_matches(u, t));
}

/// Serializing a well-formed flow record and reading the text back
/// yields the record's own fields, and nothing is left over.
pub proof fn lemma_flow_wire_round_trip(u: FlowUnit)
    requires
        u.wf(),
    ensures
        spec_from_wire_flow(spec_ser_flow(u)) matches Some(t) && flow_matches(u, t),
{
    let s = spec_ser_flow(u);
    assert(s.subrange(0, s.len() as int) =~= s);
    lemma_flow_ser_embed(s, 0, u);
}


impl FlowUnit {
    /// Writes this record in its wire form.
    pub fn to_wire(&self) -> (r: String)
        ensures
            r@ == spec_ser_flow(*self),
    {
        let mut s: String = String::from_str("{\"send_timestamp\":\"");
        let ts: String = u64_to_string(self.send_timestamp().data() as u64);
        s.append(ts.as_str());
        s.append("\",\"public_ip\":\"");
        let ip: String = self.public_ip().to_string();
        s.append(ip.as_str());
        crate::text::push_char(&mut s, '"');
        s.append(",\"category\":\"");
        s.append(self.category());
        crate::text::push_char(&mut s, '"');
        s.append(",\"tag\":\"");
        s.append(self.tag());
        crate::text::push_char(&mut s, '"');
        s.append(",\"count\":");
        let cnt: String = u64_to_string(self.count());
        s.append(cnt.as_str());
        s.append(",\"max_flow\":");
        let x_max: String = i64_to_string(self.max_flow());
        s.append(x_max.as_str());
        s.append(",\"min_flow\":");
        let x_min: String = i64_to_string(self.min_flow());
        s.append(x_min.as_str());
        s.append(",\"sum_flow\":");
        let x_sum: String = i64_to_string(self.sum_flow());
        s.append(x_sum.as_str());
        s.append(",\"avg_flow\":");
        let x_avg: String = i64_to_string(self.avg_flow());
        s.append(x_avg.as_str());
        s.append(",\"tps_flow\":");
        let x_tps_flow: String = i64_to_string(self.tps_flow());
        s.append(x_tps_flow.as_str());
        s.append(",\"tps\":");
        s.append(self.tps());
        s.append("}");
        proof {
            assert(s@ =~= spec_ser_flow(*self));
        }
        s
    }

    /// Reads a flow record from its wire form. The result mirrors the
    /// wire grammar exactly, and every well-formed record is recovered from
    /// its own wire text.
    pub fn from_wire(s: &str) -> (r: Option<FlowUnit>)
        ensures
            r is Some <==> spec_from_wire_flow(s@) is Some,
            r matches Some(u) ==> (spec_from_wire_flow(s@) matches Some(t)
                && flow_matches(u, t) && u.wf()),
            forall|u: FlowUnit| u.wf() && s@ == #[trigger] spec_ser_flow(u) ==> (
            r matches Some(u2) && flow_eq(u2, u)),
    {
        let v: Vec<char> = str_to_chars(s);
        let r: Option<FlowUnit> = match parse_flow_at(&v, 0) {
            Some((u, j)) => {
                if j == v.len() {
                    Some(u)
                } else {
                    None
                }
            },
            None => None,
        };
        proof {
            assert forall|u: FlowUnit| u.wf() && s@ == #[trigger] spec_ser_flow(u)
                implies (r matches Some(u2) && flow_eq(u2, u)) by {
                lemma_flow_wire_round_trip(u);
            }
        }
        r
    }
}


/// Reads a flow record starting at `i`; returns it and the position
/// after its closing brace.
#[verifier::rlimit(100)]
#[verifier::spinoff_prover]
fn parse_flow_at(v: &Vec<char>, i: usize) -> (r: Option<(FlowUnit, usize)>)
    requires
        i <= v@.len(),
    ensures
        r is Some <==> spec_parse_flow_at(v@, i as int) is Some,
        r matches Some((u, j)) ==> (spec_parse_flow_at(v@, i as int) matches Some(
            (t, jj)) && j == jj && flow_matches(u, t) && u.wf() && j <= v@.len()),
{
    let i1: usize = match expect_lit(v, i, "{\"send_timestamp\":\"") {
        Some(x) => x,
        None => {
            return None;
        },
    };
    let (ts64, i2): (u64, usize) = match parse_u64_at(v, i1) {
        Some(x) => x,
        None => {
            return None;
        },
    };
    if ts64 > 0xffff_ffffu64 {
        return None;
    }
    let i3: usize = match expect_lit(v, i2, "\",\"public_ip\":\"") {
        Some(x) => x,
        None => {
            return None;
        },
    };
    let (ip, i4): (IpAddress, usize) = match scan_string_at(v, i3) {
        Some((t, j)) => {
            match IpAddress::from_str(t.as_str()) {
                Ok(a) => (a, j),
                Err(_) => {
                    return None;
                },
            }
        },
        None => {
            return None;
        },
    };
    let i5: usize = match expect_lit(v, i4, ",\"category\":\"") {
        Some(x) => x,
        None => {
            return None;
        },
    };
    let (cat, i6): (String, usize) = match scan_string_at(v, i5) {
        Some(x) => x,
        None => {
            return None;
        },
    };
    let i7: usize = match expect_lit(v, i6, ",\"tag\":\"") {
        Some(x) => x,
        None => {
            return None;
        },
    };
    let (tag, i8): (String, usize) = match scan_string_at(v, i7) {
        Some(x) => x,
        None => {
            return None;
        },
    };
    let i9: usize = match expect_lit(v, i8, ",\"count\":") {
        Some(x) => x,
        None => {
            return None;
        },
    };
    let (count, i10): (u64, usize) = match parse_u64_at(v, i9) {
        Some(x) => x,
        None => {
            return None;
        },
    };
    let i11: usize = match expect_lit(v, i10, ",\"max_flow\":") {
        Some(x) => x,
        None => {
            return None;
        },
    };
    let (x_max, i12): (i64, usize) = match parse_i64_at(v, i11) {
        Some(x) => x,
        None => {
            return None;
        },
    };
    let i13: usize = match expect_lit(v, i12, ",\"min_flow\":") {
        Some(x) => x,
        None => {
            return None;
        },
    };
    let (x_min, i14): (i64, usize) = match parse_i64_at(v, i13) {
        Some(x) => x,
        None => {
            return None;
        },
    };
    let i15: usize = match expect_lit(v, i14, ",\"sum_flow\":") {
        Some(x) => x,
        None => {
            return None;
        },
    };
    let (x_sum, i16): (i64, usize) = match parse_i64_at(v, i15) {
        Some(x) => x,
        None => {
            return None;
        },
    };
    let i17: usize = match expect_lit(v, i16, ",\"avg_flow\":") {
        Some(x) => x,
        None => {
            return None;
        },
    };
    let (x_avg, i18): (i64, usize) = match parse_i64_at(v, i17) {
        Some(x) => x,
        None => {
            return None;
        },
    };
    let i19: usize = match expect_lit(v, i18, ",\"tps_flow\":") {
        Some(x) => x,
        None => {
            return None;
        },
    };
    let (x_tps_flow, i20): (i64, usize) = match parse_i64_at(v, i19) {
        Some(x) => x,
        None => {
            return None;
        },
    };
    let i21: usize = match expect_lit(v, i20, ",\"tps\":") {
        Some(x) => x,
        None => {
            return None;
        },
    };
    let (x_tps, i22): (String, usize) = match scan_number_at(v, i21) {
        Some(x) => x,
        None => {
            return None;
        },
    };
    let i23: usize = match expect_lit(v, i22, "}") {
        Some(x) => x,
        None => {
            return None;
        },
    };
    let u: FlowUnit = FlowUnit::assemble(
        TimeStamp::new(ts64 as u32),
        ip,
        cat,
        tag,
        count,
        x_max,
        x_min,
        x_sum,
        x_avg,
        x_tps_flow,
        x_tps,
    );
    proof {
        let s = v@;
        assert(spec_lit_at(s, i as int, "{\"send_timestamp\":\""@) == Some(i1 as int));
        assert(spec_u64_at(s, i1 as int) == Some((ts64, i2 as int)));
        assert(spec_lit_at(s, i2 as int, "\",\"public_ip\":\""@) == Some(i3 as int));
        assert(spec_ip_at(s, i3 as int) matches Some((t, p, j)) && t == ip.spec_ip()
            && p == ip.spec_port() && j == i4 as int);
        assert(spec_lit_at(s, i4 as int, ",\"category\":\""@) == Some(i5 as int));
        assert(spec_str_at(s, i5 as int) == Some((cat@, i6 as int)));
        assert(spec_lit_at(s, i6 as int, ",\"tag\":\""@) == Some(i7 as int));
        assert(spec_str_at(s, i7 as int) == Some((tag@, i8 as int)));
        assert(spec_lit_at(s, i8 as int, ",\"count\":"@) == Some(i9 as int));
        assert(spec_u64_at(s, i9 as int) == Some((count, i10 as int)));
        assert(spec_lit_at(s, i10 as int, ",\"max_flow\":"@) == Some(i11 as int));
        assert(spec_i64_at(s, i11 as int) == Some((x_max, i12 as int)));
        assert(spec_lit_at(s, i12 as int, ",\"min_flow\":"@) == Some(i13 as int));
        assert(spec_i64_at(s, i13 as int) == Some((x_min, i14 as int)));
        assert(spec_lit_at(s, i14 as int, ",\"sum_flow\":"@) == Some(i15 as int));
        assert(spec_i64_at(s, i15 as int) == Some((x_sum, i16 as int)));
        assert(spec_lit_at(s, i16 as int, ",\"avg_flow\":"@) == Some(i17 as int));
        assert(spec_i64_at(s, i17 as int) == Some((x_avg, i18 as int)));
        assert(spec_lit_at(s, i18 as int, ",\"tps_flow\":"@) == Some(i19 as int));
        assert(spec_i64_at(s, i19 as int) == Some((x_tps_flow, i20 as int)));
        assert(spec_lit_at(s, i20 as int, ",\"tps\":"@) == Some(i21 as int));
        assert(spec_number_at(s, i21 as int) == Some((x_tps@, i22 as int)));
        assert(spec_lit_at(s, i22 as int, "}"@) == Some(i23 as int));
        assert(spec_parse_flow_at(s, i as int) matches Some((t, jj)) && jj == i23
            && flow_matches(u, t));
    }
    Some((u, i23))
}


/// The wire text of a counter envelope: the kind name, the tenant, and the
/// record itself as `content`.
pub open spec fn spec_ser_counter_env(w: AlarmWrapper<CounterUnit>) -> Seq<char> {
    "{\"alarm_type\":\"counter\",\"env\":\""@ + w.env@ + seq!['"'] + ",\"content\":"@ + spec_ser_counter(w.content) + "}"@
}

/// The envelope can be written on the wire and read back: it carries its
/// own kind, a clean tenant name, and a well-formed record.
pub open spec fn wf_counter_env(w: AlarmWrapper<CounterUnit>) -> bool {
    &&& w.alarm_type == MetricsAlarmType::Counter
    &&& clean_text(w.env@)
    &&& w.content.wf()
}

/// The parsed fields of a counter envelope's wire text: the tenant name and
/// the record's fields.
pub open spec fn spec_parse_counter_env_at(s: Seq<char>, i: int) -> Option<
    ((Seq<char>, (u32, Seq<char>, u64, Seq<char>, Seq<char>, u64, i64)), int),
> {
    match spec_lit_at(s, i, "{\"alarm_type\":\"counter\",\"env\":\""@) {
        None => None,
        Some(i1) => match spec_str_at(s, i1) {
            None => None,
            Some((env, i2)) => match spec_lit_at(s, i2, ",\"content\":"@) {
                None => None,
                Some(i3) => match spec_parse_counter_at(s, i3) {
                    None => None,
                    Some((t, i4)) => match spec_lit_at(s, i4, "}"@) {
                        None => None,
                        Some(i5) => Some(((env, t), i5)),
                    },
                },
            },
        },
    }
}

/// The parsed fields of a whole counter envelope wire text: the parse must
/// consume everything.
pub open spec fn spec_from_wire_counter_env(s: Seq<char>) -> Option<(Seq<char>, (u32, Seq<char>, u64, Seq<char>, Seq<char>, u64, i64))> {
    match spec_parse_counter_env_at(s, 0) {
        Some((t, j)) => if j == s.len() {
            Some(t)
        } else {
            None
        },
        None => None,
    }
}

/// A counter envelope's fields match the parsed pair.
pub open spec fn counter_env_matches(w: AlarmWrapper<CounterUnit>, t: (Seq<char>, (u32, Seq<char>, u64, Seq<char>, Seq<char>, u64, i64))) -> bool {
    &&& w.env@ == t.0
    &&& counter_matches(w.content, t.1)
}

/// The two counter envelopes hold the same kind, tenant and fields.
pub open spec fn counter_env_eq(a: AlarmWrapper<CounterUnit>, b: AlarmWrapper<CounterUnit>) -> bool {
    &&& a.alarm_type == b.alarm_type
    &&& a.env@ == b.env@
    &&& counter_eq(a.content, b.content)
}

/// Serializing a well-formed counter envelope and reading the text back
/// yields the envelope's own tenant and fields, and nothing is left over.
#[verifier::rlimit(50)]
pub proof fn lemma_counter_env_wire_round_trip(w: AlarmWrapper<CounterUnit>)
    requires
        wf_counter_env(w),
    ensures
        spec_from_wire_counter_env(spec_ser_counter_env(w)) matches Some(t)
            && counter_env_matches(w, t),
{
    let e1 = "{\"alarm_type\":\"counter\",\"env\":\""@;
    let e2 = ",\"content\":"@;
    let l7 = "}"@;
    let q = seq!['"'];
    reveal_strlit("{\"alarm_type\":\"counter\",\"env\":\"");
    reveal_strlit(",\"content\":");
    reveal_strlit("}");
    let env = w.env@;
    let us = spec_ser_counter(w.content);
    let b1 = e1 + env;
    let b2 = b1 + q;
    let b3 = b2 + e2;
    let b4 = b3 + us;
    let s = b4 + l7;
    assert(s == spec_ser_counter_env(w));
    lemma_concat_parts(e1, env);
    lemma_concat_parts(b1, q);
    lemma_concat_parts(b2, e2);
    lemma_concat_parts(b3, us);
    lemma_concat_parts(b4, l7);
    let p1 = e1.len() as int;
    let p2 = p1 + env.len();
    let p3 = p2 + 1;
    let p4 = p3 + e2.len();
    let p5 = p4 + us.len();
    assert(s.len() == p5 + 1);
    assert(s.subrange(0, p1) == e1);
    assert(s.subrange(p1, p2) == env);
    assert(s.subrange(p2, p3) == q);
    assert(s.subrange(p3, p4) == e2);
    assert(s.subrange(p4, p5) == us);
    assert(s.subrange(p5, s.len() as int) == l7);
    assert(s[p2] == '"') by {
        assert(s.subrange(p2, p3)[0] == '"');
    }
    lemma_spec_lit_embed(s, 0, e1);
    lemma_spec_str_embed(s, p1, env);
    lemma_spec_lit_embed(s, p3, e2);
    lemma_counter_ser_embed(s, p4, w.content);
    lemma_spec_lit_embed(s, p5, l7);
    assert(spec_parse_counter_env_at(s, 0) matches Some((t, j)) && j == s.len()
        && counter_env_matches(w, t));
}

impl AlarmWrapper<CounterUnit> {
    /// Writes this envelope in its wire form.
    pub fn to_wire(&self) -> (r: String)
        ensures
            r@ == spec_ser_counter_env(*self),
    {
        let mut s: String = String::from_str("{\"alarm_type\":\"counter\",\"env\":\"");
        s.append(self.env.as_str());
        crate::text::push_char(&mut s, '"');
        s.append(",\"content\":");
        let c: String = self.content.to_wire();
        s.append(c.as_str());
        s.append("}");
        proof {
            assert(s@ =~= spec_ser_counter_env(*self));
        }
        s
    }

    /// Reads a counter envelope from its wire form. The result mirrors the
    /// wire grammar exactly, and every well-formed envelope is recovered
    /// from its own wire text.
    pub fn from_wire(s: &str) -> (r: Option<AlarmWrapper<CounterUnit>>)
        ensures
            r is Some <==> spec_from_wire_counter_env(s@) is Some,
            r matches Some(w) ==> (spec_from_wire_counter_env(s@) matches Some(t)
                && counter_env_matches(w, t) && wf_counter_env(w)),
            forall|w: AlarmWrapper<CounterUnit>|
                wf_counter_env(w) && s@ == #[trigger] spec_ser_counter_env(w) ==> (
                r matches Some(w2) && counter_env_eq(w2, w)),
    {
        let v: Vec<char> = str_to_chars(s);
        let r: Option<AlarmWrapper<CounterUnit>> = parse_counter_env(&v);
        proof {
            assert forall|w: AlarmWrapper<CounterUnit>|
                wf_counter_env(w) && s@ == #[trigger] spec_ser_counter_env(w)
                implies (r matches Some(w2) && counter_env_eq(w2, w)) by {
                lemma_counter_env_wire_round_trip(w);
            }
        }
        r
    }
}

/// Reads a whole counter envelope from characters.
fn parse_counter_env(v: &Vec<char>) -> (r: Option<AlarmWrapper<CounterUnit>>)
    ensures
        r is Some <==> spec_from_wire_counter_env(v@) is Some,
        r matches Some(w) ==> (spec_from_wire_counter_env(v@) matches Some(t)
            && counter_env_matches(w, t) && wf_counter_env(w)),
{
    let i1: usize = match expect_lit(v, 0, "{\"alarm_type\":\"counter\",\"env\":\"") {
        Some(x) => x,
        None => {
            return None;
        },
    };
    let (env, i2): (String, usize) = match scan_string_at(v, i1) {
        Some(x) => x,
        None => {
            return None;
        },
    };
    let i3: usize = match expect_lit(v, i2, ",\"content\":") {
        Some(x) => x,
        None => {
            return None;
        },
    };
    let (u, i4): (CounterUnit, usize) = match parse_counter_at(v, i3) {
        Some(x) => x,
        None => {
            return None;
        },
    };
    let i5: usize = match expect_lit(v, i4, "}") {
        Some(x) => x,
        None => {
            return None;
        },
    };
    if i5 != v.len() {
        return None;
    }
    let w: AlarmWrapper<CounterUnit> = AlarmWrapper {
        alarm_type: MetricsAlarmType::Counter,
        env,
        content: u,
    };
    proof {
        let s = v@;
        assert(spec_lit_at(s, 0, "{\"alarm_type\":\"counter\",\"env\":\""@) == Some(i1 as int));
        assert(spec_str_at(s, i1 as int) == Some((env@, i2 as int)));
        assert(spec_lit_at(s, i2 as int, ",\"content\":"@) == Some(i3 as int));
        assert(spec_parse_counter_at(s, i3 as int) matches Some((t, jj)) && jj == i4
            && counter_matches(u, t));
        assert(spec_lit_at(s, i4 as int, "}"@) == Some(i5 as int));
        assert(spec_parse_counter_env_at(s, 0) matches Some((t, jj)) && jj == i5
            && counter_env_matches(w, t));
    }
    Some(w)
}


/// The wire text of a timer envelope: the kind name, the tenant, and the
/// record itself as `content`.
pub open spec fn spec_ser_timer_env(w: AlarmWrapper<TimerUnit>) -> Seq<char> {
    "{\"alarm_type\":\"timer\",\"env\":\""@ + w.env@ + seq!['"'] + ",\"content\":"@ + spec_ser_timer(w.content) + "}"@
}

/// The envelope can be written on the wire and read back: it carries its
/// own kind, a clean tenant name, and a well-formed record.
pub open spec fn wf_timer_env(w: AlarmWrapper<TimerUnit>) -> bool {
    &&& w.alarm_type == MetricsAlarmType::Timer
    &&& clean_text(w.env@)
    &&& w.content.wf()
}

/// The parsed fields of a timer envelope's wire text: the tenant name and
/// the record's fields.
pub open spec fn spec_parse_timer_env_at(s: Seq<char>, i: int) -> Option<
    ((Seq<char>, ((u32, Seq<char>, u64, Seq<char>, Seq<char>), (u64, u64, u64, u64))), int),
> {
    match spec_lit_at(s, i, "{\"alarm_type\":\"timer\",\"env\":\""@) {
        None => None,
        Some(i1) => match spec_str_at(s, i1) {
            None => None,
            Some((env, i2)) => match spec_lit_at(s, i2, ",\"content\":"@) {
                None => None,
                Some(i3) => match spec_parse_timer_at(s, i3) {
                    None => None,
                    Some((t, i4)) => match spec_lit_at(s, i4, "}"@) {
                        None => None,
                        Some(i5) => Some(((env, t), i5)),
                    },
                },
            },
        },
    }
}

/// The parsed fields of a whole timer envelope wire text: the parse must
/// consume everything.
pub open spec fn spec_from_wire_timer_env(s: Seq<char>) -> Option<(Seq<char>, ((u32, Seq<char>, u64, Seq<char>, Seq<char>), (u64, u64, u64, u64)))> {
    match spec_parse_timer_env_at(s, 0) {
        Some((t, j)) => if j == s.len() {
            Some(t)
        } else {
            None
        },
        None => None,
    }
}

/// A timer envelope's fields match the parsed pair.
pub open spec fn timer_env_matches(w: AlarmWrapper<TimerUnit>, t: (Seq<char>, ((u32, Seq<char>, u64, Seq<char>, Seq<char>), (u64, u64, u64, u64)))) -> bool {
    &&& w.env@ == t.0
    &&& timer_matches(w.content, t.1)
}

/// The two timer envelopes hold the same kind, tenant and fields.
pub open spec fn timer_env_eq(a: AlarmWrapper<TimerUnit>, b: AlarmWrapper<TimerUnit>) -> bool {
    &&& a.alarm_type == b.alarm_type
    &&& a.env@ == b.env@
    &&& timer_eq(a.content, b.content)
}

/// Serializing a well-formed timer envelope and reading the text back
/// yields the envelope's own tenant and fields, and nothing is left over.
#[verifier::rlimit(50)]
pub proof fn lemma_timer_env_wire_round_trip(w: AlarmWrapper<TimerUnit>)
    requires
        wf_timer_env(w),
    ensures
        spec_from_wire_timer_env(spec_ser_timer_env(w)) matches Some(t)
            && timer_env_matches(w, t),
{
    let e1 = "{\"alarm_type\":\"timer\",\"env\":\""@;
    let e2 = ",\"content\":"@;
    let l7 = "}"@;
    let q = seq!['"'];
    reveal_strlit("{\"alarm_type\":\"timer\",\"env\":\"");
    reveal_strlit(",\"content\":");
    reveal_strlit("}");
    let env = w.env@;
    let us = spec_ser_timer(w.content);
    let b1 = e1 + env;
    let b2 = b1 + q;
    let b3 = b2 + e2;
    let b4 = b3 + us;
    let s = b4 + l7;
    assert(s == spec_ser_timer_env(w));
    lemma_concat_parts(e1, env);
    lemma_concat_parts(b1, q);
    lemma_concat_parts(b2, e2);
    lemma_concat_parts(b3, us);
    lemma_concat_parts(b4, l7);
    let p1 = e1.len() as int;
    let p2 = p1 + env.len();
    let p3 = p2 + 1;
    let p4 = p3 + e2.len();
    let p5 = p4 + us.len();
    assert(s.len() == p5 + 1);
    assert(s.subrange(0, p1) == e1);
    assert(s.subrange(p1, p2) == env);
    assert(s.subrange(p2, p3) == q);
    assert(s.subrange(p3, p4) == e2);
    assert(s.subrange(p4, p5) == us);
    assert(s.subrange(p5, s.len() as int) == l7);
    assert(s[p2] == '"') by {
        assert(s.subrange(p2, p3)[0] == '"');
    }
    lemma_spec_lit_embed(s, 0, e1);
    lemma_spec_str_embed(s, p1, env);
    lemma_spec_lit_embed(s, p3, e2);
    lemma_timer_ser_embed(s, p4, w.content);
    lemma_spec_lit_embed(s, p5, l7);
    assert(spec_parse_timer_env_at(s, 0) matches Some((t, j)) && j == s.len()
        && timer_env_matches(w, t));
}

impl AlarmWrapper<TimerUnit> {
    /// Writes this envelope in its wire form.
    pub fn to_wire(&self) -> (r: String)
        ensures
            r@ == spec_ser_timer_env(*self),
    {
        let mut s: String = String::from_str("{\"alarm_type\":\"timer\",\"env\":\"");
        s.append(self.env.as_str());
        crate::text::push_char(&mut s, '"');
        s.append(",\"content\":");
        let c: String = self.content.to_wire();
        s.append(c.as_str());
        s.append("}");
        proof {
            assert(s@ =~= spec_ser_timer_env(*self));
        }
        s
    }

    /// Reads a timer envelope from its wire form. The result mirrors the
    /// wire grammar exactly, and every well-formed envelope is recovered
    /// from its own wire text.
    pub fn from_wire(s: &str) -> (r: Option<AlarmWrapper<TimerUnit>>)
        ensures
            r is Some <==> spec_from_wire_timer_env(s@) is Some,
            r matches Some(w) ==> (spec_from_wire_timer_env(s@) matches Some(t)
                && timer_env_matches(w, t) && wf_timer_env(w)),
            forall|w: AlarmWrapper<TimerUnit>|
                wf_timer_env(w) && s@ == #[trigger] spec_ser_timer_env(w) ==> (
                r matches Some(w2) && timer_env_eq(w2, w)),
    {
        let v: Vec<char> = str_to_chars(s);
        let r: Option<AlarmWrapper<TimerUnit>> = parse_timer_env(&v);
        proof {
            assert forall|w: AlarmWrapper<TimerUnit>|
                wf_timer_env(w) && s@ == #[trigger] spec_ser_timer_env(w)
                implies (r matches Some(w2) && timer_env_eq(w2, w)) by {
                lemma_timer_env_wire_round_trip(w);
            }
        }
        r
    }
}

/// Reads a whole timer envelope from characters.
fn parse_timer_env(v: &Vec<char>) -> (r: Option<AlarmWrapper<TimerUnit>>)
    ensures
        r is Some <==> spec_from_wire_timer_env(v@) is Some,
        r matches Some(w) ==> (spec_from_wire_timer_env(v@) matches Some(t)
            && timer_env_matches(w, t) && wf_timer_env(w)),
{
    let i1: usize = match expect_lit(v, 0, "{\"alarm_type\":\"timer\",\"env\":\"") {
        Some(x) => x,
        None => {
            return None;
        },
    };
    let (env, i2): (String, usize) = match scan_string_at(v, i1) {
        Some(x) => x,
        None => {
            return None;
        },
    };
    let i3: usize = match expect_lit(v, i2, ",\"content\":") {
        Some(x) => x,
        None => {
            return None;
        },
    };
    let (u, i4): (TimerUnit, usize) = match parse_timer_at(v, i3) {
        Some(x) => x,
        None => {
            return None;
        },
    };
    let i5: usize = match expect_lit(v, i4, "}") {
        Some(x) => x,
        None => {
            return None;
        },
    };
    if i5 != v.len() {
        return None;
    }
    let w: AlarmWrapper<TimerUnit> = AlarmWrapper {
        alarm_type: MetricsAlarmType::Timer,
        env,
        content: u,
    };
    proof {
        let s = v@;
        assert(spec_lit_at(s, 0, "{\"alarm_type\":\"timer\",\"env\":\""@) == Some(i1 as int));
        assert(spec_str_at(s, i1 as int) == Some((env@, i2 as int)));
        assert(spec_lit_at(s, i2 as int, ",\"content\":"@) == Some(i3 as int));
        assert(spec_parse_timer_at(s, i3 as int) matches Some((t, jj)) && jj == i4
            && timer_matches(u, t));
        assert(spec_lit_at(s, i4 as int, "}"@) == Some(i5 as int));
        assert(spec_parse_timer_env_at(s, 0) matches Some((t, jj)) && jj == i5
            && timer_env_matches(w, t));
    }
    Some(w)
}


/// The wire text of a flow envelope: the kind name, the tenant, and the
/// record itself as `content`.
pub open spec fn spec_ser_flow_env(w: AlarmWrapper<FlowUnit>) -> Seq<char> {
    "{\"alarm_type\":\"flow\",\"env\":\""@ + w.env@ + seq!['"'] + ",\"content\":"@ + spec_ser_flow(w.content) + "}"@
}

/// The envelope can be written on the wire and read back: it carries its
/// own kind, a clean tenant name, and a well-formed record.
pub open spec fn wf_flow_env(w: AlarmWrapper<FlowUnit>) -> bool {
    &&& w.alarm_type == MetricsAlarmType::Flow
    &&& clean_text(w.env@)
    &&& w.content.wf()
}

/// The parsed fields of a flow envelope's wire text: the tenant name and
/// the record's fields.
pub open spec fn spec_parse_flow_env_at(s: Seq<char>, i: int) -> Option<
    ((Seq<char>, ((u32, Seq<char>, u64, Seq<char>, Seq<char>), (u64, i64, i64, i64, i64, i64, Seq<char>))), int),
> {
    match spec_lit_at(s, i, "{\"alarm_type\":\"flow\",\"env\":\""@) {
        None => None,
        Some(i1) => match spec_str_at(s, i1) {
            None => None,
            Some((env, i2)) => match spec_lit_at(s, i2, ",\"content\":"@) {
                None => None,
                Some(i3) => match spec_parse_flow_at(s, i3) {
                    None => None,
                    Some((t, i4)) => match spec_lit_at(s, i4, "}"@) {
                        None => None,
                        Some(i5) => Some(((env, t), i5)),
                    },
                },
            },
        },
    }
}

/// The parsed fields of a whole flow envelope wire text: the parse must
/// consume everything.
pub open spec fn spec_from_wire_flow_env(s: Seq<char>) -> Option<(Seq<char>, ((u32, Seq<char>, u64, Seq<char>, Seq<char>), (u64, i64, i64, i64, i64, i64, Seq<char>)))> {
    match spec_parse_flow_env_at(s, 0) {
        Some((t, j)) => if j == s.len() {
            Some(t)
        } else {
            None
        },
        None => None,
    }
}

/// A flow envelope's fields match the parsed pair.
pub open spec fn flow_env_matches(w: AlarmWrapper<FlowUnit>, t: (Seq<char>, ((u32, Seq<char>, u64, Seq<char>, Seq<char>), (u64, i64, i64, i64, i64, i64, Seq<char>)))) -> bool {
    &&& w.env@ == t.0
    &&& flow_matches(w.content, t.1)
}

/// The two flow envelopes hold the same kind, tenant and fields.
pub open spec fn flow_env_eq(a: AlarmWrapper<FlowUnit>, b: AlarmWrapper<FlowUnit>) -> bool {
    &&& a.alarm_type == b.alarm_type
    &&& a.env@ == b.env@
    &&& flow_eq(a.content, b.content)
}

/// Serializing a well-formed flow envelope and reading the text back
/// yields the envelope's own tenant and fields, and nothing is left over.
#[verifier::rlimit(50)]
pub proof fn lemma_flow_env_wire_round_trip(w: AlarmWrapper<FlowUnit>)
    requires
        wf_flow_env(w),
    ensures
        spec_from_wire_flow_env(spec_ser_flow_env(w)) matches Some(t)
            && flow_env_matches(w, t),
{
    let e1 = "{\"alarm_type\":\"flow\",\"env\":\""@;
    let e2 = ",\"content\":"@;
    let l7 = "}"@;
    let q = seq!['"'];
    reveal_strlit("{\"alarm_type\":\"flow\",\"env\":\"");
    reveal_strlit(",\"content\":");
    reveal_strlit("}");
    let env = w.env@;
    let us = spec_ser_flow(w.content);
    let b1 = e1 + env;
    let b2 = b1 + q;
    let b3 = b2 + e2;
    let b4 = b3 + us;
    let s = b4 + l7;
    assert(s == spec_ser_flow_env(w));
    lemma_concat_parts(e1, env);
    lemma_concat_parts(b1, q);
    lemma_concat_parts(b2, e2);
    lemma_concat_parts(b3, us);
    lemma_concat_parts(b4, l7);
    let p1 = e1.len() as int;
    let p2 = p1 + env.len();
    let p3 = p2 + 1;
    let p4 = p3 + e2.len();
    let p5 = p4 + us.len();
    assert(s.len() == p5 + 1);
    assert(s.subrange(0, p1) == e1);
    assert(s.subrange(p1, p2) == env);
    assert(s.subrange(p2, p3) == q);
    assert(s.subrange(p3, p4) == e2);
    assert(s.subrange(p4, p5) == us);
    assert(s.subrange(p5, s.len() as int) == l7);
    assert(s[p2] == '"') by {
        assert(s.subrange(p2, p3)[0] == '"');
    }
    lemma_spec_lit_embed(s, 0, e1);
    lemma_spec_str_embed(s, p1, env);
    lemma_spec_lit_embed(s, p3, e2);
    lemma_flow_ser_embed(s, p4, w.content);
    lemma_spec_lit_embed(s, p5, l7);
    assert(spec_parse_flow_env_at(s, 0) matches Some((t, j)) && j == s.len()
        && flow_env_matches(w, t));
}

impl AlarmWrapper<FlowUnit> {
    /// Writes this envelope in its wire form.
    pub fn to_wire(&self) -> (r: String)
        ensures
            r@ == spec_ser_flow_env(*self),
    {
        let mut s: String = String::from_str("{\"alarm_type\":\"flow\",\"env\":\"");
        s.append(self.env.as_str());
        crate::text::push_char(&mut s, '"');
        s.append(",\"content\":");
        let c: String = self.content.to_wire();
        s.append(c.as_str());
        s.append("}");
        proof {
            assert(s@ =~= spec_ser_flow_env(*self));
        }
        s
    }

    /// Reads a flow envelope from its wire form. The result mirrors the
    /// wire grammar exactly, and every well-formed envelope is recovered
    /// from its own wire text.
    pub fn from_wire(s: &str) -> (r: Option<AlarmWrapper<FlowUnit>>)
        ensures
            r is Some <==> spec_from_wire_flow_env(s@) is Some,
            r matches Some(w) ==> (spec_from_wire_flow_env(s@) matches Some(t)
                && flow_env_matches(w, t) && wf_flow_env(w)),
            forall|w: AlarmWrapper<FlowUnit>|
                wf_flow_env(w) && s@ == #[trigger] spec_ser_flow_env(w) ==> (
                r matches Some(w2) && flow_env_eq(w2, w)),
    {
        let v: Vec<char> = str_to_chars(s);
        let r: Option<AlarmWrapper<FlowUnit>> = parse_flow_env(&v);
        proof {
            assert forall|w: AlarmWrapper<FlowUnit>|
                wf_flow_env(w) && s@ == #[trigger] spec_ser_flow_env(w)
                implies (r matches Some(w2) && flow_env_eq(w2, w)) by {
                lemma_flow_env_wire_round_trip(w);
            }
        }
        r
    }
}

/// Reads a whole flow envelope from characters.
fn parse_flow_env(v: &Vec<char>) -> (r: Option<AlarmWrapper<FlowUnit>>)
    ensures
        r is Some <==> spec_from_wire_flow_env(v@) is Some,
        r matches Some(w) ==> (spec_from_wire_flow_env(v@) matches Some(t)
            && flow_env_matches(w, t) && wf_flow_env(w)),
{
    let i1: usize = match expect_lit(v, 0, "{\"alarm_type\":\"flow\",\"env\":\"") {
        Some(x) => x,
        None => {
            return None;
        },
    };
    let (env, i2): (String, usize) = match scan_string_at(v, i1) {
        Some(x) => x,
        None => {
            return None;
        },
    };
    let i3: usize = match expect_lit(v, i2, ",\"content\":") {
        Some(x) => x,
        None => {
            return None;
        },
    };
    let (u, i4): (FlowUnit, usize) = match parse_flow_at(v, i3) {
        Some(x) => x,
        None => {
            return None;
        },
    };
    let i5: usize = match expect_lit(v, i4, "}") {
        Some(x) => x,
        None => {
            return None;
        },
    };
    if i5 != v.len() {
        return None;
    }
    let w: AlarmWrapper<FlowUnit> = AlarmWrapper {
        alarm_type: MetricsAlarmType::Flow,
        env,
        content: u,
    };
    proof {
        let s = v@;
        assert(spec_lit_at(s, 0, "{\"alarm_type\":\"flow\",\"env\":\""@) == Some(i1 as int));
        assert(spec_str_at(s, i1 as int) == Some((env@, i2 as int)));
        assert(spec_lit_at(s, i2 as int, ",\"content\":"@) == Some(i3 as int));
        assert(spec_parse_flow_at(s, i3 as int) matches Some((t, jj)) && jj == i4
            && flow_matches(u, t));
        assert(spec_lit_at(s, i4 as int, "}"@) == Some(i5 as int));
        assert(spec_parse_flow_env_at(s, 0) matches Some((t, jj)) && jj == i5
            && flow_env_matches(w, t));
    }
    Some(w)
}

} // verus!
