//! Character-level text utilities: decimal rendering and parsing of the
//! integers that appear in wire payloads and SQL rows, and conversions
//! between `String` and `Vec<char>` used by the scanners.
use vstd::prelude::*;

verus! {

/// A decimal digit character.
pub open spec fn is_digit_char(c: char) -> bool {
    '0' <= c && c <= '9'
}

/// Numeric value of a digit character.
pub open spec fn digit_val(c: char) -> nat {
    (c as nat - '0' as nat) as nat
}

/// The digit character for a value below ten.
pub open spec fn digit_char(d: nat) -> char
    recommends
        d < 10,
{
    (('0' as nat + d) as u32) as char
}

/// Canonical decimal text of a natural number (no sign, no leading zeros).
pub open spec fn dec_seq(n: nat) -> Seq<char>
    decreases n,
{
    if n < 10 {
        seq![digit_char(n)]
    } else {
        dec_seq(n / 10).push(digit_char(n % 10))
    }
}

/// Value of a digit sequence read most-significant first.
pub open spec fn dec_val(s: Seq<char>) -> nat
    decreases s.len(),
{
    if s.len() == 0 {
        0
    } else {
        dec_val(s.drop_last()) * 10 + digit_val(s.last())
    }
}

proof fn lemma_digit_char_val(d: nat)
    requires
        d < 10,
    ensures
        is_digit_char(digit_char(d)),
        digit_val(digit_char(d)) == d,
{
    assert(is_digit_char(digit_char(d)) && digit_val(digit_char(d)) == d);
}

/// Every character of a canonical decimal rendering is a digit, the text is
/// non-empty, and its leading character is `'0'` only for the number zero.
pub proof fn lemma_dec_seq_digits(n: nat)
    ensures
        dec_seq(n).len() >= 1,
        forall|i: int| 0 <= i < dec_seq(n).len() ==> is_digit_char(#[trigger] dec_seq(n)[i]),
        n > 0 ==> dec_seq(n)[0] != '0',
        n == 0 ==> dec_seq(n) =~= seq!['0'],
    decreases n,
{
    if n < 10 {
        lemma_digit_char_val(n);
        if n > 0 {
            assert(digit_char(n) != '0');
        } else {
            assert(digit_char(0) == '0');
        }
    } else {
        lemma_dec_seq_digits(n / 10);
        lemma_digit_char_val(n % 10);
        assert(dec_seq(n) == dec_seq(n / 10).push(digit_char(n % 10)));
        assert(dec_seq(n)[0] == dec_seq(n / 10)[0]);
    }
}

/// Reading the canonical decimal text back gives the number itself.
pub proof fn lemma_dec_val_of_dec_seq(n: nat)
    ensures
        dec_val(dec_seq(n)) == n,
    decreases n,
{
    if n < 10 {
        lemma_digit_char_val(n);
        assert(dec_seq(n) =~= seq![digit_char(n)]);
        assert(dec_seq(n).drop_last() =~= Seq::<char>::empty());
        assert(dec_val(dec_seq(n).drop_last()) == 0);
        assert(dec_val(dec_seq(n)) == digit_val(dec_seq(n).last()));
        assert(dec_seq(n).last() == digit_char(n));
    } else {
        lemma_dec_val_of_dec_seq(n / 10);
        lemma_digit_char_val(n % 10);
        assert(dec_seq(n).drop_last() =~= dec_seq(n / 10));
        assert(dec_seq(n).last() == digit_char(n % 10));
        assert(dec_val(dec_seq(n)) == dec_val(dec_seq(n).drop_last()) * 10 + digit_val(
            dec_seq(n).last()));
        assert(dec_val(dec_seq(n).drop_last()) == n / 10);
        assert(n == (n / 10) * 10 + n % 10);
    }
}

/// Relies on `String::push`: appends exactly the one character.
#[verifier::external_body]
pub(crate) fn push_char(s: &mut String, c: char)
    ensures
        final(s)@ == old(s)@.push(c),
{
    s.push(c);
}

/// The characters of a string slice, in order.
pub fn str_to_chars(s: &str) -> (v: Vec<char>)
    ensures
        v@ == s@,
{
    let n: usize = s.unicode_len();
    let mut v: Vec<char> = Vec::new();
    let mut i: usize = 0;
    while i < n
        invariant
            i <= n,
            n == s@.len(),
            v@ == s@.subrange(0, i as int),
        decreases n - i,
    {
        let c: char = s.get_char(i);
        v.push(c);
        i = i + 1;
        proof {
            assert(v@ =~= s@.subrange(0, i as int));
        }
    }
    proof {
        assert(v@ =~= s@);
    }
    v
}

/// A string holding the given characters, in order.
pub fn chars_to_string(v: &Vec<char>) -> (s: String)
    ensures
        s@ == v@,
{
    let mut s: String = String::new();
    let mut i: usize = 0;
    while i < v.len()
        invariant
            i <= v@.len(),
            s@ == v@.subrange(0, i as int),
        decreases v@.len() - i,
    {
        push_char(&mut s, v[i]);
        i = i + 1;
        proof {
            assert(s@ =~= v@.subrange(0, i as int));
        }
    }
    proof {
        assert(s@ =~= v@);
    }
    s
}

/// The digit character of a value below ten.
fn digit_to_char(d: u64) -> (c: char)
    requires
        d < 10,
    ensures
        c == digit_char(d as nat),
{
    let c: char = match d {
        0 => '0',
        1 => '1',
        2 => '2',
        3 => '3',
        4 => '4',
        5 => '5',
        6 => '6',
        7 => '7',
        8 => '8',
        _ => '9',
    };
    proof {
        assert(digit_char(0) == '0');
        assert(digit_char(1) == '1');
        assert(digit_char(2) == '2');
        assert(digit_char(3) == '3');
        assert(digit_char(4) == '4');
        assert(digit_char(5) == '5');
        assert(digit_char(6) == '6');
        assert(digit_char(7) == '7');
        assert(digit_char(8) == '8');
        assert(digit_char(9) == '9');
    }
    c
}

/// Canonical decimal rendering of an unsigned 64-bit number.
pub fn u64_to_string(n: u64) -> (r: String)
    ensures
        r@ == dec_seq(n as nat),
{
    let mut digits: Vec<char> = Vec::new();
    let mut m: u64 = n;
    loop
        invariant_except_break
            digits@.len() == 0 ==> m == n,
            digits@.len() > 0 ==> m > 0 && dec_seq(n as nat) =~= dec_seq(m as nat)
                + digits@.reverse(),
        ensures
            dec_seq(n as nat) =~= digits@.reverse(),
        decreases m as nat + (if digits@.len() == 0 { 1nat } else { 0nat }),
    {
        let d: u64 = m % 10;
        let c: char = digit_to_char(d);
        let ghost old_digits = digits@;
        let ghost old_m = m as nat;
        digits.push(c);
        m = m / 10;
        proof {
            assert(digits@ =~= old_digits.push(digit_char((old_m % 10) as nat)));
            assert(digits@.reverse() =~= seq![digit_char((old_m % 10) as nat)]
                + old_digits.reverse());
            if old_m >= 10 {
                assert(dec_seq(old_m) =~= dec_seq((old_m / 10) as nat).push(
                    digit_char((old_m % 10) as nat)));
                assert(dec_seq(old_m) + old_digits.reverse() =~= dec_seq(m as nat)
                    + digits@.reverse());
            } else {
                assert(dec_seq(old_m) =~= seq![digit_char((old_m % 10) as nat)]);
                assert(dec_seq(old_m) + old_digits.reverse() =~= digits@.reverse());
            }
            if old_digits.len() == 0 {
                assert(dec_seq(n as nat) =~= dec_seq(old_m) + old_digits.reverse());
            }
        }
        if m == 0 {
            break;
        }
    }
    let mut s: String = String::new();
    let mut i: usize = digits.len();
    while i > 0
        invariant
            i <= digits@.len(),
            s@.len() == digits@.len() - i,
            forall|k: int|
                0 <= k < s@.len() ==> s@[k] == digits@[digits@.len() - 1 - k],
        decreases i,
    {
        i = i - 1;
        push_char(&mut s, digits[i]);
    }
    proof {
        assert(s@ =~= digits@.reverse());
    }
    s
}

/// First position at or after `i` whose character is not a digit (or the end).
pub open spec fn digit_run_end(s: Seq<char>, i: int) -> int
    decreases s.len() - i,
{
    if i < 0 || i >= s.len() {
        i
    } else if is_digit_char(s[i]) {
        digit_run_end(s, i + 1)
    } else {
        i
    }
}

/// `digit_run_end` finds exactly the boundary of a digit run.
pub proof fn lemma_digit_run_end_exact(s: Seq<char>, i: int, j: int)
    requires
        0 <= i <= j <= s.len(),
        forall|k: int| i <= k < j ==> is_digit_char(#[trigger] s[k]),
        j < s.len() ==> !is_digit_char(s[j]),
    ensures
        digit_run_end(s, i) == j,
    decreases j - i,
{
    if i < j {
        lemma_digit_run_end_exact(s, i + 1, j);
    }
}

/// Basic shape of `digit_run_end`: it never moves backwards, everything up to
/// it is a digit, and it stops at the first non-digit.
pub proof fn lemma_digit_run_end_shape(s: Seq<char>, i: int)
    requires
        0 <= i <= s.len(),
    ensures
        i <= digit_run_end(s, i) <= s.len(),
        forall|k: int| i <= k < digit_run_end(s, i) ==> is_digit_char(#[trigger] s[k]),
        digit_run_end(s, i) < s.len() ==> !is_digit_char(s[digit_run_end(s, i)]),
    decreases s.len() - i,
{
    if i < s.len() && is_digit_char(s[i]) {
        lemma_digit_run_end_shape(s, i + 1);
    }
}

/// A digit sequence is worth at least as much as any of its prefixes.
pub proof fn lemma_dec_val_prefix(s: Seq<char>, k: int)
    requires
        0 <= k <= s.len(),
    ensures
        dec_val(s.subrange(0, k)) <= dec_val(s),
    decreases s.len() - k,
{
    if k < s.len() {
        lemma_dec_val_prefix(s, k + 1);
        let t = s.subrange(0, k + 1);
        assert(t.drop_last() =~= s.subrange(0, k));
        assert(dec_val(t) == dec_val(s.subrange(0, k)) * 10 + digit_val(t.last()));
    } else {
        assert(s.subrange(0, k) =~= s);
    }
}

/// Whether `c` may stand unescaped inside a wire string: not a quote, not a
/// backslash, not a control character.
pub open spec fn is_clean_char(c: char) -> bool {
    c != '"' && c != '\\' && c >= ' '
}

/// Every character of the text may stand unescaped inside a wire string.
pub open spec fn clean_text(s: Seq<char>) -> bool {
    forall|k: int| 0 <= k < s.len() ==> is_clean_char(#[trigger] s[k])
}

/// Runtime test for `is_clean_char`.
pub fn is_clean(c: char) -> (b: bool)
    ensures
        b == is_clean_char(c),
{
    c != '"' && c != '\\' && c >= ' '
}

/// First position at or after `i` whose character may not stand unescaped
/// in a wire string (or the end).
pub open spec fn clean_run_end(s: Seq<char>, i: int) -> int
    decreases s.len() - i,
{
    if i < 0 || i >= s.len() {
        i
    } else if is_clean_char(s[i]) {
        clean_run_end(s, i + 1)
    } else {
        i
    }
}

/// `clean_run_end` finds exactly the boundary of a clean run.
pub proof fn lemma_clean_run_end_exact(s: Seq<char>, i: int, j: int)
    requires
        0 <= i <= j <= s.len(),
        forall|k: int| i <= k < j ==> is_clean_char(#[trigger] s[k]),
        j < s.len() ==> !is_clean_char(s[j]),
    ensures
        clean_run_end(s, i) == j,
    decreases j - i,
{
    if i < j {
        lemma_clean_run_end_exact(s, i + 1, j);
    }
}

/// Basic shape of `clean_run_end`.
pub proof fn lemma_clean_run_end_shape(s: Seq<char>, i: int)
    requires
        0 <= i <= s.len(),
    ensures
        i <= clean_run_end(s, i) <= s.len(),
        forall|k: int| i <= k < clean_run_end(s, i) ==> is_clean_char(#[trigger] s[k]),
        clean_run_end(s, i) < s.len() ==> !is_clean_char(s[clean_run_end(s, i)]),
    decreases s.len() - i,
{
    if i < s.len() && is_clean_char(s[i]) {
        lemma_clean_run_end_shape(s, i + 1);
    }
}

/// Reads the maximal digit run starting at `i` as an unsigned 64-bit number.
/// Returns the value and the position after the run; fails when there is no
/// digit at `i` or the run's value does not fit.
pub fn parse_u64_at(v: &Vec<char>, i: usize) -> (r: Option<(u64, usize)>)
    requires
        i <= v@.len(),
    ensures
        ({
            let j = digit_run_end(v@, i as int);
            &&& (r is Some <==> j > i && dec_val(v@.subrange(i as int, j)) <= u64::MAX)
            &&& (r matches Some(p) ==> p.1 == j && p.0 == dec_val(v@.subrange(i as int, j))
                && i < p.1 <= v@.len())
        }),
{
    let ghost e = digit_run_end(v@, i as int);
    proof {
        lemma_digit_run_end_shape(v@, i as int);
    }
    let mut j: usize = i;
    let mut acc: u64 = 0;
    let mut fits: bool = true;
    loop
        invariant_except_break
            i <= j <= v@.len(),
            e == digit_run_end(v@, i as int),
            digit_run_end(v@, j as int) == e,
            j <= e,
            fits,
            acc == dec_val(v@.subrange(i as int, j as int)),
        ensures
            ({
                let jj = digit_run_end(v@, i as int);
                if !fits {
                    jj > i && dec_val(v@.subrange(i as int, jj)) > u64::MAX
                } else {
                    jj == j && acc == dec_val(v@.subrange(i as int, jj))
                }
            }),
        decreases v@.len() - j,
    {
        proof {
            assert(v@.subrange(i as int, i as int) =~= Seq::<char>::empty());
        }
        if j == v.len() {
            break;
        }
        let c: char = v[j];
        if !('0' <= c && c <= '9') {
            break;
        }
        let d: u64 = ((c as u32) - 48) as u64;
        proof {
            assert(d == digit_val(c));
            assert(is_digit_char(v@[j as int]));
            lemma_digit_run_end_shape(v@, j as int);
            lemma_dec_val_prefix(v@.subrange(i as int, e), j + 1 - i);
            assert(v@.subrange(i as int, e).subrange(0, j + 1 - i) =~= v@.subrange(
                i as int, j as int + 1));
        }
        if acc > (u64::MAX - d) / 10 {
            proof {
                let t = v@.subrange(i as int, j as int + 1);
                assert(t.drop_last() =~= v@.subrange(i as int, j as int));
                assert(dec_val(t) == acc * 10 + d);
                assert(dec_val(t) > u64::MAX);
            }
            fits = false;
            break;
        }
        proof {
            let t = v@.subrange(i as int, j as int + 1);
            assert(t.drop_last() =~= v@.subrange(i as int, j as int));
            assert(dec_val(t) == acc * 10 + d);
        }
        acc = acc * 10 + d;
        j = j + 1;
    }
    if !fits {
        None
    } else if j == i {
        None
    } else {
        Some((acc, j))
    }
}

/// Reads a string run starting at `i`: the maximal run of clean characters,
/// which must be closed by a double quote. Returns the run's text and the
/// position after the closing quote.
pub fn scan_string_at(v: &Vec<char>, i: usize) -> (r: Option<(String, usize)>)
    requires
        i <= v@.len(),
    ensures
        ({
            let j = clean_run_end(v@, i as int);
            &&& (r is Some <==> j < v@.len() && v@[j] == '"')
            &&& (r matches Some(p) ==> p.1 == j + 1 && p.0@ == v@.subrange(i as int, j)
                && clean_text(p.0@))
        }),
{
    proof {
        lemma_clean_run_end_shape(v@, i as int);
    }
    let ghost e = clean_run_end(v@, i as int);
    let mut j: usize = i;
    let mut out: String = String::new();
    loop
        invariant_except_break
            i <= j <= v@.len(),
            e == clean_run_end(v@, i as int),
            clean_run_end(v@, j as int) == e,
            j <= e,
            out@ == v@.subrange(i as int, j as int),
        ensures
            j == clean_run_end(v@, i as int),
            out@ == v@.subrange(i as int, j as int),
        decreases v@.len() - j,
    {
        proof {
            assert(v@.subrange(i as int, i as int) =~= Seq::<char>::empty());
        }
        if j == v.len() {
            break;
        }
        let c: char = v[j];
        if !is_clean(c) {
            break;
        }
        proof {
            lemma_clean_run_end_shape(v@, j as int);
        }
        push_char(&mut out, c);
        j = j + 1;
        proof {
            assert(out@ =~= v@.subrange(i as int, j as int));
        }
    }
    proof {
        lemma_clean_run_end_shape(v@, i as int);
    }
    if j < v.len() {
        let c: char = v[j];
        if c == '"' {
            return Some((out, j + 1));
        }
    }
    None
}

/// Position where the digits of a possibly minus-signed number start.
pub open spec fn signed_start(s: Seq<char>, i: int) -> int {
    if 0 <= i < s.len() && s[i] == '-' {
        i + 1
    } else {
        i
    }
}

/// End of a decimal number beginning at `i`: an optional minus sign, a digit
/// run, and an optional fraction of a dot followed by a digit run.
pub open spec fn number_end(s: Seq<char>, i: int) -> int {
    let st = signed_start(s, i);
    let j1 = digit_run_end(s, st);
    if j1 < s.len() && s[j1] == '.' && digit_run_end(s, j1 + 1) > j1 + 1 {
        digit_run_end(s, j1 + 1)
    } else {
        j1
    }
}

/// The text is a complete decimal number: an optional minus sign, at least
/// one integer digit, and an optional fraction with at least one digit.
pub open spec fn wf_number_text(t: Seq<char>) -> bool {
    let st = signed_start(t, 0);
    let j1 = digit_run_end(t, st);
    &&& t.len() > 0
    &&& j1 > st
    &&& (j1 == t.len() || (j1 + 1 < t.len() && t[j1] == '.' && digit_run_end(t, j1 + 1)
        == t.len()))
}

/// A well-formed number text embedded in a larger text, followed by nothing
/// that could extend it, scans to exactly its own end.
pub proof fn lemma_number_end_embed(s: Seq<char>, i: int, t: Seq<char>)
    requires
        0 <= i,
        i + t.len() <= s.len(),
        s.subrange(i, i + t.len()) == t,
        wf_number_text(t),
        i + t.len() < s.len() ==> !is_digit_char(s[i + t.len()]) && s[i + t.len()] != '.',
    ensures
        number_end(s, i) == i + t.len(),
        signed_start(s, i) == i + signed_start(t, 0),
        digit_run_end(s, signed_start(s, i)) > signed_start(s, i),
{
    let st_t = signed_start(t, 0);
    let j1_t = digit_run_end(t, st_t);
    lemma_digit_run_end_shape(t, st_t);
    assert forall|k: int| 0 <= k < t.len() implies s[i + k] == #[trigger] t[k] by {
        assert(s.subrange(i, i + t.len())[k] == t[k]);
    }
    assert(signed_start(s, i) == i + st_t);
    assert forall|k: int| i + st_t <= k < i + j1_t implies is_digit_char(
        #[trigger] s[k]) by {
        assert(s[k] == t[k - i]);
    }
    if j1_t == t.len() {
        lemma_digit_run_end_exact(s, i + st_t, i + j1_t);
        assert(digit_run_end(s, i + st_t) == i + j1_t);
        if i + t.len() < s.len() {
            assert(s[i + j1_t] != '.');
        }
    } else {
        assert(t[j1_t] == '.');
        assert(s[i + j1_t] == '.');
        assert(!is_digit_char(s[i + j1_t]));
        lemma_digit_run_end_exact(s, i + st_t, i + j1_t);
        lemma_digit_run_end_shape(t, j1_t + 1);
        assert forall|k: int| i + j1_t + 1 <= k < i + t.len() implies is_digit_char(
            #[trigger] s[k]) by {
            assert(s[k] == t[k - i]);
        }
        lemma_digit_run_end_exact(s, i + j1_t + 1, i + t.len());
        assert(digit_run_end(s, i + j1_t + 1) == i + t.len());
        assert(digit_run_end(s, i + j1_t + 1) > i + j1_t + 1);
    }
}

/// Position after the maximal digit run starting at `i`.
pub fn digit_run(v: &Vec<char>, i: usize) -> (j: usize)
    requires
        i <= v@.len(),
    ensures
        j == digit_run_end(v@, i as int),
        i <= j <= v@.len(),
{
    proof {
        lemma_digit_run_end_shape(v@, i as int);
    }
    let mut j: usize = i;
    while j < v.len() && '0' <= v[j] && v[j] <= '9'
        invariant
            i <= j <= v@.len(),
            digit_run_end(v@, j as int) == digit_run_end(v@, i as int),
        decreases v@.len() - j,
    {
        j = j + 1;
    }
    j
}

/// The characters of `v` between `i` and `j`, as a string.
pub fn copy_range(v: &Vec<char>, i: usize, j: usize) -> (s: String)
    requires
        i <= j <= v@.len(),
    ensures
        s@ == v@.subrange(i as int, j as int),
{
    let mut s: String = String::new();
    let mut k: usize = i;
    proof {
        assert(s@ =~= v@.subrange(i as int, i as int));
    }
    while k < j
        invariant
            i <= k <= j <= v@.len(),
            s@ == v@.subrange(i as int, k as int),
        decreases j - k,
    {
        push_char(&mut s, v[k]);
        k = k + 1;
        proof {
            assert(s@ =~= v@.subrange(i as int, k as int));
        }
    }
    s
}

/// Reads a decimal number starting at `i`: optional minus sign, integer
/// digits, optional fraction. Returns its text and the position after it.
pub fn scan_number_at(v: &Vec<char>, i: usize) -> (r: Option<(String, usize)>)
    requires
        i <= v@.len(),
    ensures
        (r is Some <==> digit_run_end(v@, signed_start(v@, i as int)) > signed_start(
            v@, i as int)),
        r matches Some(p) ==> ({
            &&& p.1 == number_end(v@, i as int)
            &&& i < p.1 <= v@.len()
            &&& p.0@ == v@.subrange(i as int, p.1 as int)
            &&& wf_number_text(p.0@)
        }),
{
    let mut st: usize = i;
    if i < v.len() && v[i] == '-' {
        st = i + 1;
    }
    let j1: usize = digit_run(v, st);
    if j1 == st {
        return None;
    }
    let mut end: usize = j1;
    if j1 < v.len() && v[j1] == '.' {
        let j2: usize = digit_run(v, j1 + 1);
        if j2 > j1 + 1 {
            end = j2;
        }
    }
    let t: String = copy_range(v, i, end);
    proof {
        let tv = t@;
        lemma_digit_run_end_shape(v@, st as int);
        assert(forall|k: int| 0 <= k < tv.len() ==> tv[k] == #[trigger] v@[i + k]);
        assert(signed_start(tv, 0) == st - i);
        if end == j1 {
            lemma_digit_run_end_exact(tv, st - i, j1 - i);
            assert(digit_run_end(tv, st - i) == tv.len());
        } else {
            lemma_digit_run_end_shape(v@, j1 as int + 1);
            lemma_digit_run_end_exact(tv, st - i, j1 - i);
            lemma_digit_run_end_exact(tv, j1 - i + 1, end - i);
            assert(tv[j1 - i] == '.');
        }
        assert(wf_number_text(tv));
        assert(number_end(v@, i as int) == end);
    }
    Some((t, end))
}

/// The characters at `i` match the literal exactly; returns the position
/// after the match.
pub fn expect_lit(v: &Vec<char>, i: usize, lit: &str) -> (r: Option<usize>)
    requires
        i <= v@.len(),
    ensures
        r is Some <==> (i + lit@.len() <= v@.len() && v@.subrange(
            i as int, i + lit@.len()) == lit@),
        r matches Some(j) ==> j == i + lit@.len(),
{
    let n: usize = lit.unicode_len();
    let vn: usize = v.len();
    if n > vn - i {
        proof {
            assert(i + lit@.len() > v@.len());
        }
        return None;
    }
    let mut k: usize = 0;
    while k < n
        invariant
            0 <= k <= n,
            n == lit@.len(),
            vn == v@.len(),
            i + n <= vn,
            forall|t: int| 0 <= t < k ==> v@[i + t] == lit@[t],
        decreases n - k,
    {
        let c: char = v[i + k];
        let lc: char = lit.get_char(k);
        if c != lc {
            proof {
                assert(v@.subrange(i as int, i + lit@.len())[k as int] != lit@[k as int]);
            }
            return None;
        }
        k = k + 1;
    }
    proof {
        assert(v@.subrange(i as int, i + lit@.len()) =~= lit@);
    }
    Some(i + n)
}

/// Reads a possibly minus-signed decimal integer starting at `i` as an
/// `i64`. Returns the value and the position after the digits.
pub fn parse_i64_at(v: &Vec<char>, i: usize) -> (r: Option<(i64, usize)>)
    requires
        i <= v@.len(),
    ensures
        ({
            let st = signed_start(v@, i as int);
            let j = digit_run_end(v@, st);
            let mag = dec_val(v@.subrange(st, j));
            let bound: nat = if st > i {
                i64::MAX as nat + 1
            } else {
                i64::MAX as nat
            };
            &&& (r is Some <==> j > st && mag <= bound)
            &&& (r matches Some(p) ==> p.1 == j && p.0 as int == (if st > i {
                -(mag as int)
            } else {
                mag as int
            }) && i < p.1 <= v@.len())
        }),
{
    if i < v.len() && v[i] == '-' {
        match parse_u64_at(v, i + 1) {
            Some((mag, j)) => {
                if mag <= 9223372036854775807u64 {
                    Some((-(mag as i64), j))
                } else if mag == 9223372036854775808u64 {
                    Some((i64::MIN, j))
                } else {
                    None
                }
            },
            None => None,
        }
    } else {
        match parse_u64_at(v, i) {
            Some((x, j)) => {
                if x <= 9223372036854775807u64 {
                    Some((x as i64, j))
                } else {
                    None
                }
            },
            None => None,
        }
    }
}

/// A JSON whitespace character: space, tab, line feed or carriage return.
pub open spec fn is_ws_char(c: char) -> bool {
    c == ' ' || c == '\t' || c == '\n' || c == '\r'
}

/// First position at or after `i` whose character is not whitespace, or
/// the end.
pub open spec fn ws_end(s: Seq<char>, i: int) -> int
    decreases s.len() - i,
{
    if i < 0 || i >= s.len() {
        i
    } else if is_ws_char(s[i]) {
        ws_end(s, i + 1)
    } else {
        i
    }
}

/// Basic shape of `ws_end`: everything before it is whitespace, and it
/// lands on a non-whitespace character unless it is the end.
pub proof fn lemma_ws_end_shape(s: Seq<char>, i: int)
    requires
        0 <= i <= s.len(),
    ensures
        i <= ws_end(s, i) <= s.len(),
        forall|k: int| i <= k < ws_end(s, i) ==> is_ws_char(#[trigger] s[k]),
        ws_end(s, i) < s.len() ==> !is_ws_char(s[ws_end(s, i)]),
    decreases s.len() - i,
{
    if i < s.len() && is_ws_char(s[i]) {
        lemma_ws_end_shape(s, i + 1);
    }
}

/// First position at or after `i` whose character is not whitespace, or
/// the end.
pub fn skip_ws(v: &Vec<char>, i: usize) -> (j: usize)
    requires
        i <= v@.len(),
    ensures
        j == ws_end(v@, i as int),
        i <= j <= v@.len(),
{
    proof {
        lemma_ws_end_shape(v@, i as int);
    }
    let mut j: usize = i;
    while j < v.len() && (v[j] == ' ' || v[j] == '\t' || v[j] == '\n' || v[j] == '\r')
        invariant
            i <= j <= v@.len(),
            ws_end(v@, j as int) == ws_end(v@, i as int),
        decreases v@.len() - j,
    {
        j = j + 1;
    }
    j
}

/// First position at or after `i` holding the character `c`, or the end.
pub open spec fn find_char_from(s: Seq<char>, i: int, c: char) -> int
    decreases s.len() - i,
{
    if i < 0 || i >= s.len() {
        s.len() as int
    } else if s[i] == c {
        i
    } else {
        find_char_from(s, i + 1, c)
    }
}

/// Basic shape of `find_char_from`: nothing before it is `c`, and it lands
/// on `c` unless it is the end.
pub proof fn lemma_find_char_shape(s: Seq<char>, i: int, c: char)
    requires
        0 <= i <= s.len(),
    ensures
        i <= find_char_from(s, i, c) <= s.len(),
        forall|k: int| i <= k < find_char_from(s, i, c) ==> #[trigger] s[k] != c,
        find_char_from(s, i, c) < s.len() ==> s[find_char_from(s, i, c)] == c,
    decreases s.len() - i,
{
    if i < s.len() && s[i] != c {
        lemma_find_char_shape(s, i + 1, c);
    }
}

/// `find_char_from` finds exactly the first occurrence.
pub proof fn lemma_find_char_exact(s: Seq<char>, i: int, c: char, j: int)
    requires
        0 <= i <= j <= s.len(),
        forall|k: int| i <= k < j ==> #[trigger] s[k] != c,
        j < s.len() ==> s[j] == c,
    ensures
        find_char_from(s, i, c) == j,
    decreases j - i,
{
    if i < j {
        lemma_find_char_exact(s, i + 1, c, j);
    }
}

/// First position at or after `i` holding the character `c`, or the end.
pub fn find_char(v: &Vec<char>, i: usize, c: char) -> (j: usize)
    requires
        i <= v@.len(),
    ensures
        j == find_char_from(v@, i as int, c),
        i <= j <= v@.len(),
{
    proof {
        lemma_find_char_shape(v@, i as int, c);
    }
    let mut j: usize = i;
    while j < v.len() && v[j] != c
        invariant
            i <= j <= v@.len(),
            find_char_from(v@, j as int, c) == find_char_from(v@, i as int, c),
        decreases v@.len() - j,
    {
        j = j + 1;
    }
    j
}

/// The two string slices hold the same characters.
pub fn str_eq(a: &str, b: &str) -> (r: bool)
    ensures
        r == (a@ == b@),
{
    let an: usize = a.unicode_len();
    let bn: usize = b.unicode_len();
    if an != bn {
        return false;
    }
    let mut k: usize = 0;
    while k < an
        invariant
            0 <= k <= an,
            an == a@.len(),
            an == b@.len(),
            forall|t: int| 0 <= t < k ==> a@[t] == b@[t],
        decreases an - k,
    {
        if a.get_char(k) != b.get_char(k) {
            return false;
        }
        k = k + 1;
    }
    proof {
        assert(a@ =~= b@);
    }
    true
}

/// Decimal text of a signed 64-bit number: a minus sign for negatives,
/// then the canonical digits of the magnitude.
pub open spec fn dec_seq_i64(x: int) -> Seq<char> {
    if x < 0 {
        seq!['-'] + dec_seq((-x) as nat)
    } else {
        dec_seq(x as nat)
    }
}

/// Canonical decimal rendering of a signed 64-bit number.
pub fn i64_to_string(x: i64) -> (r: String)
    ensures
        r@ == dec_seq_i64(x as int),
{
    if x >= 0 {
        u64_to_string(x as u64)
    } else {
        let mag: u64 = ((-(x + 1)) as u64) + 1;
        assert(mag as nat == (-(x as int)) as nat);
        let mut s: String = String::from_str("-");
        let ds: String = u64_to_string(mag);
        s.append(ds.as_str());
        proof {
            reveal_strlit("-");
            assert(s@ =~= dec_seq_i64(x as int));
        }
        s
    }
}

} // verus!
