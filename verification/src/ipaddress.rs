//! The advertised address of a node: a dotted-quad IPv4 address and a port,
//! written as `ip:port` text on the wire and in storage rows.
use vstd::prelude::*;

use crate::error::TypeError;
use crate::text::{
    clean_text, dec_seq, dec_val, digit_run, digit_run_end, digit_val, find_char,
    find_char_from, is_clean_char, is_digit_char, lemma_dec_val_of_dec_seq,
    lemma_dec_seq_digits, lemma_digit_run_end_exact, lemma_digit_run_end_shape,
    lemma_find_char_exact, parse_u64_at, str_to_chars, u64_to_string,
};

verus! {

/// The digits from `i` to `j` form one canonical address octet: one to
/// three digits, value at most 255, no leading zero.
pub open spec fn wf_octet_at(s: Seq<char>, i: int, j: int) -> bool {
    &&& j == digit_run_end(s, i)
    &&& i < j <= i + 3
    &&& j <= s.len()
    &&& dec_val(s.subrange(i, j)) <= 255
    &&& (0 <= i < s.len() && s[i] == '0' ==> j == i + 1)
}

/// The text is a dotted-quad IPv4 address: four canonical octets joined by
/// single dots, nothing more.
pub open spec fn wf_ipv4(s: Seq<char>) -> bool {
    let j1 = digit_run_end(s, 0);
    let j2 = digit_run_end(s, j1 + 1);
    let j3 = digit_run_end(s, j2 + 1);
    let j4 = digit_run_end(s, j3 + 1);
    &&& wf_octet_at(s, 0, j1) && j1 < s.len() && s[j1] == '.'
    &&& wf_octet_at(s, j1 + 1, j2) && j2 < s.len() && s[j2] == '.'
    &&& wf_octet_at(s, j2 + 1, j3) && j3 < s.len() && s[j3] == '.'
    &&& wf_octet_at(s, j3 + 1, j4) && j4 == s.len()
}

/// The text is an address and a port: a dotted quad, then the first colon,
/// then digits to the end whose value fits 64 bits.
pub open spec fn wf_ip_port_text(s: Seq<char>) -> bool {
    let c = find_char_from(s, 0, ':');
    &&& c + 1 < s.len()
    &&& wf_ipv4(s.subrange(0, c))
    &&& digit_run_end(s, c + 1) == s.len()
    &&& dec_val(s.subrange(c + 1, s.len() as int)) <= u64::MAX
}

proof fn lemma_dec_val_small(s: Seq<char>)
    requires
        forall|k: int| 0 <= k < s.len() ==> is_digit_char(#[trigger] s[k]),
        s.len() <= 3,
    ensures
        s.len() == 0 ==> dec_val(s) == 0,
        s.len() == 1 ==> dec_val(s) <= 9,
        s.len() == 2 ==> dec_val(s) <= 99,
        s.len() == 3 ==> dec_val(s) <= 999,
    decreases s.len(),
{
    if s.len() > 0 {
        lemma_dec_val_small(s.drop_last());
        assert(digit_val(s.last()) <= 9) by {
            assert(is_digit_char(s[s.len() - 1]));
        }
    }
}

/// Every character of a dotted quad is a digit or a dot.
pub proof fn lemma_ipv4_chars(s: Seq<char>)
    requires
        wf_ipv4(s),
    ensures
        forall|k: int| 0 <= k < s.len() ==> (is_digit_char(#[trigger] s[k]) || s[k] == '.'),
        clean_text(s),
        forall|k: int| 0 <= k < s.len() ==> #[trigger] s[k] != ':',
{
    let j1 = digit_run_end(s, 0);
    let j2 = digit_run_end(s, j1 + 1);
    let j3 = digit_run_end(s, j2 + 1);
    let j4 = digit_run_end(s, j3 + 1);
    lemma_digit_run_end_shape(s, 0);
    lemma_digit_run_end_shape(s, j1 + 1);
    lemma_digit_run_end_shape(s, j2 + 1);
    lemma_digit_run_end_shape(s, j3 + 1);
    assert forall|k: int| 0 <= k < s.len() implies (is_digit_char(#[trigger] s[k])
        || s[k] == '.') by {
        if k < j1 {
            assert(is_digit_char(s[k]));
        } else if k == j1 {
            assert(s[k] == '.');
        } else if k < j2 {
            assert(is_digit_char(s[k]));
        } else if k == j2 {
            assert(s[k] == '.');
        } else if k < j3 {
            assert(is_digit_char(s[k]));
        } else if k == j3 {
            assert(s[k] == '.');
        } else {
            assert(is_digit_char(s[k]));
        }
    }
    assert forall|k: int| 0 <= k < s.len() implies is_clean_char(#[trigger] s[k]) by {
        assert(is_digit_char(s[k]) || s[k] == '.');
    }
    assert forall|k: int| 0 <= k < s.len() implies #[trigger] s[k] != ':' by {
        assert(is_digit_char(s[k]) || s[k] == '.');
    }
}

/// Checks one octet at `i`; returns the position after it.
fn check_octet(v: &Vec<char>, i: usize) -> (r: Option<usize>)
    requires
        i <= v@.len(),
    ensures
        r matches Some(j) ==> j == digit_run_end(v@, i as int) && wf_octet_at(
            v@, i as int, j as int),
        r is None ==> !wf_octet_at(v@, i as int, digit_run_end(v@, i as int)),
{
    let j: usize = digit_run(v, i);
    if j == i || j - i > 3 {
        return None;
    }
    proof {
        lemma_digit_run_end_shape(v@, i as int);
        lemma_dec_val_small(v@.subrange(i as int, j as int));
    }
    match parse_u64_at(v, i) {
        Some((val, _end)) => {
            if val > 255 {
                return None;
            }
            let c0: char = v[i];
            if c0 == '0' && j != i + 1 {
                return None;
            }
            Some(j)
        },
        None => {
            proof {
                assert(dec_val(v@.subrange(i as int, j as int)) <= 999);
            }
            None
        },
    }
}

/// Runtime test for `wf_ipv4`.
pub fn check_ipv4(v: &Vec<char>) -> (b: bool)
    ensures
        b == wf_ipv4(v@),
{
    let j1: usize = match check_octet(v, 0) {
        Some(j) => j,
        None => {
            return false;
        },
    };
    if !(j1 < v.len() && v[j1] == '.') {
        return false;
    }
    let j2: usize = match check_octet(v, j1 + 1) {
        Some(j) => j,
        None => {
            return false;
        },
    };
    if !(j2 < v.len() && v[j2] == '.') {
        return false;
    }
    let j3: usize = match check_octet(v, j2 + 1) {
        Some(j) => j,
        None => {
            return false;
        },
    };
    if !(j3 < v.len() && v[j3] == '.') {
        return false;
    }
    let j4: usize = match check_octet(v, j3 + 1) {
        Some(j) => j,
        None => {
            return false;
        },
    };
    j4 == v.len()
}

/// A node address: dotted-quad IPv4 text and a port number.
#[derive(Debug, Clone)]
pub struct IpAddress {
    ip: String,
    port: u64,
}

impl IpAddress {
    /// The address part, as text.
    pub closed spec fn spec_ip(&self) -> Seq<char> {
        self.ip@
    }

    /// The port number.
    pub closed spec fn spec_port(&self) -> u64 {
        self.port
    }

    /// The address part is a well-formed dotted quad.
    pub open spec fn wf(&self) -> bool {
        wf_ipv4(self.spec_ip())
    }

    /// The `ip:port` text of this address.
    pub open spec fn spec_text(&self) -> Seq<char> {
        self.spec_ip() + seq![':'] + dec_seq(self.spec_port() as nat)
    }

    /// Renders this address as `ip:port`.
    pub fn to_string(&self) -> (r: String)
        ensures
            r@ == self.spec_text(),
    {
        let mut s: String = self.ip.clone();
        s.append(":");
        let p: String = u64_to_string(self.port);
        s.append(p.as_str());
        proof {
            reveal_strlit(":");
            assert(s@ =~= self.spec_text());
        }
        s
    }

    /// An address from already-split parts; succeeds exactly when the
    /// address part is a well-formed dotted quad.
    pub fn from_parts(ip: String, port: u64) -> (r: Result<IpAddress, TypeError>)
        ensures
            r is Ok <==> wf_ipv4(ip@),
            r matches Ok(a) ==> a.spec_ip() == ip@ && a.spec_port() == port && a.wf(),
            r is Err ==> r matches Err(TypeError::DeFromStringError(_)),
    {
        let v: Vec<char> = str_to_chars(&ip);
        if check_ipv4(&v) {
            Ok(IpAddress { ip, port })
        } else {
            Err(TypeError::DeFromStringError(String::from_str(
                "ipaddress string ip format error",
            )))
        }
    }

    /// A copy of this address with the same parts.
    pub fn duplicate(&self) -> (r: IpAddress)
        ensures
            r.spec_ip() == self.spec_ip(),
            r.spec_port() == self.spec_port(),
    {
        IpAddress { ip: self.ip.clone(), port: self.port }
    }

    /// A fixed address for test data.
    pub fn rand() -> (r: IpAddress)
        ensures
            r.spec_ip() == "11.11.11.11"@,
            r.spec_port() == 11,
    {
        IpAddress { ip: String::from_str("11.11.11.11"), port: 11 }
    }

    /// Reads an address from `ip:port` text: everything before the first
    /// colon must be a well-formed dotted quad, everything after it a digit
    /// run whose value fits 64 bits.
    pub fn from_str(s: &str) -> (r: Result<IpAddress, TypeError>)
        ensures
            r is Ok <==> wf_ip_port_text(s@),
            r matches Ok(a) ==> ({
                let c = find_char_from(s@, 0, ':');
                &&& a.wf()
                &&& a.spec_ip() == s@.subrange(0, c)
                &&& a.spec_port() as nat == dec_val(s@.subrange(c + 1, s@.len() as int))
            }),
            r is Err ==> r matches Err(TypeError::DeFromStringError(_)),
    {
        let v: Vec<char> = str_to_chars(s);
        let c: usize = find_char(&v, 0, ':');
        if c >= v.len() || c + 1 >= v.len() {
            return Err(TypeError::DeFromStringError(String::from_str(
                "ipaddress string split port error",
            )));
        }
        let ip_part: String = crate::text::copy_range(&v, 0, c);
        let ipv: Vec<char> = str_to_chars(ip_part.as_str());
        if !check_ipv4(&ipv) {
            return Err(TypeError::DeFromStringError(String::from_str(
                "ipaddress string ip format error",
            )));
        }
        match parse_u64_at(&v, c + 1) {
            Some((port, j)) => {
                if j == v.len() {
                    proof {
                        assert(v@.subrange(c + 1, v@.len() as int) =~= v@.subrange(
                            c + 1, digit_run_end(v@, c + 1)));
                    }
                    Ok(IpAddress { ip: ip_part, port })
                } else {
                    proof {
                        lemma_digit_run_end_shape(v@, c + 1);
                    }
                    Err(TypeError::DeFromStringError(String::from_str(
                        "ipaddress port digits error",
                    )))
                }
            },
            None => {
                proof {
                    if digit_run_end(v@, c + 1) == v@.len() && dec_val(v@.subrange(
                        c + 1, v@.len() as int)) <= u64::MAX {
                        assert(v@.subrange(c + 1, digit_run_end(v@, c + 1)) =~= v@.subrange(
                            c + 1, v@.len() as int));
                    }
                }
                Err(TypeError::DeFromStringError(String::from_str(
                    "ipaddress port digits error",
                )))
            },
        }
    }
}

/// The `ip:port` text of a well-formed address is clean, and reading it
/// back recovers the address part and the port exactly.
pub proof fn lemma_ip_text_parses(a: IpAddress)
    requires
        a.wf(),
    ensures
        wf_ip_port_text(a.spec_text()),
        clean_text(a.spec_text()),
        find_char_from(a.spec_text(), 0, ':') == a.spec_ip().len(),
        a.spec_text().subrange(0, a.spec_ip().len() as int) == a.spec_ip(),
        dec_val(a.spec_text().subrange(a.spec_ip().len() as int + 1,
            a.spec_text().len() as int)) == a.spec_port(),
{
    let t = a.spec_text();
    let ip = a.spec_ip();
    let ds = dec_seq(a.spec_port() as nat);
    lemma_ipv4_chars(ip);
    lemma_dec_seq_digits(a.spec_port() as nat);
    lemma_dec_val_of_dec_seq(a.spec_port() as nat);
    assert(t.len() == ip.len() + 1 + ds.len());
    assert forall|k: int| 0 <= k < ip.len() implies t[k] == ip[k] by {}
    assert(t[ip.len() as int] == ':');
    assert forall|k: int| 0 <= k < ds.len() implies t[ip.len() + 1 + k] == ds[k] by {}
    lemma_find_char_exact(t, 0, ':', ip.len() as int);
    assert(t.subrange(0, ip.len() as int) =~= ip);
    assert(t.subrange(ip.len() as int + 1, t.len() as int) =~= ds);
    assert forall|k: int| ip.len() + 1 <= k < t.len() implies is_digit_char(
        #[trigger] t[k]) by {
        assert(t[k] == ds[k - ip.len() - 1]);
    }
    lemma_digit_run_end_exact(t, ip.len() as int + 1, t.len() as int);
    assert(wf_ipv4(t.subrange(0, ip.len() as int)));
    assert forall|k: int| 0 <= k < t.len() implies is_clean_char(#[trigger] t[k]) by {
        if k < ip.len() {
        } else if k == ip.len() {
        } else {
            assert(is_digit_char(t[k]));
        }
    }
}

} // verus!
