//! The ingestion gateway's decision logic: route an HTTP request, judge
//! its content type, split a batch body into its elements, map each
//! element's kind to a durable-queue list, and choose the response. The
//! surrounding process does the listening, reading and queue pushes.
use vstd::prelude::*;

use crate::alarm_type::MetricsAlarmType;
use crate::log_handler::find_sub_from;
use crate::text::{str_eq, str_to_chars};

verus! {

/// Lowercase form of an ASCII letter; everything else stands.
pub open spec fn ascii_lower(c: char) -> char {
    if 'A' <= c && c <= 'Z' {
        ((c as u32) + 32) as char
    } else {
        c
    }
}

/// The text with ASCII letters lowered.
pub open spec fn lower_text(s: Seq<char>) -> Seq<char> {
    Seq::new(s.len(), |i: int| ascii_lower(s[i]))
}

/// The content-type value names JSON: its lowercase form holds the text
/// `application/json` somewhere.
pub open spec fn spec_content_type_ok(v: Seq<char>) -> bool {
    find_sub_from(lower_text(v), "application/json"@, 0) < lower_text(v).len()
}

/// Judges a content-type header value.
pub fn content_type_ok(v: &str) -> (r: bool)
    ensures
        r == spec_content_type_ok(v@),
{
    let cs: Vec<char> = str_to_chars(v);
    let mut low: Vec<char> = Vec::new();
    let mut i: usize = 0;
    while i < cs.len()
        invariant
            i <= cs@.len(),
            cs@ == v@,
            low@.len() == i,
            forall|k: int| 0 <= k < i ==> low@[k] == ascii_lower(v@[k]),
        decreases cs@.len() - i,
    {
        let c: char = cs[i];
        if 'A' <= c && c <= 'Z' {
            low.push((((c as u32) + 32) as u8) as char);
            proof {
                assert(low@[i as int] == ascii_lower(v@[i as int]));
            }
        } else {
            low.push(c);
        }
        i = i + 1;
    }
    proof {
        assert(low@ =~= lower_text(v@));
    }
    let j: usize = crate::log_handler::find_sub(&low, 0, "application/json");
    j < low.len()
}

/// End of one array element: walks characters with bracket depth and
/// string state, and yields the position of the comma or closing bracket
/// that ends the element at depth zero, or one past the length when the
/// element never ends well.
pub open spec fn arr_elem_end(s: Seq<char>, i: int, depth: int, in_str: bool) -> int
    decreases s.len() - i,
{
    if i < 0 || i >= s.len() {
        s.len() as int + 1
    } else if in_str {
        if s[i] == '"' {
            arr_elem_end(s, i + 1, depth, false)
        } else if s[i] == '\\' {
            s.len() as int + 1
        } else {
            arr_elem_end(s, i + 1, depth, true)
        }
    } else {
        if depth <= 0 && (s[i] == ',' || s[i] == ']') {
            i
        } else if s[i] == '"' {
            arr_elem_end(s, i + 1, depth, true)
        } else if s[i] == '{' || s[i] == '[' {
            arr_elem_end(s, i + 1, depth + 1, false)
        } else if s[i] == '}' {
            if depth <= 0 {
                s.len() as int + 1
            } else {
                arr_elem_end(s, i + 1, depth - 1, false)
            }
        } else {
            arr_elem_end(s, i + 1, depth, false)
        }
    }
}

/// The elements of the array body from position `i` on: texts separated by
/// top-level commas, closed by the final bracket, which must end the body.
pub open spec fn spec_elems(s: Seq<char>, i: int) -> Option<Seq<Seq<char>>>
    decreases s.len() - i,
{
    let e = arr_elem_end(s, i, 0, false);
    if e >= s.len() {
        None
    } else if s[e] == ']' {
        if e + 1 == s.len() && e > i {
            Some(seq![s.subrange(i, e)])
        } else {
            None
        }
    } else {
        if e > i {
            match spec_elems(s, e + 1) {
                Some(rest) => Some(seq![s.subrange(i, e)] + rest),
                None => None,
            }
        } else {
            None
        }
    }
}

/// The whole body parsed as a JSON array of elements: a bracket, the
/// elements, the closing bracket ending the body. An empty array yields
/// no elements.
pub open spec fn spec_body_elems(s: Seq<char>) -> Option<Seq<Seq<char>>> {
    if s.len() >= 2 && s[0] == '[' {
        if s.len() == 2 && s[1] == ']' {
            Some(Seq::empty())
        } else {
            spec_elems(s, 1)
        }
    } else {
        None
    }
}

/// Position of the end of one array element.
fn elem_scan(v: &Vec<char>, i: usize) -> (r: Option<usize>)
    requires
        i <= v@.len(),
    ensures
        r matches Some(j) ==> j == arr_elem_end(v@, i as int, 0, false) && i <= j
            < v@.len(),
        r is None ==> arr_elem_end(v@, i as int, 0, false) > v@.len(),
{
    let mut j: usize = i;
    let mut depth: usize = 0;
    let mut in_str: bool = false;
    let mut ok: bool = true;
    loop
        invariant_except_break
            i <= j <= v@.len(),
            depth <= j,
            ok,
            arr_elem_end(v@, j as int, depth as int, in_str) == arr_elem_end(
                v@, i as int, 0, false),
        ensures
            ({
                let e = arr_elem_end(v@, i as int, 0, false);
                (!ok ==> e > v@.len()) && (ok ==> j == e && i <= j < v@.len())
            }),
        decreases v@.len() - j,
    {
        if j == v.len() {
            ok = false;
            break;
        }
        let c: char = v[j];
        if in_str {
            if c == '"' {
                in_str = false;
            } else if c == '\\' {
                ok = false;
                break;
            }
        } else {
            if depth == 0 && (c == ',' || c == ']') {
                break;
            } else if c == '"' {
                in_str = true;
            } else if c == '{' || c == '[' {
                depth = depth + 1;
            } else if c == '}' {
                if depth == 0 {
                    ok = false;
                    break;
                } else {
                    depth = depth - 1;
                }
            }
        }
        j = j + 1;
    }
    if ok {
        Some(j)
    } else {
        None
    }
}

/// Splits an array body into its element texts.
fn split_elems(v: &Vec<char>, i: usize) -> (r: Option<Vec<String>>)
    requires
        i <= v@.len(),
    ensures
        r is Some <==> spec_elems(v@, i as int) is Some,
        r matches Some(es) ==> (spec_elems(v@, i as int) matches Some(q)
            && crate::consumer_backend::views_of(es@) == q),
    decreases v@.len() - i,
{
    let n: usize = v.len();
    let e: usize = match elem_scan(v, i) {
        Some(x) => x,
        None => {
            return None;
        },
    };
    if v[e] == ']' {
        if e + 1 == v.len() && e > i {
            let t: String = crate::text::copy_range(v, i, e);
            let mut out: Vec<String> = Vec::new();
            out.push(t);
            proof {
                assert(crate::consumer_backend::views_of(out@) =~= seq![v@.subrange(
                    i as int, e as int)]);
            }
            Some(out)
        } else {
            None
        }
    } else {
        if e > i {
            match split_elems(v, e + 1) {
                Some(rest) => {
                    let t: String = crate::text::copy_range(v, i, e);
                    let mut out: Vec<String> = Vec::new();
                    out.push(t);
                    let ghost mut k: int = 0;
                    let ghost restv = rest@;
                    let mut rest2: Vec<String> = rest;
                    loop
                        invariant_except_break
                            0 <= k,
                            out@.len() == 1 + k,
                            k + rest2@.len() == restv.len(),
                            out@[0]@ == v@.subrange(i as int, e as int),
                            forall|t2: int| 0 <= t2 < k ==> out@[1 + t2] == restv[t2],
                            forall|t2: int| 0 <= t2 < rest2@.len() ==> rest2@[t2]
                                == restv[k + t2],
                        ensures
                            out@.len() == 1 + restv.len(),
                            out@[0]@ == v@.subrange(i as int, e as int),
                            forall|t2: int| 0 <= t2 < restv.len() ==> out@[1 + t2]
                                == restv[t2],
                        decreases rest2@.len(),
                    {
                        if rest2.len() == 0 {
                            break;
                        }
                        let x: String = rest2.remove(0);
                        out.push(x);
                        proof {
                            k = k + 1;
                        }
                    }
                    proof {
                        assert(crate::consumer_backend::views_of(out@) =~= seq![
                            v@.subrange(i as int, e as int)] + crate::consumer_backend::views_of(
                            restv));
                    }
                    Some(out)
                },
                None => None,
            }
        } else {
            None
        }
    }
}

/// The kind named by a string's text: one of the three lowercase names.
pub open spec fn spec_kind_of_name(name: Seq<char>) -> Option<MetricsAlarmType> {
    if name == "counter"@ {
        Some(MetricsAlarmType::Counter)
    } else if name == "timer"@ {
        Some(MetricsAlarmType::Timer)
    } else if name == "flow"@ {
        Some(MetricsAlarmType::Flow)
    } else {
        None
    }
}

/// The kind an element carries: the element is an object whose top-level
/// fields hold a string-valued `alarm_type`, wherever it stands among them,
/// naming a live kind.
pub open spec fn spec_elem_kind(t: Seq<char>) -> Option<MetricsAlarmType> {
    let o = crate::text::ws_end(t, 0);
    if o < t.len() && t[o] == '{' {
        match crate::log_handler::spec_field_from(t, o + 1, "alarm_type"@) {
            Some((is_s, lo, hi)) => if is_s {
                spec_kind_of_name(t.subrange(lo, hi))
            } else {
                None
            },
            None => None,
        }
    } else {
        None
    }
}

/// Reads the kind an element's `alarm_type` field names.
pub fn elem_kind(t: &str) -> (r: Option<MetricsAlarmType>)
    ensures
        r == spec_elem_kind(t@),
{
    proof {
        reveal_strlit("counter");
        reveal_strlit("timer");
        reveal_strlit("flow");
        assert("counter"@.len() == 7);
        assert("timer"@.len() == 5);
        assert("flow"@.len() == 4);
    }
    let v: Vec<char> = str_to_chars(t);
    let o: usize = crate::text::skip_ws(&v, 0);
    if !(o < v.len() && v[o] == '{') {
        return None;
    }
    match crate::log_handler::find_field(&v, o + 1, "alarm_type") {
        Some((is_s, lo, hi)) => {
            if !is_s {
                return None;
            }
            let name: String = crate::text::copy_range(&v, lo, hi);
            if str_eq(name.as_str(), "counter") {
                Some(MetricsAlarmType::Counter)
            } else if str_eq(name.as_str(), "timer") {
                Some(MetricsAlarmType::Timer)
            } else if str_eq(name.as_str(), "flow") {
                Some(MetricsAlarmType::Flow)
            } else {
                None
            }
        },
        None => None,
    }
}

/// The pushes a batch asks for: each element that names a live kind goes,
/// with its kind, onto that kind's durable list; the others are dropped.
pub open spec fn spec_pushes(es: Seq<Seq<char>>) -> Seq<(MetricsAlarmType, Seq<char>)>
    decreases es.len(),
{
    if es.len() == 0 {
        Seq::empty()
    } else {
        let tail = spec_pushes(es.subrange(1, es.len() as int));
        match spec_elem_kind(es[0]) {
            Some(k) => seq![(k, es[0])] + tail,
            None => tail,
        }
    }
}

/// A batch's pushes handle a concatenation piecewise.
proof fn lemma_pushes_concat(a: Seq<Seq<char>>, b: Seq<Seq<char>>)
    ensures
        spec_pushes(a + b) == spec_pushes(a) + spec_pushes(b),
    decreases a.len(),
{
    if a.len() == 0 {
        assert(a + b =~= b);
        assert(spec_pushes(a) + spec_pushes(b) =~= spec_pushes(b));
    } else {
        assert((a + b).subrange(1, (a + b).len() as int) =~= a.subrange(1, a.len() as int)
            + b);
        lemma_pushes_concat(a.subrange(1, a.len() as int), b);
        assert((a + b)[0] == a[0]);
        match spec_elem_kind(a[0]) {
            Some(k) => {
                assert(seq![(k, a[0])] + (spec_pushes(a.subrange(1, a.len() as int))
                    + spec_pushes(b)) =~= (seq![(k, a[0])] + spec_pushes(a.subrange(1,
                    a.len() as int))) + spec_pushes(b));
            },
            None => {},
        }
    }
}

/// The plain values of a push list.
pub open spec fn push_views(ps: Seq<(MetricsAlarmType, String)>) -> Seq<
    (MetricsAlarmType, Seq<char>),
> {
    ps.map(|i: int, p: (MetricsAlarmType, String)| (p.0, p.1@))
}

/// What the gateway answers and does for one request: an HTTP status, a
/// response body, and the elements to push onto the durable lists.
pub struct GatewayReply {
    pub status: u16,
    pub body: String,
    pub pushes: Vec<(MetricsAlarmType, String)>,
}

/// Routes one request. `GET /` answers the banner; `GET /api/ip` echoes
/// the caller's address; `POST /api/alarm` demands a JSON content type and
/// a JSON array body, answers `200 ok` on any syntactically valid batch
/// (an empty one included) and pushes each element that names a live kind,
/// drops the others silently, and answers `422` for a missing or wrong
/// content type and for an unparseable body; anything else is `404`.
pub fn handle(method: &str, path: &str, content_type: Option<&str>, body: &str,
    caller_addr: &str) -> (r: GatewayReply)
    ensures
        (method@ == "GET"@ && path@ == "/"@) ==> r.status == 200 && r.body@
            == "DW Server Proxy"@ && r.pushes@.len() == 0,
        (method@ == "GET"@ && path@ == "/api/ip"@) ==> r.status == 200 && r.body@
            == caller_addr@ && r.pushes@.len() == 0,
        (method@ == "POST"@ && path@ == "/api/alarm"@) ==> ({
            &&& (content_type matches Some(ct) && spec_content_type_ok(ct@)) ==> ({
                match spec_body_elems(body@) {
                    Some(es) => r.status == 200 && r.body@ == "ok"@ && push_views(
                        r.pushes@) == spec_pushes(es),
                    None => r.status == 422 && r.pushes@.len() == 0,
                }
            })
            &&& (content_type is None) ==> r.status == 422 && r.pushes@.len() == 0
            &&& (content_type matches Some(ct) && !spec_content_type_ok(ct@)) ==> r.status
                == 422 && r.pushes@.len() == 0
        }),
        (!(method@ == "GET"@ && path@ == "/"@) && !(method@ == "GET"@ && path@
            == "/api/ip"@) && !(method@ == "POST"@ && path@ == "/api/alarm"@)) ==> r.status
            == 404 && r.pushes@.len() == 0,
{
    proof {
        reveal_strlit("GET");
        reveal_strlit("POST");
        reveal_strlit("/");
        reveal_strlit("/api/ip");
        reveal_strlit("/api/alarm");
        assert("GET"@.len() == 3);
        assert("POST"@.len() == 4);
        assert("/"@.len() == 1);
        assert("/api/ip"@.len() == 7);
        assert("/api/alarm"@.len() == 10);
    }
    if str_eq(method, "GET") && str_eq(path, "/") {
        return GatewayReply {
            status: 200,
            body: String::from_str("DW Server Proxy"),
            pushes: Vec::new(),
        };
    }
    if str_eq(method, "GET") && str_eq(path, "/api/ip") {
        return GatewayReply {
            status: 200,
            body: String::from_str(caller_addr),
            pushes: Vec::new(),
        };
    }
    if str_eq(method, "POST") && str_eq(path, "/api/alarm") {
        let ct_ok: bool = match content_type {
            Some(ct) => content_type_ok(ct),
            None => false,
        };
        if !ct_ok {
            return GatewayReply {
                status: 422,
                body: String::from_str("Unprocessable Data"),
                pushes: Vec::new(),
            };
        }
        let v: Vec<char> = str_to_chars(body);
        let elems: Option<Vec<String>> = if v.len() >= 2 && v[0] == '[' {
            if v.len() == 2 && v[1] == ']' {
                Some(Vec::new())
            } else {
                split_elems(&v, 1)
            }
        } else {
            None
        };
        match elems {
            Some(es) => {
                let ghost esv = crate::consumer_backend::views_of(es@);
                let mut pushes: Vec<(MetricsAlarmType, String)> = Vec::new();
                let ghost mut i: int = 0;
                let ghost total = es@.len();
                let mut es2: Vec<String> = es;
                proof {
                    assert(esv.subrange(0, 0) =~= Seq::<Seq<char>>::empty());
                    assert(push_views(pushes@) =~= spec_pushes(esv.subrange(0, 0)));
                }
                while es2.len() > 0
                    invariant
                        0 <= i,
                        i + es2@.len() == esv.len(),
                        forall|k: int| 0 <= k < es2@.len() ==> (#[trigger] es2@[k])@
                            == esv[i + k],
                        push_views(pushes@) == spec_pushes(esv.subrange(0, i)),
                    decreases es2@.len(),
                {
                    let ghost prev = es2@;
                    let el: String = es2.remove(0);
                    proof {
                        assert(el == prev[0]);
                        assert(el@ == esv[i]);
                    }
                    let ghost old_pushes = pushes@;
                    match elem_kind(el.as_str()) {
                        Some(k) => {
                            pushes.push((k, el));
                        },
                        None => {},
                    }
                    proof {
                        reveal_with_fuel(spec_pushes, 3);
                        let one = seq![esv[i]];
                        assert(esv.subrange(0, i + 1) =~= esv.subrange(0, i) + one);
                        lemma_pushes_concat(esv.subrange(0, i), one);
                        assert(one.subrange(1, 1) =~= Seq::<Seq<char>>::empty());
                        assert(one[0] == esv[i]);
                        match spec_elem_kind(esv[i]) {
                            Some(k) => {
                                assert(spec_pushes(one) =~= seq![(k, esv[i])]);
                                assert(push_views(pushes@) =~= push_views(old_pushes)
                                    + spec_pushes(one));
                            },
                            None => {
                                assert(spec_pushes(one) =~= Seq::<(MetricsAlarmType, Seq<
                                    char>)>::empty());
                                assert(push_views(pushes@) =~= push_views(old_pushes)
                                    + spec_pushes(one));
                            },
                        }
                        assert(push_views(pushes@) =~= spec_pushes(esv.subrange(0, i
                            + 1)));
                        i = i + 1;
                    }
                }
                proof {
                    assert(esv.subrange(0, esv.len() as int) =~= esv);
                }
                GatewayReply { status: 200, body: String::from_str("ok"), pushes }
            },
            None => GatewayReply {
                status: 422,
                body: String::from_str("Unprocessable Data"),
                pushes: Vec::new(),
            },
        }
    } else {
        GatewayReply {
            status: 404,
            body: String::from_str("404 NOT FOUND"),
            pushes: Vec::new(),
        }
    }
}

} // verus!
