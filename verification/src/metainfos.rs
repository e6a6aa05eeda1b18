//! Agent metadata resolved at startup: the gateway's address, the node's
//! own advertised address, and the tenant (environment) name, plus the
//! ingestion endpoint built from them.
use vstd::prelude::*;

use crate::error::{ClientError, TypeError};
use crate::ipaddress::{wf_ip_port_text, IpAddress};
use crate::text::{clean_text, find_char_from, is_clean_char, str_to_chars};

verus! {

/// Metadata gathered at startup, used to fill each record's blanks.
#[derive(Debug)]
pub struct MetaInfos {
    pub server_ip_port: IpAddress,
    pub node_ip_port: IpAddress,
    pub env_name: String,
    pub server_alarm_api: String,
}

impl MetaInfos {
    /// The ingestion endpoint this agent posts batches to.
    pub open spec fn spec_alarm_api(&self) -> Seq<char> {
        self.server_alarm_api@
    }

    /// The metadata can flow into wire texts: both addresses are
    /// well-formed and the tenant name needs no escaping.
    pub open spec fn wf(&self) -> bool {
        &&& self.server_ip_port.wf()
        &&& self.node_ip_port.wf()
        &&& clean_text(self.env_name@)
    }

    /// Builds the metadata from the gateway address text, the node's own
    /// resolved address, and the tenant name. Succeeds exactly when the
    /// gateway address text is well-formed `ip:port`.
    pub fn new(server_ip_port: &str, node_ip_port: IpAddress, env_name: String) -> (r:
        Result<MetaInfos, TypeError>)
        ensures
            r is Ok <==> wf_ip_port_text(server_ip_port@),
            r matches Ok(m) ==> ({
                &&& m.server_ip_port.wf()
                &&& m.server_ip_port.spec_ip() == server_ip_port@.subrange(
                    0, find_char_from(server_ip_port@, 0, ':'))
                &&& m.node_ip_port == node_ip_port
                &&& m.env_name@ == env_name@
                &&& m.spec_alarm_api() == "http://"@ + server_ip_port@ + "/api/alarm"@
            }),
            r is Err ==> r matches Err(TypeError::DeFromStringError(_)),
    {
        let server: IpAddress = match IpAddress::from_str(server_ip_port) {
            Ok(a) => a,
            Err(e) => {
                return Err(e);
            },
        };
        let mut api: String = String::from_str("http://");
        api.append(server_ip_port);
        api.append("/api/alarm");
        Ok(MetaInfos { server_ip_port: server, node_ip_port, env_name, server_alarm_api: api })
    }

    /// The ingestion endpoint this agent posts batches to.
    pub fn alarm_api(&self) -> (r: &str)
        ensures
            r@ == self.spec_alarm_api(),
    {
        self.server_alarm_api.as_str()
    }

    /// A copy of this metadata with the same parts.
    pub fn duplicate(&self) -> (r: MetaInfos)
        ensures
            r.server_ip_port.spec_ip() == self.server_ip_port.spec_ip(),
            r.server_ip_port.spec_port() == self.server_ip_port.spec_port(),
            r.node_ip_port.spec_ip() == self.node_ip_port.spec_ip(),
            r.node_ip_port.spec_port() == self.node_ip_port.spec_port(),
            r.env_name@ == self.env_name@,
            r.spec_alarm_api() == self.spec_alarm_api(),
    {
        MetaInfos {
            server_ip_port: self.server_ip_port.duplicate(),
            node_ip_port: self.node_ip_port.duplicate(),
            env_name: self.env_name.clone(),
            server_alarm_api: self.server_alarm_api.clone(),
        }
    }
}

/// An ASCII letter or digit.
pub open spec fn is_ascii_alnum(c: char) -> bool {
    ('a' <= c && c <= 'z') || ('A' <= c && c <= 'Z') || ('0' <= c && c <= '9')
}

/// The character an environment name keeps: letters and digits stand,
/// everything else becomes an underscore.
pub open spec fn env_char(c: char) -> char {
    if is_ascii_alnum(c) {
        c
    } else {
        '_'
    }
}

/// The environment name with every character mapped.
pub open spec fn env_mapped(s: Seq<char>) -> Seq<char> {
    Seq::new(s.len(), |i: int| env_char(s[i]))
}

/// The formatted environment name: mapped, and shortened around a double
/// underscore when longer than 52 characters.
pub open spec fn env_formatted(s: Seq<char>) -> Seq<char> {
    let m = env_mapped(s);
    if m.len() > 52 {
        m.subrange(0, 25) + seq!['_', '_'] + m.subrange(m.len() - 25, m.len() as int)
    } else {
        m
    }
}

/// An ASCII character.
pub open spec fn is_ascii_char(c: char) -> bool {
    c < '\u{0080}'
}

/// Every character is ASCII.
pub open spec fn all_ascii(s: Seq<char>) -> bool {
    forall|k: int| 0 <= k < s.len() ==> is_ascii_char(#[trigger] s[k])
}

/// Normalizes a tenant (environment) name: rejects non-ASCII input, keeps
/// letters and digits, turns everything else into underscores, and
/// shortens long names to their first and last 25 characters joined by a
/// double underscore.
pub fn format_env_name(input: String) -> (r: Result<String, ClientError>)
    ensures
        r is Ok <==> all_ascii(input@),
        r matches Ok(t) ==> t@ == env_formatted(input@) && clean_text(t@),
        r is Err ==> r matches Err(ClientError::CustomError(_)),
{
    let v: Vec<char> = str_to_chars(input.as_str());
    let mut mapped: Vec<char> = Vec::new();
    let mut i: usize = 0;
    while i < v.len()
        invariant
            i <= v@.len(),
            v@ == input@,
            mapped@.len() == i,
            forall|k: int| 0 <= k < i ==> mapped@[k] == env_char(v@[k]),
            forall|k: int| 0 <= k < i ==> is_ascii_char(#[trigger] v@[k]),
        decreases v@.len() - i,
    {
        let c: char = v[i];
        if !(c < '\u{0080}') {
            return Err(ClientError::CustomError(String::from_str(
                "env_name contain non ascii character",
            )));
        }
        let keep: bool = ('a' <= c && c <= 'z') || ('A' <= c && c <= 'Z') || ('0' <= c
            && c <= '9');
        if keep {
            mapped.push(c);
        } else {
            mapped.push('_');
        }
        i = i + 1;
    }
    proof {
        assert(mapped@ =~= env_mapped(input@));
    }
    let out: Vec<char> = if mapped.len() > 52 {
        let mut out: Vec<char> = crate::log_handler::sub_vec(&mapped, 0, 25);
        out.push('_');
        out.push('_');
        let tail: Vec<char> = crate::log_handler::sub_vec(&mapped, mapped.len() - 25,
            mapped.len());
        let mut k: usize = 0;
        proof {
            assert(out@ =~= mapped@.subrange(0, 25) + seq!['_', '_'] + tail@.subrange(
                0, 0));
        }
        while k < tail.len()
            invariant
                k <= tail@.len(),
                mapped@.len() > 52,
                tail@ == mapped@.subrange(mapped@.len() - 25, mapped@.len() as int),
                out@ == mapped@.subrange(0, 25) + seq!['_', '_'] + tail@.subrange(
                    0, k as int),
            decreases tail@.len() - k,
        {
            out.push(tail[k]);
            k = k + 1;
            proof {
                assert(out@ =~= mapped@.subrange(0, 25) + seq!['_', '_'] + tail@.subrange(
                    0, k as int));
            }
        }
        proof {
            assert(tail@.subrange(0, tail@.len() as int) =~= tail@);
        }
        out
    } else {
        mapped
    };
    proof {
        assert(out@ =~= env_formatted(input@));
        assert forall|k: int| 0 <= k < out@.len() implies is_clean_char(
            #[trigger] out@[k]) by {
            let m = env_mapped(input@);
            assert(forall|t: int| 0 <= t < m.len() ==> #[trigger] m[t] == env_char(
                input@[t]));
        }
    }
    Ok(crate::text::chars_to_string(&out))
}

} // verus!
