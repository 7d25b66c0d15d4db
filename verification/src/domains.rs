//! Custom domains: how a `Host` header or a requested host is normalized and
//! which hosts may be mapped to a project.

use vstd::prelude::*;
use vstd::string::StringExecFns;

use crate::text::{
    chars_of, lemma_split_last_no_sep, lemma_split_nonempty, range_contains, split, split_ranges,
    string_of, trim, trim_str,
};

verus! {

/// What `str::to_lowercase` makes of `s` (Unicode lower case). A function of `s` alone.
pub uninterp spec fn unicode_lowercase(s: Seq<char>) -> Seq<char>;

/// Whether every character of `s` is ASCII.
pub open spec fn all_ascii(s: Seq<char>) -> bool {
    forall|i: int| 0 <= i < s.len() ==> (s[i] as u32) < 128
}

/// Calls `str::to_lowercase`. The contract claims that the result is the
/// named function of the input and that, on ASCII text, Unicode lower case is
/// ASCII lower case (`A`-`Z` to `a`-`z`, all else kept); the Unicode case
/// mapping of other characters is not stated.
#[verifier::external_body]
fn to_lowercase(s: &str) -> (r: String)
    ensures
        r@ == unicode_lowercase(s@),
        all_ascii(s@) ==> r@ == crate::serve::ascii_lower_seq(s@),
{
    s.to_lowercase()
}

/// A host as typed or sent: trimmed, then lower-cased.
pub open spec fn spec_lowered_host(raw: Seq<char>) -> Seq<char> {
    unicode_lowercase(trim(raw))
}

/// The trimmed, lower-cased form of a host, before any port is removed.
pub fn lowercase_trimmed(raw: &str) -> (r: String)
    ensures
        r@ == spec_lowered_host(raw@),
        all_ascii(trim(raw@)) ==> r@ == crate::serve::ascii_lower_seq(trim(raw@)),
{
    to_lowercase(trim_str(raw))
}

/// The text after the last `:` of `s` (the whole of `s` when it holds none).
pub open spec fn after_last_colon(s: Seq<char>) -> Seq<char> {
    split(s, ':').last()
}

/// `s.rsplit_once(':')`: the text before and after the last `:`, when there is one.
pub open spec fn spec_rsplit_colon(s: Seq<char>) -> Option<(Seq<char>, Seq<char>)> {
    if s.contains(':') {
        let port = after_last_colon(s);
        Some((s.subrange(0, s.len() - port.len() - 1), port))
    } else {
        None
    }
}

/// Split a host at its last `:` into the name and what may be a port.
pub fn host_port_split(s: &str) -> (r: Option<(String, String)>)
    ensures
        match r {
            Some((h, p)) => spec_rsplit_colon(s@) == Some((h@, p@)),
            None => spec_rsplit_colon(s@) is None,
        },
{
    let v = chars_of(s);
    let n = v.len();
    assert(v@.subrange(0, n as int) =~= s@);
    if !range_contains(&v, 0, n, ':') {
        return None;
    }
    let r = split_ranges(&v, 0, n, ':');
    proof {
        lemma_split_nonempty(s@, ':');
        lemma_split_last_no_sep(s@, ':');
    }
    let (a, b) = r[r.len() - 1];
    assert(r@[r.len() - 1] == (a, b));
    assert(after_last_colon(s@) == v@.subrange(a as int, b as int));
    let h = string_of(s, 0, n - (b - a) - 1);
    let p = string_of(s, a, b);
    Some((h, p))
}

/// Whether every character of `s` is an ASCII digit (vacuously so when `s` is empty).
pub open spec fn all_ascii_digits(s: Seq<char>) -> bool {
    forall|k: int| 0 <= k < s.len() ==> '0' <= #[trigger] s[k] && s[k] <= '9'
}

/// The normalized host: a trailing `:port` (digits only, possibly none) is
/// dropped, unless the name before it holds `]` or parses as an IPv6 address.
pub open spec fn spec_normalize_lowered(s: Seq<char>, host_is_ipv6: bool) -> Seq<char> {
    match spec_rsplit_colon(s) {
        Some((host, port)) => if !host.contains(']') && !host_is_ipv6 && all_ascii_digits(port) {
            host
        } else {
            s
        },
        None => s,
    }
}

/// Normalize Host header / user input once trimmed and lower-cased: strip a
/// port. `host_is_ipv6` tells whether the text before the last `:` parses as
/// an IPv6 address (`std::net::Ipv6Addr`); it is not consulted otherwise.
pub fn normalize_host_lowered(s: &str, host_is_ipv6: bool) -> (r: String)
    ensures
        r@ == spec_normalize_lowered(s@, host_is_ipv6),
{
    match host_port_split(s) {
        Some((host, port)) => {
            let hv = chars_of(host.as_str());
            let pv = chars_of(port.as_str());
            let mut digits = true;
            let mut k: usize = 0;
            while k < pv.len()
                invariant
                    k <= pv.len(),
                    digits == (forall|m: int| 0 <= m < k ==> '0' <= #[trigger] pv@[m] && pv@[m] <= '9'),
                decreases pv.len() - k,
            {
                let c = pv[k];
                if !('0' <= c && c <= '9') {
                    digits = false;
                }
                k = k + 1;
            }
            assert(hv@.subrange(0, hv@.len() as int) =~= host@);
            if !range_contains(&hv, 0, hv.len(), ']') && !host_is_ipv6 && digits {
                host
            } else {
                String::from_str(s)
            }
        },
        None => String::from_str(s),
    }
}

/// Why a host cannot be mapped to a project.
#[derive(Debug, Clone, Copy, PartialEq, Eq, Structural)]
pub enum DomainHostError {
    /// The normalized host is empty.
    Required,
    /// The normalized host holds a `/` or a space.
    Invalid,
}

impl DomainHostError {
    pub open spec fn spec_message(self) -> Seq<char> {
        match self {
            DomainHostError::Required => "host is required"@,
            DomainHostError::Invalid => "invalid host"@,
        }
    }

    /// The text of the error, as shown to API clients.
    pub fn message(&self) -> (m: &'static str)
        ensures
            m@ == self.spec_message(),
    {
        match self {
            DomainHostError::Required => "host is required",
            DomainHostError::Invalid => "invalid host",
        }
    }
}

/// Whether a normalized host may be mapped: it must not be empty and must
/// hold neither `/` nor a space.
pub fn validate_domain_host(host: &str) -> (r: Result<(), DomainHostError>)
    ensures
        r == (if host@.len() == 0 {
            Err(DomainHostError::Required)
        } else if host@.contains('/') || host@.contains(' ') {
            Err(DomainHostError::Invalid)
        } else {
            Ok::<(), DomainHostError>(())
        }),
{
    let v = chars_of(host);
    let n = v.len();
    assert(v@.subrange(0, n as int) =~= host@);
    if n == 0 {
        Err(DomainHostError::Required)
    } else if range_contains(&v, 0, n, '/') || range_contains(&v, 0, n, ' ') {
        Err(DomainHostError::Invalid)
    } else {
        Ok(())
    }
}

/// A host given with a numeric port is stored without it (`app.example.com:8080`
/// and `app.example.com` name the same domain), an IPv6 address or bracketed
/// name excepted; a host without `:` is kept as it is.
pub proof fn law_port_dropped(name: Seq<char>, port: Seq<char>, plain: Seq<char>, ipv6: bool)
    requires
        !name.contains(':'),
        !name.contains(']'),
        all_ascii_digits(port),
        !plain.contains(':'),
    ensures
        spec_normalize_lowered(name + seq![':'] + port, false) == name,
        spec_normalize_lowered(plain, ipv6) == plain,
{
    assert(!port.contains(':')) by {
        if port.contains(':') {
            let k = choose|k: int| 0 <= k < port.len() && port[k] == ':';
            assert('0' <= port[k] && port[k] <= '9');
        }
    }
    let s = name + seq![':'] + port;
    crate::text::lemma_split_append(name, port, ':');
    assert(after_last_colon(s) == port);
    assert(s[name.len() as int] == ':');
    assert(s.contains(':'));
    assert(s.subrange(0, s.len() - port.len() - 1) =~= name);
}

} // verus!
