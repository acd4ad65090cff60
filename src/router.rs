use vstd::prelude::*;
use crate::error::TunnelError;

verus! {

pub open spec fn is_digit(c: char) -> bool {
    '0' <= c && c <= '9'
}

/// `k` is the colon that opens a trailing `:<digits>` port suffix of `s`.
pub open spec fn is_port_colon(s: Seq<char>, k: int) -> bool {
    &&& 0 <= k < s.len() - 1
    &&& s[k] == ':'
    &&& forall|j: int| k < j < s.len() ==> is_digit(#[trigger] s[j])
}

/// The host header with a trailing `:<digits>` suffix removed, if it has one.
pub open spec fn host_part(s: Seq<char>) -> Seq<char> {
    if exists|k: int| is_port_colon(s, k) {
        s.subrange(0, choose|k: int| is_port_colon(s, k))
    } else {
        s
    }
}

/// Some dot-delimited label of `h` is empty.
pub open spec fn has_empty_label(h: Seq<char>) -> bool {
    ||| h.len() == 0
    ||| h[0] == '.'
    ||| h[h.len() - 1] == '.'
    ||| exists|i: int| 0 <= i < h.len() - 1 && h[i] == '.' && #[trigger] h[i + 1] == '.'
}

/// `h` is made of digits and dots only (an IP literal).
pub open spec fn is_numeric(h: Seq<char>) -> bool {
    forall|i: int| 0 <= i < h.len() ==> (#[trigger] h[i] == '.' || is_digit(h[i]))
}

/// `h` holds a colon or opens with a bracket: an IPv6 literal, bare or bracketed.
pub open spec fn is_ipv6_form(h: Seq<char>) -> bool {
    ||| (h.len() > 0 && h[0] == '[')
    ||| exists|i: int| 0 <= i < h.len() && #[trigger] h[i] == ':'
}

/// `h` is a bare IP literal, version 4 or 6.
pub open spec fn is_ip_literal(h: Seq<char>) -> bool {
    is_numeric(h) || is_ipv6_form(h)
}

/// `h` has at least two dots, so its first label stands above two more.
pub open spec fn has_two_dots(h: Seq<char>) -> bool {
    exists|i: int, j: int| 0 <= i < j < h.len() && #[trigger] h[i] == '.' && #[trigger] h[j] == '.'
}

pub open spec fn valid_host(h: Seq<char>) -> bool {
    !has_empty_label(h) && has_two_dots(h) && !is_ip_literal(h)
}

pub open spec fn is_first_dot(h: Seq<char>, i: int) -> bool {
    &&& 0 <= i < h.len()
    &&& h[i] == '.'
    &&& forall|j: int| 0 <= j < i ==> #[trigger] h[j] != '.'
}

/// The first dot-delimited label of `h`.
pub open spec fn first_label(h: Seq<char>) -> Seq<char> {
    h.subrange(0, choose|i: int| is_first_dot(h, i))
}

/// The endpoint identifier a host header routes to, or `InvalidHost`.
pub open spec fn spec_extract(s: Seq<char>) -> Result<Seq<char>, TunnelError> {
    let h = host_part(s);
    if valid_host(h) {
        Ok(first_label(h))
    } else {
        Err(TunnelError::InvalidHost)
    }
}

/// Equality of two strings, character by character.
pub(crate) fn str_eq(a: &str, b: &str) -> (r: bool)
    ensures
        r == (a@ == b@),
{
    let n = a.unicode_len();
    if n != b.unicode_len() {
        return false;
    }
    let mut i: usize = 0;
    while i < n
        invariant
            n == a@.len(),
            n == b@.len(),
            i <= n,
            forall|j: int| 0 <= j < i ==> a@[j] == b@[j],
        decreases n - i,
    {
        if a.get_char(i) != b.get_char(i) {
            return false;
        }
        i = i + 1;
    }
    proof {
        assert(a@ =~= b@);
    }
    true
}

fn char_is_digit(c: char) -> (r: bool)
    ensures
        r == is_digit(c),
{
    '0' <= c && c <= '9'
}

/// Removes a trailing `:<digits>` port suffix.
fn strip_port(hostname: &str) -> (r: &str)
    ensures
        r@ == host_part(hostname@),
{
    let ghost s = hostname@;
    let n = hostname.unicode_len();
    let mut d: usize = 0;
    while d < n && char_is_digit(hostname.get_char(n - 1 - d))
        invariant
            s == hostname@,
            n == s.len(),
            d <= n,
            forall|j: int| n - d <= j < n ==> is_digit(#[trigger] s[j]),
        decreases n - d,
    {
        d = d + 1;
    }
    if d > 0 && d < n && hostname.get_char(n - 1 - d) == ':' {
        let k = n - 1 - d;
        proof {
            assert(is_port_colon(s, k as int));
            assert forall|k2: int| is_port_colon(s, k2) implies k2 == k by {
                if k2 < k {
                    assert(is_digit(s[k as int]));
                } else if k2 > k {
                    assert(is_digit(s[k2]));
                }
            }
        }
        hostname.substring_char(0, k)
    } else {
        proof {
            assert forall|k2: int| !is_port_colon(s, k2) by {
                if is_port_colon(s, k2) {
                    if k2 < n - 1 - d {
                        assert(is_digit(s[n - 1 - d]));
                    } else if k2 >= n - d {
                        assert(is_digit(s[k2]));
                    }
                }
            }
        }
        hostname
    }
}

/// The endpoint identifier of a Host header: the first dot-delimited label,
/// once a trailing `:<digits>` port is removed. A host with fewer than two
/// dots, with an empty label, or that is an IP literal (digits and dots
/// alone, or an IPv6 form: a colon anywhere or a leading `[`) gives
/// `InvalidHost`.
pub fn extract(hostname: &str) -> (r: Result<String, TunnelError>)
    ensures
        match r {
            Ok(id) => spec_extract(hostname@) == Ok::<Seq<char>, TunnelError>(id@),
            Err(e) => spec_extract(hostname@) == Err::<Seq<char>, TunnelError>(e),
        },
{
    let host = strip_port(hostname);
    let ghost h = host@;
    let n = host.unicode_len();
    if n == 0 {
        return Err(TunnelError::InvalidHost);
    }
    let mut i: usize = 0;
    let mut first: usize = n;
    let mut dots: usize = 0;
    let mut doubled = false;
    let mut numeric = true;
    let mut colon = false;
    while i < n
        invariant
            h == host@,
            n == h.len(),
            n > 0,
            i <= n,
            dots <= i,
            dots == 0 ==> first == n && forall|j: int| 0 <= j < i ==> #[trigger] h[j] != '.',
            dots > 0 ==> first < i && is_first_dot(h, first as int),
            dots >= 2 ==> has_two_dots(h),
            dots == 1 ==> forall|j: int| first < j < i ==> #[trigger] h[j] != '.',
            doubled == exists|j: int| 0 <= j < i - 1 && h[j] == '.' && #[trigger] h[j + 1] == '.',
            numeric == forall|j: int| 0 <= j < i ==> (#[trigger] h[j] == '.' || is_digit(h[j])),
            colon == exists|j: int| 0 <= j < i && #[trigger] h[j] == ':',
        decreases n - i,
    {
        let c = host.get_char(i);
        if c == '.' {
            if i > 0 && host.get_char(i - 1) == '.' {
                doubled = true;
            }
            if dots == 0 {
                first = i;
            }
            if dots < 2 {
                proof {
                    if dots == 1 {
                        assert(h[first as int] == '.' && h[i as int] == '.');
                    }
                }
                dots = dots + 1;
            }
        } else if !char_is_digit(c) {
            numeric = false;
            if c == ':' {
                colon = true;
            }
        }
        proof {
            if c == '.' && i > 0 && h[i - 1] == '.' {
                assert(h[i - 1] == '.' && h[(i - 1) + 1] == '.');
            }
            assert(numeric == forall|j: int| 0 <= j < i + 1 ==> (#[trigger] h[j] == '.' || is_digit(h[j])));
            assert(colon == exists|j: int| 0 <= j < i + 1 && #[trigger] h[j] == ':');
        }
        i = i + 1;
    }
    proof {
        if dots < 2 && has_two_dots(h) {
            let (a, b) = choose|a: int, b: int| 0 <= a < b < h.len() && #[trigger] h[a] == '.' && #[trigger] h[b] == '.';
            if dots == 1 {
                assert(h[a] == '.');
                assert(h[b] == '.');
            } else {
                assert(h[a] != '.');
            }
        }
    }
    let empty = doubled || host.get_char(0) == '.' || host.get_char(n - 1) == '.';
    let ipv6 = colon || host.get_char(0) == '[';
    if empty || dots < 2 || numeric || ipv6 {
        proof {
            assert(!valid_host(h));
        }
        return Err(TunnelError::InvalidHost);
    }
    proof {
        assert(valid_host(h));
        assert forall|k: int| is_first_dot(h, k) implies k == first by {
            if k < first {
                assert(h[k] != '.');
            } else if k > first {
                assert(h[first as int] != '.');
            }
        }
    }
    Ok(String::from_str(host.substring_char(0, first)))
}

} // verus!
