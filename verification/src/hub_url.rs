//! Stable identity of a BACnet/SC hub topology.
//!
//! Hub URLs are normalized before they identify a topology, so that two
//! spellings of the same hub compare equal: surrounding white space and the
//! fragment are dropped, the scheme and host name are lower-cased, IP
//! literals take their canonical text, the default `wss` port 443 is
//! omitted, and trailing slashes of the path are removed.

use vstd::prelude::*;
use crate::runtime_config::{is_white, ipv4_text_value, parse_ipv4};

verus! {

// ----------------------------------------------------------------------------
// Character-level specifications
// ----------------------------------------------------------------------------

/// `s` without leading white space.
pub open spec fn trim_start(s: Seq<char>) -> Seq<char>
    decreases s.len(),
{
    if s.len() > 0 && is_white(s[0]) {
        trim_start(s.drop_first())
    } else {
        s
    }
}

/// `s` without trailing white space.
pub open spec fn trim_end(s: Seq<char>) -> Seq<char>
    decreases s.len(),
{
    if s.len() > 0 && is_white(s.last()) {
        trim_end(s.drop_last())
    } else {
        s
    }
}

/// `s` without trailing slashes.
pub open spec fn trim_slashes(s: Seq<char>) -> Seq<char>
    decreases s.len(),
{
    if s.len() > 0 && s.last() == '/' {
        trim_slashes(s.drop_last())
    } else {
        s
    }
}

/// First position at or after `i` holding `c` (`s.len()` when none).
pub open spec fn find_from(s: Seq<char>, i: int, c: char) -> int
    decreases s.len() - i,
{
    if i < 0 || i >= s.len() {
        s.len() as int
    } else if s[i] == c {
        i
    } else {
        find_from(s, i + 1, c)
    }
}

/// First position at or after `i` holding `/` or `?` (`s.len()` when none).
pub open spec fn find_path_start(s: Seq<char>, i: int) -> int
    decreases s.len() - i,
{
    if i < 0 || i >= s.len() {
        s.len() as int
    } else if s[i] == '/' || s[i] == '?' {
        i
    } else {
        find_path_start(s, i + 1)
    }
}

/// First position at or after `i` where `://` begins (`s.len()` when none).
pub open spec fn find_scheme_sep(s: Seq<char>, i: int) -> int
    decreases s.len() - i,
{
    if i < 0 || i + 3 > s.len() {
        s.len() as int
    } else if s[i] == ':' && s[i + 1] == '/' && s[i + 2] == '/' {
        i
    } else {
        find_scheme_sep(s, i + 1)
    }
}

/// Last position before `i` holding `:` (`-1` when none).
pub open spec fn rfind_colon(s: Seq<char>, i: int) -> int
    decreases i,
{
    if i <= 0 || i > s.len() {
        -1
    } else if s[i - 1] == ':' {
        i - 1
    } else {
        rfind_colon(s, i - 1)
    }
}

/// ASCII lower case of `c`.
pub open spec fn lower(c: char) -> char {
    if 'A' <= c && c <= 'Z' {
        ((c as u8) + 32) as char
    } else {
        c
    }
}

/// ASCII lower case of `s`.
pub open spec fn lower_seq(s: Seq<char>) -> Seq<char> {
    s.map_values(|c: char| lower(c))
}

/// Whether `c` is an ASCII digit.
pub open spec fn is_digit(c: char) -> bool {
    '0' <= c && c <= '9'
}

/// Decimal value of the digits `d`.
pub open spec fn digits_value(d: Seq<char>) -> nat
    decreases d.len(),
{
    if d.len() == 0 {
        0
    } else {
        digits_value(d.drop_last()) * 10 + ((d.last() as u32) - ('0' as u32)) as nat
    }
}

/// The `u16` that `s` denotes: an optional `+`, then one or more ASCII
/// digits, with a value of at most 65535.
pub open spec fn u16_text_value(s: Seq<char>) -> Option<u16> {
    let d = unsigned_part(s);
    if d.len() == 0 || !all_digits(d) {
        None
    } else if digits_value(d) > 65535 {
        None
    } else {
        Some(digits_value(d) as u16)
    }
}

/// `s` without one leading `+`.
pub open spec fn unsigned_part(s: Seq<char>) -> Seq<char> {
    if s.len() > 0 && s[0] == '+' {
        s.drop_first()
    } else {
        s
    }
}

/// Every character of `d` is an ASCII digit.
pub open spec fn all_digits(d: Seq<char>) -> bool {
    forall|i: int| 0 <= i < d.len() ==> is_digit(#[trigger] d[i])
}

/// Character of decimal digit `n`.
pub open spec fn digit_char(n: nat) -> char {
    (('0' as u8) + (n % 10) as u8) as char
}

/// Decimal text of `n`.
pub open spec fn decimal(n: nat) -> Seq<char>
    decreases n,
{
    if n < 10 {
        seq![digit_char(n)]
    } else {
        decimal(n / 10).push(digit_char(n % 10))
    }
}

/// Dotted-decimal text of an IPv4 address.
pub open spec fn dotted(a: [u8; 4]) -> Seq<char> {
    decimal(a[0] as nat) + seq!['.'] + decimal(a[1] as nat) + seq!['.'] + decimal(a[2] as nat) + seq!['.'] + decimal(
        a[3] as nat,
    )
}

/// The IPv6 address that `text` denotes, if any.
pub uninterp spec fn ipv6_text_value(text: Seq<char>) -> Option<[u8; 16]>;

/// The canonical text of an IPv6 address.
pub uninterp spec fn ipv6_display(octets: [u8; 16]) -> Seq<char>;

/// Whether `host` is a bracketed IPv6 literal, `[...]`.
pub open spec fn is_bracketed(host: Seq<char>) -> bool {
    host.len() >= 2 && host[0] == '[' && host.last() == ']'
}

/// The text inside the brackets of a bracketed host.
pub open spec fn bracket_inner(host: Seq<char>) -> Seq<char> {
    host.subrange(1, host.len() - 1)
}

/// Canonical host text, given what parsing gave: for a bracketed host, the
/// canonical IPv6 text `ipv6_shown` in brackets when its inside parsed as an
/// IPv6 address; for any other host, its dotted-decimal form when it parsed
/// as an IPv4 address; otherwise the host lower-cased.
pub open spec fn host_from_parses(
    host: Seq<char>,
    ipv4: Option<[u8; 4]>,
    ipv6: Option<[u8; 16]>,
    ipv6_shown: Seq<char>,
) -> Seq<char> {
    if is_bracketed(host) {
        match ipv6 {
            Some(_) => seq!['['] + ipv6_shown + seq![']'],
            None => lower_seq(host),
        }
    } else {
        match ipv4 {
            Some(a) => dotted(a),
            None => lower_seq(host),
        }
    }
}

/// Canonical host text: an IP literal in its canonical form, any other host
/// lower-cased.
pub open spec fn normalized_host(host: Seq<char>) -> Seq<char> {
    let v6 = ipv6_text_value(bracket_inner(host));
    host_from_parses(
        host,
        ipv4_text_value(host),
        v6,
        match v6 {
            Some(a) => ipv6_display(a),
            None => Seq::empty(),
        },
    )
}

/// Host text and port of an authority.
pub open spec fn split_authority(v: Seq<char>) -> (Seq<char>, Option<u16>) {
    if v.len() > 0 && v[0] == '[' {
        let rest = v.drop_first();
        let j = find_from(rest, 0, ']');
        if j < rest.len() {
            let suffix = rest.subrange(j + 1, rest.len() as int);
            let port = if suffix.len() > 0 && suffix[0] == ':' {
                u16_text_value(suffix.drop_first())
            } else {
                None
            };
            (seq!['['] + rest.subrange(0, j) + seq![']'], port)
        } else {
            (v, None)
        }
    } else {
        let j = rfind_colon(v, v.len() as int);
        if j >= 0 {
            match u16_text_value(v.subrange(j + 1, v.len() as int)) {
                Some(p) => (v.subrange(0, j), Some(p)),
                None => (v, None),
            }
        } else {
            (v, None)
        }
    }
}

/// Normalized authority; the port is omitted when it is `omit_port`.
pub open spec fn normalized_authority(v: Seq<char>, omit_port: u16) -> Seq<char> {
    let (host, port) = split_authority(v);
    let h = normalized_host(host);
    match port {
        Some(p) => if p != omit_port {
            h + seq![':'] + decimal(p as nat)
        } else {
            h
        },
        None => h,
    }
}

/// The normalized form of a hub URL.
pub open spec fn normalized_hub_url(value: Seq<char>) -> Seq<char> {
    let t = trim_end(trim_start(value));
    let v = t.subrange(0, find_from(t, 0, '#'));
    let sep = find_scheme_sep(v, 0);
    if sep >= v.len() {
        v
    } else {
        let scheme = lower_seq(v.subrange(0, sep));
        let rem = v.subrange(sep + 3, v.len() as int);
        let ae = find_path_start(rem, 0);
        let authority = rem.subrange(0, ae);
        let suffix = rem.subrange(ae, rem.len() as int);
        let omit: u16 = if scheme == seq!['w', 's', 's'] {
            443
        } else {
            0
        };
        let ts = find_from(suffix, 0, '?');
        let path0 = trim_slashes(suffix.subrange(0, ts));
        let tail = suffix.subrange(ts, suffix.len() as int);
        let path = if path0.len() == 0 && tail.len() > 0 {
            seq!['/']
        } else {
            path0
        };
        scheme + seq![':', '/', '/'] + normalized_authority(authority, omit) + path + tail
    }
}


// ----------------------------------------------------------------------------
// Laws of normalisation
// ----------------------------------------------------------------------------

/// Every character of `w` is white space.
pub open spec fn all_white(w: Seq<char>) -> bool {
    forall|i: int| 0 <= i < w.len() ==> is_white(#[trigger] w[i])
}

proof fn lemma_trim_start_skips_white(w: Seq<char>, x: Seq<char>)
    requires
        all_white(w),
    ensures
        trim_start(w + x) == trim_start(x),
    decreases w.len(),
{
    if w.len() > 0 {
        assert((w + x).drop_first() =~= w.drop_first() + x);
        assert(is_white(w[0]));
        lemma_trim_start_skips_white(w.drop_first(), x);
    } else {
        assert(w + x =~= x);
    }
}

proof fn lemma_trim_end_skips_white(x: Seq<char>, w: Seq<char>)
    requires
        all_white(w),
    ensures
        trim_end(x + w) == trim_end(x),
    decreases w.len(),
{
    if w.len() > 0 {
        assert((x + w).drop_last() =~= x + w.drop_last());
        assert(is_white(w.last()));
        lemma_trim_end_skips_white(x, w.drop_last());
    } else {
        assert(x + w =~= x);
    }
}

proof fn lemma_trim_both_ignores_trailing_white(v: Seq<char>, w: Seq<char>)
    requires
        all_white(w),
    ensures
        trim_end(trim_start(v + w)) == trim_end(trim_start(v)),
    decreases v.len(),
{
    if v.len() == 0 {
        assert(v + w =~= w);
        lemma_trim_start_skips_white(w, Seq::<char>::empty());
        assert(w + Seq::<char>::empty() =~= w);
    } else if is_white(v[0]) {
        assert((v + w).drop_first() =~= v.drop_first() + w);
        lemma_trim_both_ignores_trailing_white(v.drop_first(), w);
    } else {
        assert((v + w)[0] == v[0]);
        lemma_trim_end_skips_white(v, w);
    }
}

/// White space around a hub URL does not change its normal form.
pub proof fn lemma_surrounding_white_space_is_ignored(before: Seq<char>, value: Seq<char>, after: Seq<char>)
    requires
        all_white(before),
        all_white(after),
    ensures
        normalized_hub_url(before + value + after) == normalized_hub_url(value),
{
    lemma_trim_start_skips_white(before, value + after);
    assert(before + value + after =~= before + (value + after));
    lemma_trim_both_ignores_trailing_white(value, after);
}

proof fn lemma_find_absent(s: Seq<char>, i: int, c: char)
    requires
        0 <= i <= s.len(),
        forall|k: int| i <= k < s.len() ==> s[k] != c,
    ensures
        find_from(s, i, c) == s.len(),
    decreases s.len() - i,
{
    if i < s.len() {
        lemma_find_absent(s, i + 1, c);
    }
}

proof fn lemma_find_first(s: Seq<char>, i: int, k: int, c: char)
    requires
        0 <= i <= k < s.len(),
        s[k] == c,
        forall|j: int| i <= j < k ==> s[j] != c,
    ensures
        find_from(s, i, c) == k,
    decreases k - i,
{
    if i < k {
        lemma_find_first(s, i + 1, k, c);
    }
}

proof fn lemma_trim_end_keeps_solid_prefix(x: Seq<char>, y: Seq<char>)
    requires
        x.len() > 0,
        !is_white(x.last()),
    ensures
        trim_end(x + y) == x + trim_end(y),
    decreases y.len(),
{
    if y.len() == 0 {
        assert(x + y =~= x);
        assert(x + trim_end(y) =~= x);
    } else {
        assert((x + y).drop_last() =~= x + y.drop_last());
        assert((x + y).last() == y.last());
        lemma_trim_end_keeps_solid_prefix(x, y.drop_last());
        if !is_white(y.last()) {
            assert(trim_end(y) == y);
        }
    }
}

/// A fragment does not change the normal form of a hub URL that has no
/// surrounding white space and no `#` of its own.
pub proof fn lemma_fragment_is_ignored(value: Seq<char>, fragment: Seq<char>)
    requires
        value.len() > 0,
        !is_white(value[0]),
        !is_white(value.last()),
        forall|k: int| 0 <= k < value.len() ==> value[k] != '#',
    ensures
        normalized_hub_url(value + seq!['#'] + fragment) == normalized_hub_url(value),
{
    let full = value + seq!['#'] + fragment;
    assert(full[0] == value[0]);
    assert(trim_start(full) == full);
    let head = value + seq!['#'];
    assert(full =~= head + fragment);
    assert(head.last() == '#');
    lemma_trim_end_keeps_solid_prefix(head, fragment);
    let t = head + trim_end(fragment);
    assert(t[value.len() as int] == '#');
    assert forall|j: int| 0 <= j < value.len() implies t[j] != '#' by {
        assert(t[j] == value[j]);
    }
    lemma_find_first(t, 0, value.len() as int, '#');
    assert(t.subrange(0, value.len() as int) =~= value);
    assert(trim_start(value) == value);
    assert(trim_end(value) == value);
    lemma_find_absent(value, 0, '#');
    assert(value.subrange(0, value.len() as int) =~= value);
}

proof fn lemma_scheme_sep_extends(s: Seq<char>, x: Seq<char>, i: int)
    requires
        0 <= i,
        find_scheme_sep(s, i) < s.len(),
    ensures
        find_scheme_sep(s + x, i) == find_scheme_sep(s, i),
    decreases s.len() - i,
{
    let u = s + x;
    if i + 3 <= s.len() {
        assert(u[i] == s[i] && u[i + 1] == s[i + 1] && u[i + 2] == s[i + 2]);
        if !(s[i] == ':' && s[i + 1] == '/' && s[i + 2] == '/') {
            lemma_scheme_sep_extends(s, x, i + 1);
        }
    }
}

proof fn lemma_path_start_with_slash(s: Seq<char>, i: int)
    requires
        0 <= i <= s.len(),
    ensures
        find_path_start(s.push('/'), i) == find_path_start(s, i),
    decreases s.len() - i,
{
    if i < s.len() {
        assert(s.push('/')[i] == s[i]);
        lemma_path_start_with_slash(s, i + 1);
    } else {
        assert(s.push('/')[i] == '/');
    }
}

/// A trailing `/` does not change the normal form of a hub URL that has a
/// scheme, no surrounding white space, and no query or fragment.
pub proof fn lemma_trailing_slash_is_ignored(value: Seq<char>)
    requires
        value.len() > 0,
        !is_white(value[0]),
        !is_white(value.last()),
        forall|k: int| 0 <= k < value.len() ==> value[k] != '#' && value[k] != '?',
        find_scheme_sep(value, 0) < value.len(),
    ensures
        normalized_hub_url(value.push('/')) == normalized_hub_url(value),
{
    let v2 = value.push('/');
    assert(v2[0] == value[0]);
    assert(trim_start(v2) == v2);
    assert(trim_end(v2) == v2);
    assert(trim_start(value) == value);
    assert(trim_end(value) == value);
    lemma_find_absent(v2, 0, '#');
    lemma_find_absent(value, 0, '#');
    assert(v2.subrange(0, v2.len() as int) =~= v2);
    assert(value.subrange(0, value.len() as int) =~= value);
    lemma_scheme_sep_extends(value, seq!['/'], 0);
    assert(value + seq!['/'] =~= v2);
    let sep = find_scheme_sep(value, 0);
    lemma_scheme_sep_bounds(value, 0);
    assert(0 <= sep && sep + 3 <= value.len());
    let rem = value.subrange(sep + 3, value.len() as int);
    let rem2 = v2.subrange(sep + 3, v2.len() as int);
    assert(rem2 =~= rem.push('/'));
    assert(v2.subrange(0, sep) =~= value.subrange(0, sep));
    lemma_path_start_with_slash(rem, 0);
    let ae = find_path_start(rem, 0);
    lemma_path_start_bounds(rem, 0);
    assert(rem2.subrange(0, ae) =~= rem.subrange(0, ae));
    let suffix = rem.subrange(ae, rem.len() as int);
    let suffix2 = rem2.subrange(ae, rem2.len() as int);
    assert(suffix2 =~= suffix.push('/'));
    assert forall|k: int| 0 <= k < suffix.len() implies suffix[k] != '?' by {
        assert(suffix[k] == value[sep + 3 + ae + k]);
    }
    lemma_find_absent(suffix, 0, '?');
    assert forall|k: int| 0 <= k < suffix2.len() implies suffix2[k] != '?' by {
        if k < suffix.len() {
            assert(suffix2[k] == suffix[k]);
        }
    }
    lemma_find_absent(suffix2, 0, '?');
    assert(suffix2.subrange(0, suffix2.len() as int) =~= suffix2);
    assert(suffix.subrange(0, suffix.len() as int) =~= suffix);
    assert(suffix2.drop_last() =~= suffix);
    assert(trim_slashes(suffix2) == trim_slashes(suffix));
    assert(suffix2.subrange(suffix2.len() as int, suffix2.len() as int) =~= Seq::<char>::empty());
    assert(suffix.subrange(suffix.len() as int, suffix.len() as int) =~= Seq::<char>::empty());
}

proof fn lemma_scheme_sep_bounds(s: Seq<char>, i: int)
    requires
        0 <= i,
    ensures
        find_scheme_sep(s, i) == s.len() || (i <= find_scheme_sep(s, i) && find_scheme_sep(s, i) + 3 <= s.len()),
    decreases s.len() - i,
{
    if !(i < 0 || i + 3 > s.len()) && !(s[i] == ':' && s[i + 1] == '/' && s[i + 2] == '/') {
        lemma_scheme_sep_bounds(s, i + 1);
    }
}

proof fn lemma_path_start_bounds(s: Seq<char>, i: int)
    requires
        0 <= i <= s.len(),
    ensures
        i <= find_path_start(s, i) <= s.len(),
    decreases s.len() - i,
{
    if i < s.len() && !(s[i] == '/' || s[i] == '?') {
        lemma_path_start_bounds(s, i + 1);
    }
}

proof fn lemma_no_colon(s: Seq<char>, i: int)
    requires
        0 <= i <= s.len(),
        forall|k: int| 0 <= k < i ==> s[k] != ':',
    ensures
        rfind_colon(s, i) == -1,
    decreases i,
{
    if i > 0 {
        lemma_no_colon(s, i - 1);
    }
}

/// An explicit default port is the same as none: for a host name without a
/// colon or bracket, `host:443` normalizes to what `host` does when port 443
/// is the one to omit (as for `wss://` URLs).
pub proof fn lemma_default_port_is_omitted(host: Seq<char>)
    requires
        host.len() > 0,
        host[0] != '[',
        forall|k: int| 0 <= k < host.len() ==> host[k] != ':',
    ensures
        normalized_authority(host + seq![':', '4', '4', '3'], 443) == normalized_authority(host, 443),
{
    let a = host + seq![':', '4', '4', '3'];
    let n = host.len() as int;
    assert(a[0] == host[0]);
    assert(a[n] == ':');
    assert(a.len() == n + 4);
    assert(rfind_colon(a, n + 1) == n);
    assert(a[n + 1] == '4');
    assert(rfind_colon(a, n + 2) == n);
    assert(a[n + 2] == '4');
    assert(rfind_colon(a, n + 3) == n);
    assert(a[n + 3] == '3');
    assert(rfind_colon(a, n + 4) == n);
    let digits = a.subrange(n + 1, a.len() as int);
    assert(digits =~= seq!['4', '4', '3']);
    assert(unsigned_part(digits) == digits);
    assert(('4' as u32) == 52u32);
    assert(('3' as u32) == 51u32);
    assert(('0' as u32) == 48u32);
    let one = seq!['4'];
    assert(one.len() == 1 && one.last() == '4');
    assert(one.drop_last() =~= Seq::<char>::empty());
    assert(digits_value(Seq::<char>::empty()) == 0);
    assert(digits_value(one) == digits_value(one.drop_last()) * 10 + (('4' as u32) - ('0' as u32)) as nat);
    assert(digits_value(one) == 4);
    let two = seq!['4', '4'];
    assert(two.last() == '4');
    assert(two.drop_last() =~= one);
    assert(digits_value(two) == 44);
    assert(digits.last() == '3');
    assert(digits.drop_last() =~= two);
    assert(digits_value(digits) == 443);
    assert(all_digits(digits));
    assert(u16_text_value(digits) == Some(443u16));
    assert(a.subrange(0, n) =~= host);
    lemma_no_colon(host, n);
}

proof fn lemma_lower_keeps_others(c: char)
    ensures
        (lower(c) == ':') == (c == ':'),
        (lower(c) == '/') == (c == '/'),
        lower(lower(c)) == lower(c),
        is_white(lower(c)) == is_white(c),
        (lower(c) == '#') == (c == '#'),
        (lower(c) == '?') == (c == '?'),
        (lower(c) == '[') == (c == '['),
{
    if 'A' <= c && c <= 'Z' {
        assert((c as u8) >= 65 && (c as u8) <= 90);
        assert(lower(c) as u8 == (c as u8) + 32);
    }
}

proof fn lemma_scheme_sep_same(a: Seq<char>, b: Seq<char>, i: int)
    requires
        0 <= i,
        a.len() == b.len(),
        forall|k: int| 0 <= k < a.len() ==> (#[trigger] a[k] == ':') == (b[k] == ':') && (a[k] == '/') == (b[k]
            == '/'),
    ensures
        find_scheme_sep(a, i) == find_scheme_sep(b, i),
    decreases a.len() - i,
{
    if !(i + 3 > a.len()) {
        assert((a[i] == ':') == (b[i] == ':'));
        assert((a[i + 1] == '/') == (b[i + 1] == '/'));
        assert((a[i + 2] == '/') == (b[i + 2] == '/'));
        lemma_scheme_sep_same(a, b, i + 1);
    }
}

/// The letter case of the scheme does not change the normal form of a hub
/// URL that has a scheme, no surrounding white space and no fragment.
pub proof fn lemma_scheme_case_is_ignored(value: Seq<char>)
    requires
        value.len() > 0,
        !is_white(value[0]),
        !is_white(value.last()),
        forall|k: int| 0 <= k < value.len() ==> value[k] != '#',
        find_scheme_sep(value, 0) < value.len(),
    ensures
        normalized_hub_url(
            lower_seq(value.subrange(0, find_scheme_sep(value, 0))) + value.subrange(
                find_scheme_sep(value, 0),
                value.len() as int,
            ),
        ) == normalized_hub_url(value),
{
    let sep = find_scheme_sep(value, 0);
    lemma_scheme_sep_bounds(value, 0);
    let scheme = value.subrange(0, sep);
    let rest = value.subrange(sep, value.len() as int);
    let v2 = lower_seq(scheme) + rest;
    assert(v2.len() == value.len());
    assert forall|k: int| 0 <= k < value.len() implies (#[trigger] v2[k] == ':') == (value[k] == ':') && (v2[k]
        == '/') == (value[k] == '/') && (v2[k] == '#') == (value[k] == '#') && is_white(v2[k]) == is_white(value[k])
        && (k >= sep ==> v2[k] == value[k]) by {
        if k < sep {
            assert(v2[k] == lower(value[k]));
            lemma_lower_keeps_others(value[k]);
        } else {
            assert(v2[k] == value[k]);
        }
    }
    assert(trim_start(v2) == v2);
    assert(trim_end(v2) == v2);
    assert(trim_start(value) == value);
    assert(trim_end(value) == value);
    lemma_find_absent(v2, 0, '#');
    lemma_find_absent(value, 0, '#');
    assert(v2.subrange(0, v2.len() as int) =~= v2);
    assert(value.subrange(0, value.len() as int) =~= value);
    lemma_scheme_sep_same(v2, value, 0);
    assert(v2.subrange(sep + 3, v2.len() as int) =~= value.subrange(sep + 3, value.len() as int));
    assert(v2.subrange(0, sep) =~= lower_seq(scheme));
    assert(lower_seq(lower_seq(scheme)) =~= lower_seq(scheme)) by {
        assert forall|k: int| 0 <= k < scheme.len() implies lower(lower(scheme[k])) == lower(scheme[k]) by {
            lemma_lower_keeps_others(scheme[k]);
        }
    }
}

/// The letter case of a host name that is no IP literal does not change its
/// normal form.
pub proof fn lemma_host_case_is_ignored(host: Seq<char>)
    requires
        !is_bracketed(host),
        ipv4_text_value(host) is None,
        ipv4_text_value(lower_seq(host)) is None,
    ensures
        normalized_host(lower_seq(host)) == normalized_host(host),
{
    let l = lower_seq(host);
    assert(!is_bracketed(l)) by {
        if is_bracketed(l) {
            if 'A' <= host[0] && host[0] <= 'Z' {
                assert((host[0] as u8) + 32 >= 97);
            }
            if 'A' <= host.last() && host.last() <= 'Z' {
                assert((host.last() as u8) + 32 >= 97);
            }
        }
    }
    assert(lower_seq(l) =~= l) by {
        assert forall|k: int| 0 <= k < host.len() implies lower(lower(host[k])) == lower(host[k]) by {
            lemma_lower_keeps_others(host[k]);
        }
    }
}

proof fn lemma_scheme_sep_at(s: Seq<char>, i: int, k: int)
    requires
        0 <= i <= k,
        k + 3 <= s.len(),
        s[k] == ':' && s[k + 1] == '/' && s[k + 2] == '/',
        forall|j: int| i <= j < k ==> s[j] != ':',
    ensures
        find_scheme_sep(s, i) == k,
    decreases k - i,
{
    if i < k {
        lemma_scheme_sep_at(s, i + 1, k);
    }
}

proof fn lemma_path_start_at(s: Seq<char>, i: int, k: int)
    requires
        0 <= i <= k <= s.len(),
        forall|j: int| i <= j < k ==> s[j] != '/' && s[j] != '?',
        k == s.len() || s[k] == '/' || s[k] == '?',
    ensures
        find_path_start(s, i) == k,
    decreases k - i,
{
    if i < k {
        lemma_path_start_at(s, i + 1, k);
    }
}

/// Port left out of the normal form for a (lower-case) scheme: 443 for
/// `wss`, none for any other.
pub open spec fn port_to_omit(scheme: Seq<char>) -> u16 {
    if scheme == seq!['w', 's', 's'] {
        443
    } else {
        0
    }
}

/// `scheme://authority` followed by `path`.
pub open spec fn hub_url_text(scheme: Seq<char>, authority: Seq<char>, path: Seq<char>) -> Seq<char> {
    scheme + seq![':', '/', '/'] + authority + path
}

/// `#` and the fragment, when there is one.
pub open spec fn fragment_text(fragment: Option<Seq<char>>) -> Seq<char> {
    match fragment {
        Some(f) => seq!['#'] + f,
        None => Seq::empty(),
    }
}

/// The parts of a hub URL without query: a scheme without `:` or `#` that
/// starts with no white space, an authority without `/`, `?` or `#`, a path
/// that is empty or starts with `/` and holds no `?` or `#`, and no white
/// space at the end.
pub open spec fn plain_hub_url_parts(scheme: Seq<char>, authority: Seq<char>, path: Seq<char>) -> bool {
    &&& scheme.len() > 0
    &&& !is_white(scheme[0])
    &&& forall|k: int| 0 <= k < scheme.len() ==> scheme[k] != ':' && scheme[k] != '#'
    &&& forall|k: int|
        0 <= k < authority.len() ==> authority[k] != '/' && authority[k] != '?' && authority[k] != '#'
    &&& (path.len() == 0 || path[0] == '/')
    &&& forall|k: int| 0 <= k < path.len() ==> path[k] != '?' && path[k] != '#'
    &&& !is_white(hub_url_text(scheme, authority, path).last())
}

/// The normal form of a hub URL without query, whatever white space
/// surrounds it and whatever fragment it carries: the lower-case scheme,
/// `://`, the normalized authority and the path without trailing slashes.
#[verifier::spinoff_prover]
#[verifier::rlimit(60)]
pub proof fn lemma_hub_url_parts(
    before: Seq<char>,
    scheme: Seq<char>,
    authority: Seq<char>,
    path: Seq<char>,
    fragment: Option<Seq<char>>,
    after: Seq<char>,
)
    requires
        all_white(before),
        all_white(after),
        plain_hub_url_parts(scheme, authority, path),
    ensures
        normalized_hub_url(before + hub_url_text(scheme, authority, path) + fragment_text(fragment) + after)
            == lower_seq(scheme) + seq![':', '/', '/'] + normalized_authority(
            authority,
            port_to_omit(lower_seq(scheme)),
        ) + trim_slashes(path),
{
    let core = hub_url_text(scheme, authority, path);
    let x = core + fragment_text(fragment);
    let sl = scheme.len() as int;
    let al = authority.len() as int;
    assert(before + core + fragment_text(fragment) + after =~= before + x + after);
    lemma_surrounding_white_space_is_ignored(before, x, after);
    assert(core[0] == scheme[0]);
    assert forall|k: int| 0 <= k < core.len() implies core[k] != '#' by {
        if k < sl {
            assert(core[k] == scheme[k]);
        } else if k < sl + 3 {
        } else if k < sl + 3 + al {
            assert(core[k] == authority[k - sl - 3]);
        } else {
            assert(core[k] == path[k - sl - 3 - al]);
        }
    }
    match fragment {
        Some(f) => {
            assert(x =~= core + seq!['#'] + f);
            lemma_fragment_is_ignored(core, f);
        },
        None => {
            assert(x =~= core);
        },
    }
    assert(trim_start(core) == core);
    assert(trim_end(core) == core);
    lemma_find_absent(core, 0, '#');
    assert(core.subrange(0, core.len() as int) =~= core);
    assert forall|j: int| 0 <= j < sl implies core[j] != ':' by {
        assert(core[j] == scheme[j]);
    }
    assert(core[sl] == ':' && core[sl + 1] == '/' && core[sl + 2] == '/');
    lemma_scheme_sep_at(core, 0, sl);
    let rem = core.subrange(sl + 3, core.len() as int);
    assert(rem =~= authority + path);
    assert forall|j: int| 0 <= j < al implies rem[j] != '/' && rem[j] != '?' by {
        assert(rem[j] == authority[j]);
    }
    if path.len() > 0 {
        assert(rem[al] == path[0]);
    }
    lemma_path_start_at(rem, 0, al);
    assert(rem.subrange(0, al) =~= authority);
    assert(rem.subrange(al, rem.len() as int) =~= path);
    assert(core.subrange(0, sl) =~= scheme);
    lemma_find_absent(path, 0, '?');
    assert(path.subrange(0, path.len() as int) =~= path);
    assert(path.subrange(path.len() as int, path.len() as int) =~= Seq::<char>::empty());
}

/// `:443` when `explicit` holds, else nothing.
pub open spec fn default_port_text(explicit: bool) -> Seq<char> {
    if explicit {
        seq![':', '4', '4', '3']
    } else {
        Seq::empty()
    }
}

/// `/` when `trailing` holds, else nothing.
pub open spec fn slash_text(trailing: bool) -> Seq<char> {
    if trailing {
        seq!['/']
    } else {
        Seq::empty()
    }
}

/// Hub URLs that differ only in the letter case of the scheme or of a host
/// name, in white space around them, in an explicit `:443` on a `wss` URL,
/// in a trailing `/`, or in a fragment, have one normal form: that of the
/// URL with lower-case scheme and host and none of the rest. So
/// [`ScTransport::with_hub_urls`] gives them the same topology and collision
/// identities.
#[verifier::spinoff_prover]
#[verifier::rlimit(60)]
pub proof fn lemma_hub_url_variants_agree(
    before: Seq<char>,
    scheme: Seq<char>,
    host: Seq<char>,
    explicit_default_port: bool,
    path: Seq<char>,
    trailing_slash: bool,
    fragment: Option<Seq<char>>,
    after: Seq<char>,
)
    requires
        all_white(before),
        all_white(after),
        plain_hub_url_parts(scheme, host, path),
        host.len() > 0,
        host[0] != '[',
        forall|k: int| 0 <= k < host.len() ==> host[k] != ':',
        ipv4_text_value(host) is None,
        ipv4_text_value(lower_seq(host)) is None,
        explicit_default_port ==> lower_seq(scheme) == seq!['w', 's', 's'],
    ensures
        normalized_hub_url(
            before + hub_url_text(
                scheme,
                host + default_port_text(explicit_default_port),
                path + slash_text(trailing_slash),
            ) + fragment_text(fragment) + after,
        ) == normalized_hub_url(hub_url_text(lower_seq(scheme), lower_seq(host), path)),
{
    let port = default_port_text(explicit_default_port);
    let slash = slash_text(trailing_slash);
    let authority = host + port;
    let p2 = path + slash;
    let ls = lower_seq(scheme);
    let lh = lower_seq(host);
    let hl = host.len() as int;
    // The variant's parts are plain.
    assert forall|k: int| 0 <= k < authority.len() implies authority[k] != '/' && authority[k] != '?'
        && authority[k] != '#' by {
        if k >= hl {
            assert(authority[k] == port[k - hl]);
        } else {
            assert(authority[k] == host[k]);
        }
    }
    assert forall|k: int| 0 <= k < p2.len() implies p2[k] != '?' && p2[k] != '#' by {
        if k >= path.len() {
            assert(p2[k] == slash[k - path.len()]);
        } else {
            assert(p2[k] == path[k]);
        }
    }
    if path.len() > 0 {
        assert(p2[0] == path[0]);
    }
    let core = hub_url_text(scheme, host, path);
    let vcore = hub_url_text(scheme, authority, p2);
    assert(vcore.last() == if trailing_slash {
        '/'
    } else if path.len() > 0 {
        path.last()
    } else if explicit_default_port {
        '3'
    } else {
        host.last()
    });
    if path.len() == 0 {
        assert(core.last() == host.last());
    } else {
        assert(core.last() == path.last());
    }
    lemma_hub_url_parts(before, scheme, authority, p2, fragment, after);
    // The canonical parts are plain.
    let ccore = hub_url_text(ls, lh, path);
    assert forall|k: int| 0 <= k < ls.len() implies ls[k] != ':' && ls[k] != '#' by {
        lemma_lower_keeps_others(scheme[k]);
    }
    lemma_lower_keeps_others(scheme[0]);
    assert forall|k: int| 0 <= k < lh.len() implies lh[k] != '/' && lh[k] != '?' && lh[k] != '#' && lh[k]
        != ':' by {
        lemma_lower_keeps_others(host[k]);
    }
    lemma_lower_keeps_others(host[0]);
    lemma_lower_keeps_others(host.last());
    if path.len() == 0 {
        assert(ccore.last() == lh.last());
    } else {
        assert(ccore.last() == path.last());
    }
    assert(Seq::<char>::empty() + ccore + fragment_text(None) + Seq::<char>::empty() =~= ccore);
    assert(all_white(Seq::<char>::empty()));
    lemma_hub_url_parts(Seq::empty(), ls, lh, path, None, Seq::empty());
    // Scheme: lower case is idempotent.
    assert(lower_seq(ls) =~= ls) by {
        assert forall|k: int| 0 <= k < scheme.len() implies lower(lower(scheme[k])) == lower(scheme[k]) by {
            lemma_lower_keeps_others(scheme[k]);
        }
    }
    let omit = port_to_omit(ls);
    // Authority: the default port goes, then both are bare hosts.
    if explicit_default_port {
        lemma_default_port_is_omitted(host);
        assert(authority =~= host + seq![':', '4', '4', '3']);
    } else {
        assert(authority =~= host);
    }
    assert(normalized_authority(authority, omit) == normalized_authority(host, omit));
    lemma_no_colon(host, hl);
    lemma_no_colon(lh, hl);
    assert(!is_bracketed(host));
    lemma_host_case_is_ignored(host);
    assert(normalized_authority(lh, omit) == normalized_host(lh));
    assert(normalized_authority(host, omit) == normalized_host(host));
    // Path: one trailing slash goes.
    if trailing_slash {
        assert(p2.last() == '/');
        assert(p2.drop_last() =~= path);
    } else {
        assert(p2 =~= path);
    }
}

// ----------------------------------------------------------------------------
// Trusted conversions
// ----------------------------------------------------------------------------

/// Parses an IPv6 address.
///
/// Trusted: calls `FromStr` of `core::net::Ipv6Addr`; the contract names its
/// result and claims nothing more of it.
#[verifier::external_body]
fn parse_ipv6(text: &str) -> (r: Option<[u8; 16]>)
    ensures
        r == ipv6_text_value(text@),
{
    match text.parse::<core::net::Ipv6Addr>() {
        Ok(a) => Some(a.octets()),
        Err(_) => None,
    }
}

/// Canonical text of an IPv6 address.
///
/// Trusted: calls `Display` of `core::net::Ipv6Addr` through `to_string`;
/// the contract names its result and claims nothing more of it.
#[verifier::external_body]
fn ipv6_text(octets: [u8; 16]) -> (r: String)
    ensures
        r@ == ipv6_display(octets),
{
    core::net::Ipv6Addr::from(octets).to_string()
}

/// The string of the characters `chars`, in order.
///
/// Trusted: collects with std's `FromIterator<char>` for `String`, which
/// appends each character in turn.
#[verifier::external_body]
pub(crate) fn string_from_chars(chars: &Vec<char>) -> (r: String)
    ensures
        r@ == chars@,
{
    chars.iter().collect::<String>()
}

// ----------------------------------------------------------------------------
// Executable helpers
// ----------------------------------------------------------------------------

/// The characters of `text`.
pub(crate) fn to_chars(text: &str) -> (r: Vec<char>)
    ensures
        r@ == text@,
{
    broadcast use vstd::string::group_string_axioms;
    let mut out: Vec<char> = Vec::new();
    for c in it: text.chars()
        invariant
            it.seq() == text@,
            out@ == text@.take(it.index() as int),
    {
        out.push(c);
        assert(out@ =~= text@.take(it.index() as int + 1));
    }
    assert(out@ =~= text@);
    out
}

/// Characters `a..b` of `v`.
fn slice_chars(v: &Vec<char>, a: usize, b: usize) -> (r: Vec<char>)
    requires
        a <= b <= v@.len(),
    ensures
        r@ == v@.subrange(a as int, b as int),
{
    let mut out: Vec<char> = Vec::new();
    let mut i = a;
    while i < b
        invariant
            a <= i <= b <= v@.len(),
            out@ == v@.subrange(a as int, i as int),
        decreases b - i,
    {
        out.push(v[i]);
        i = i + 1;
        assert(out@ =~= v@.subrange(a as int, i as int));
    }
    out
}

/// Appends `w` to `out`.
fn append(out: &mut Vec<char>, w: &Vec<char>)
    ensures
        final(out)@ == old(out)@ + w@,
{
    let mut i: usize = 0;
    while i < w.len()
        invariant
            i <= w@.len(),
            out@ == old(out)@ + w@.take(i as int),
        decreases w@.len() - i,
    {
        out.push(w[i]);
        i = i + 1;
        assert(out@ =~= old(out)@ + w@.take(i as int));
    }
    assert(w@.take(i as int) =~= w@);
}

fn find_char(v: &Vec<char>, c: char) -> (r: usize)
    ensures
        r == find_from(v@, 0, c),
        r <= v@.len(),
{
    let mut i: usize = 0;
    while i < v.len()
        invariant
            i <= v@.len(),
            find_from(v@, i as int, c) == find_from(v@, 0, c),
        decreases v@.len() - i,
    {
        if v[i] == c {
            return i;
        }
        i = i + 1;
    }
    i
}

fn find_path(v: &Vec<char>) -> (r: usize)
    ensures
        r == find_path_start(v@, 0),
        r <= v@.len(),
{
    let mut i: usize = 0;
    while i < v.len()
        invariant
            i <= v@.len(),
            find_path_start(v@, i as int) == find_path_start(v@, 0),
        decreases v@.len() - i,
    {
        if v[i] == '/' || v[i] == '?' {
            return i;
        }
        i = i + 1;
    }
    i
}

fn find_sep(v: &Vec<char>) -> (r: usize)
    ensures
        r == find_scheme_sep(v@, 0),
        r <= v@.len(),
        r < v@.len() ==> r + 3 <= v@.len(),
{
    let mut i: usize = 0;
    while i < v.len() && v.len() - i >= 3
        invariant
            i <= v@.len(),
            find_scheme_sep(v@, i as int) == find_scheme_sep(v@, 0),
        decreases v@.len() - i,
    {
        if v[i] == ':' && v[i + 1] == '/' && v[i + 2] == '/' {
            return i;
        }
        i = i + 1;
    }
    assert(i as int + 3 > v@.len());
    v.len()
}

/// Position of the last `:` in `v`, if any.
fn rfind_colon_exec(v: &Vec<char>) -> (r: Option<usize>)
    ensures
        r is None <==> rfind_colon(v@, v@.len() as int) == -1,
        r matches Some(j) ==> j as int == rfind_colon(v@, v@.len() as int) && j < v@.len(),
{
    let mut i: usize = v.len();
    while i > 0
        invariant
            i <= v@.len(),
            rfind_colon(v@, i as int) == rfind_colon(v@, v@.len() as int),
        decreases i,
    {
        if v[i - 1] == ':' {
            return Some(i - 1);
        }
        i = i - 1;
    }
    None
}

proof fn lemma_trim_start(s: Seq<char>, a: int)
    requires
        0 <= a <= s.len(),
        forall|k: int| 0 <= k < a ==> is_white(#[trigger] s[k]),
        a == s.len() || !is_white(s[a]),
    ensures
        trim_start(s) == s.subrange(a, s.len() as int),
    decreases a,
{
    if a == 0 {
        assert(s.subrange(0, s.len() as int) =~= s);
    } else {
        let d = s.drop_first();
        assert forall|k: int| 0 <= k < a - 1 implies is_white(#[trigger] d[k]) by {
            assert(d[k] == s[k + 1]);
        }
        if a - 1 < d.len() {
            assert(d[a - 1] == s[a]);
        }
        lemma_trim_start(d, a - 1);
        assert(d.subrange(a - 1, d.len() as int) =~= s.subrange(a, s.len() as int));
    }
}

proof fn lemma_trim_end(s: Seq<char>, b: int)
    requires
        0 <= b <= s.len(),
        forall|k: int| b <= k < s.len() ==> is_white(#[trigger] s[k]),
        b == 0 || !is_white(s[b - 1]),
    ensures
        trim_end(s) == s.subrange(0, b),
    decreases s.len() - b,
{
    if b == s.len() {
        assert(s.subrange(0, b) =~= s);
    } else {
        let d = s.drop_last();
        assert(is_white(s[s.len() - 1]));
        assert forall|k: int| b <= k < d.len() implies is_white(#[trigger] d[k]) by {
            assert(d[k] == s[k]);
        }
        if b > 0 {
            assert(d[b - 1] == s[b - 1]);
        }
        lemma_trim_end(d, b);
        assert(d.subrange(0, b) =~= s.subrange(0, b));
    }
}

proof fn lemma_trim_slashes(s: Seq<char>, b: int)
    requires
        0 <= b <= s.len(),
        forall|k: int| b <= k < s.len() ==> #[trigger] s[k] == '/',
        b == 0 || s[b - 1] != '/',
    ensures
        trim_slashes(s) == s.subrange(0, b),
    decreases s.len() - b,
{
    if b == s.len() {
        assert(s.subrange(0, b) =~= s);
    } else {
        let d = s.drop_last();
        assert(s[s.len() - 1] == '/');
        assert forall|k: int| b <= k < d.len() implies #[trigger] d[k] == '/' by {
            assert(d[k] == s[k]);
        }
        if b > 0 {
            assert(d[b - 1] == s[b - 1]);
        }
        lemma_trim_slashes(d, b);
        assert(d.subrange(0, b) =~= s.subrange(0, b));
    }
}

/// `s` without surrounding white space.
fn trim_chars(s: &Vec<char>) -> (r: Vec<char>)
    ensures
        r@ == trim_end(trim_start(s@)),
{
    let mut a: usize = 0;
    while a < s.len() && crate::runtime_config::char_is_white(s[a])
        invariant
            a <= s@.len(),
            forall|k: int| 0 <= k < a ==> is_white(#[trigger] s@[k]),
        decreases s@.len() - a,
    {
        a = a + 1;
    }
    proof {
        lemma_trim_start(s@, a as int);
    }
    let t = slice_chars(s, a, s.len());
    let mut b: usize = t.len();
    while b > 0 && crate::runtime_config::char_is_white(t[b - 1])
        invariant
            b <= t@.len(),
            forall|k: int| b <= k < t@.len() ==> is_white(#[trigger] t@[k]),
        decreases b,
    {
        b = b - 1;
    }
    proof {
        lemma_trim_end(t@, b as int);
    }
    slice_chars(&t, 0, b)
}

/// `s` without trailing slashes.
fn trim_slashes_exec(s: &Vec<char>) -> (r: Vec<char>)
    ensures
        r@ == trim_slashes(s@),
{
    let mut b: usize = s.len();
    while b > 0 && s[b - 1] == '/'
        invariant
            b <= s@.len(),
            forall|k: int| b <= k < s@.len() ==> #[trigger] s@[k] == '/',
        decreases b,
    {
        b = b - 1;
    }
    proof {
        lemma_trim_slashes(s@, b as int);
    }
    slice_chars(s, 0, b)
}

fn lower_char(c: char) -> (r: char)
    ensures
        r == lower(c),
{
    if 'A' <= c && c <= 'Z' {
        ((c as u8) + 32) as char
    } else {
        c
    }
}

fn lower_chars(s: &Vec<char>) -> (r: Vec<char>)
    ensures
        r@ == lower_seq(s@),
{
    let mut out: Vec<char> = Vec::new();
    let mut i: usize = 0;
    while i < s.len()
        invariant
            i <= s@.len(),
            out@ == lower_seq(s@).take(i as int),
        decreases s@.len() - i,
    {
        out.push(lower_char(s[i]));
        i = i + 1;
        assert(out@ =~= lower_seq(s@).take(i as int));
    }
    assert(lower_seq(s@).take(i as int) =~= lower_seq(s@));
    out
}

/// Appends the decimal text of `n`.
pub(crate) fn push_decimal(out: &mut Vec<char>, n: u64)
    ensures
        final(out)@ == old(out)@ + decimal(n as nat),
    decreases n,
{
    if n >= 10 {
        push_decimal(out, n / 10);
    }
    let d = (n % 10) as u8;
    out.push((('0' as u8) + d) as char);
    proof {
        if n >= 10 {
            assert(decimal(n as nat) == decimal((n / 10) as nat).push(digit_char((n % 10) as nat)));
        }
    }
    assert(final(out)@ =~= old(out)@ + decimal(n as nat));
}

/// The decimal text of `n`.
pub(crate) fn decimal_string(n: u64) -> (r: String)
    ensures
        r@ == decimal(n as nat),
{
    let mut chars: Vec<char> = Vec::new();
    push_decimal(&mut chars, n);
    assert(chars@ =~= decimal(n as nat));
    string_from_chars(&chars)
}

proof fn lemma_digits_monotone(d: Seq<char>, k: int)
    requires
        0 <= k <= d.len(),
        forall|i: int| 0 <= i < d.len() ==> is_digit(#[trigger] d[i]),
    ensures
        digits_value(d.take(k)) <= digits_value(d),
    decreases d.len() - k,
{
    if k < d.len() {
        lemma_digits_monotone(d, k + 1);
        assert(d.take(k + 1).drop_last() =~= d.take(k));
    } else {
        assert(d.take(k) =~= d);
    }
}

/// The `u16` that characters `a..b` of `v` denote.
fn parse_u16_chars(v: &Vec<char>, a: usize, b: usize) -> (r: Option<u16>)
    requires
        a <= b <= v@.len(),
    ensures
        r == u16_text_value(v@.subrange(a as int, b as int)),
{
    let ghost s = v@.subrange(a as int, b as int);
    let start = if a < b && v[a] == '+' {
        a + 1
    } else {
        a
    };
    let ghost d = v@.subrange(start as int, b as int);
    assert(d =~= unsigned_part(s));
    if start == b {
        return None;
    }
    let mut value: u32 = 0;
    let mut i = start;
    while i < b
        invariant
            a <= start <= i <= b <= v@.len(),
            d == v@.subrange(start as int, b as int),
            s == v@.subrange(a as int, b as int),
            d == unsigned_part(s),
            d.len() > 0,
            forall|k: int| 0 <= k < i - start ==> is_digit(#[trigger] d[k]),
            value as nat == digits_value(d.take(i - start)),
            value <= 65535,
        decreases b - i,
    {
        let c = v[i];
        if !('0' <= c && c <= '9') {
            assert(!is_digit(d[i - start]));
            assert(!all_digits(d));
            return None;
        }
        let dv = (c as u32) - ('0' as u32);
        proof {
            assert(d.take(i - start + 1).drop_last() =~= d.take(i - start));
            assert(d.take(i - start + 1).last() == c);
        }
        if value > 6553 || value * 10 + dv > 65535 {
            proof {
                assert(digits_value(d.take(i - start + 1)) > 65535);
                if forall|k: int| 0 <= k < d.len() ==> is_digit(#[trigger] d[k]) {
                    lemma_digits_monotone(d, i - start + 1);
                    assert(digits_value(d) > 65535);
                }
            }
            return None;
        }
        value = value * 10 + dv;
        i = i + 1;
    }
    assert(d.take(i - start) =~= d);
    Some(value as u16)
}


// ----------------------------------------------------------------------------
// Normalization
// ----------------------------------------------------------------------------

/// Appends the dotted-decimal text of `a`.
fn push_dotted(out: &mut Vec<char>, a: [u8; 4])
    ensures
        final(out)@ == old(out)@ + dotted(a),
{
    push_decimal(out, a[0] as u64);
    out.push('.');
    push_decimal(out, a[1] as u64);
    out.push('.');
    push_decimal(out, a[2] as u64);
    out.push('.');
    push_decimal(out, a[3] as u64);
    assert(final(out)@ =~= old(out)@ + dotted(a));
}

/// Canonical host text, given what parsing the host gave (see
/// [`host_from_parses`]): `ipv4` for the host as an IPv4 address, `ipv6` for
/// the inside of a bracketed host as an IPv6 address, and `ipv6_shown` for
/// the canonical text of that IPv6 address.
pub fn normalize_host_from_parses(
    host: &str,
    ipv4: Option<[u8; 4]>,
    ipv6: Option<[u8; 16]>,
    ipv6_shown: &str,
) -> (r: String)
    ensures
        r@ == host_from_parses(host@, ipv4, ipv6, ipv6_shown@),
{
    let chars = to_chars(host);
    let out = host_chars_from_parses(&chars, ipv4, ipv6, ipv6_shown);
    string_from_chars(&out)
}

fn host_chars_from_parses(host: &Vec<char>, ipv4: Option<[u8; 4]>, ipv6: Option<[u8; 16]>, ipv6_shown: &str) -> (r:
    Vec<char>)
    ensures
        r@ == host_from_parses(host@, ipv4, ipv6, ipv6_shown@),
{
    let n = host.len();
    if n >= 2 && host[0] == '[' && host[n - 1] == ']' {
        match ipv6 {
            Some(_) => {
                let mut out: Vec<char> = Vec::new();
                out.push('[');
                let shown = to_chars(ipv6_shown);
                append(&mut out, &shown);
                out.push(']');
                assert(out@ =~= seq!['['] + ipv6_shown@ + seq![']']);
                out
            },
            None => lower_chars(host),
        }
    } else {
        match ipv4 {
            Some(a) => {
                let mut out: Vec<char> = Vec::new();
                push_dotted(&mut out, a);
                assert(out@ =~= dotted(a));
                out
            },
            None => lower_chars(host),
        }
    }
}

/// Canonical host text.
fn normalize_host(host: &Vec<char>) -> (r: Vec<char>)
    ensures
        r@ == normalized_host(host@),
{
    let n = host.len();
    let bracketed = n >= 2 && host[0] == '[' && host[n - 1] == ']';
    let ipv6 = if bracketed {
        let inner = slice_chars(host, 1, n - 1);
        let text = string_from_chars(&inner);
        parse_ipv6(text.as_str())
    } else {
        None
    };
    let shown = match ipv6 {
        Some(a) => ipv6_text(a),
        None => String::new(),
    };
    let ipv4 = if bracketed {
        None
    } else {
        let text = string_from_chars(host);
        parse_ipv4(text.as_str())
    };
    proof {
        reveal_strlit("");
    }
    let r = host_chars_from_parses(host, ipv4, ipv6, shown.as_str());
    proof {
        let v6 = ipv6_text_value(bracket_inner(host@));
        if bracketed {
            assert(ipv6 == v6);
        }
    }
    r
}

/// Host text and port of an authority.
fn split_authority_exec(v: &Vec<char>) -> (r: (Vec<char>, Option<u16>))
    ensures
        (r.0@, r.1) == split_authority(v@),
{
    if v.len() > 0 && v[0] == '[' {
        let rest = slice_chars(v, 1, v.len());
        let j = find_char(&rest, ']');
        if j < rest.len() {
            let suffix = slice_chars(&rest, j + 1, rest.len());
            let port = if suffix.len() > 0 && suffix[0] == ':' {
                let p = parse_u16_chars(&suffix, 1, suffix.len());
                assert(suffix@.subrange(1, suffix@.len() as int) =~= suffix@.drop_first());
                p
            } else {
                None
            };
            let mut host: Vec<char> = Vec::new();
            host.push('[');
            let inner = slice_chars(&rest, 0, j);
            append(&mut host, &inner);
            host.push(']');
            assert(host@ =~= seq!['['] + rest@.subrange(0, j as int) + seq![']']);
            assert(rest@ =~= v@.drop_first());
            (host, port)
        } else {
            assert(rest@ =~= v@.drop_first());
            (slice_chars(v, 0, v.len()), None)
        }
    } else {
        match rfind_colon_exec(v) {
            Some(j) => match parse_u16_chars(v, j + 1, v.len()) {
                Some(p) => (slice_chars(v, 0, j), Some(p)),
                None => {
                    let whole = slice_chars(v, 0, v.len());
                    assert(whole@ =~= v@);
                    (whole, None)
                },
            },
            None => {
                let whole = slice_chars(v, 0, v.len());
                assert(whole@ =~= v@);
                (whole, None)
            },
        }
    }
}

/// Normalized authority, omitting the port `omit_port`.
fn normalize_authority(v: &Vec<char>, omit_port: u16) -> (r: Vec<char>)
    ensures
        r@ == normalized_authority(v@, omit_port),
{
    let (host, port) = split_authority_exec(v);
    let mut out = normalize_host(&host);
    match port {
        Some(p) => {
            if p != omit_port {
                out.push(':');
                push_decimal(&mut out, p as u64);
            }
        },
        None => {},
    }
    out
}

/// Normalizes a hub URL so that two spellings of the same hub compare
/// equal; text without `://` is only trimmed and stripped of its fragment.
pub fn normalize_hub_url(value: &str) -> (r: String)
    ensures
        r@ == normalized_hub_url(value@),
{
    let s = to_chars(value);
    let t = trim_chars(&s);
    let h = find_char(&t, '#');
    let v = slice_chars(&t, 0, h);
    let sep = find_sep(&v);
    if sep >= v.len() {
        return string_from_chars(&v);
    }
    let scheme = lower_chars(&slice_chars(&v, 0, sep));
    let rem = slice_chars(&v, sep + 3, v.len());
    let ae = find_path(&rem);
    let authority = slice_chars(&rem, 0, ae);
    let suffix = slice_chars(&rem, ae, rem.len());
    let is_wss = scheme.len() == 3 && scheme[0] == 'w' && scheme[1] == 's' && scheme[2] == 's';
    proof {
        if is_wss {
            assert(scheme@ =~= seq!['w', 's', 's']);
        } else if scheme@.len() == 3 {
            assert(scheme@ != seq!['w', 's', 's'] || !is_wss);
        }
    }
    let omit: u16 = if is_wss {
        443
    } else {
        0
    };
    let ts = find_char(&suffix, '?');
    let path0 = trim_slashes_exec(&slice_chars(&suffix, 0, ts));
    let tail = slice_chars(&suffix, ts, suffix.len());
    let path = if path0.len() == 0 && tail.len() > 0 {
        let mut p: Vec<char> = Vec::new();
        p.push('/');
        p
    } else {
        path0
    };
    let mut out: Vec<char> = Vec::new();
    append(&mut out, &scheme);
    out.push(':');
    out.push('/');
    out.push('/');
    let auth = normalize_authority(&authority, omit);
    append(&mut out, &auth);
    append(&mut out, &path);
    append(&mut out, &tail);
    proof {
        assert(path@ == (if path0@.len() == 0 && tail@.len() > 0 {
            seq!['/']
        } else {
            path0@
        }));
        assert(out@ =~= scheme@ + seq![':', '/', '/'] + auth@ + path@ + tail@);
    }
    string_from_chars(&out)
}

// ----------------------------------------------------------------------------
// Topology identity
// ----------------------------------------------------------------------------

/// A BACnet/SC node transport's identity data: its connection, local VMAC
/// and the hub topology it belongs to.
pub struct ScTransport<W> {
    socket: W,
    local_vmac: [u8; 6],
    topology_collision_ids: Vec<String>,
    topology_id: Option<String>,
}

impl<W> ScTransport<W> {
    /// Collision identities: the normalized hub URLs.
    pub closed spec fn collision_ids_view(&self) -> Seq<Seq<char>> {
        self.topology_collision_ids@.map_values(|u: String| u@)
    }

    /// Topology identity.
    pub closed spec fn topology_view(&self) -> Option<Seq<char>> {
        match self.topology_id {
            Some(t) => Some(t@),
            None => None,
        }
    }

    /// Connection.
    pub closed spec fn socket_view(&self) -> W {
        self.socket
    }

    /// Local virtual MAC address.
    pub closed spec fn vmac_view(&self) -> [u8; 6] {
        self.local_vmac
    }

    /// A transport over `socket` with `local_vmac` and no topology identity.
    pub fn new(socket: W, local_vmac: [u8; 6]) -> (r: Self)
        ensures
            r.socket_view() == socket,
            r.vmac_view() == local_vmac,
            r.collision_ids_view().len() == 0,
            r.topology_view() is None,
    {
        let r = ScTransport { socket, local_vmac, topology_collision_ids: Vec::new(), topology_id: None };
        assert(r.collision_ids_view() =~= Seq::<Seq<char>>::empty());
        r
    }

    /// Local virtual MAC address.
    pub fn local_vmac(&self) -> (r: [u8; 6])
        ensures
            r == self.vmac_view(),
    {
        self.local_vmac
    }

    /// Attaches stable hub URLs identifying this SC topology: the collision
    /// identities are the normalized URLs, and the topology identity is the
    /// normalized primary, followed by `|` and the normalized failover when
    /// there is one.
    pub fn with_hub_urls(self, primary_hub_url: &str, failover_hub_url: Option<&str>) -> (r: Self)
        ensures
            r.socket_view() == self.socket_view(),
            r.vmac_view() == self.vmac_view(),
            r.collision_ids_view() == (match failover_hub_url {
                Some(f) => seq![normalized_hub_url(primary_hub_url@), normalized_hub_url(f@)],
                None => seq![normalized_hub_url(primary_hub_url@)],
            }),
            r.topology_view() == Some(match failover_hub_url {
                Some(f) => normalized_hub_url(primary_hub_url@) + seq!['|'] + normalized_hub_url(f@),
                None => normalized_hub_url(primary_hub_url@),
            }),
    {
        let primary = normalize_hub_url(primary_hub_url);
        let mut ids: Vec<String> = Vec::new();
        let topology = match failover_hub_url {
            Some(f) => {
                let failover = normalize_hub_url(f);
                let mut joined = to_chars(primary.as_str());
                joined.push('|');
                let fc = to_chars(failover.as_str());
                append(&mut joined, &fc);
                ids.push(primary);
                ids.push(failover);
                assert(joined@ =~= normalized_hub_url(primary_hub_url@) + seq!['|'] + normalized_hub_url(f@));
                string_from_chars(&joined)
            },
            None => {
                let id = to_chars(primary.as_str());
                ids.push(primary);
                string_from_chars(&id)
            },
        };
        proof {
            match failover_hub_url {
                Some(f) => {
                    assert(ids@.map_values(|u: String| u@) =~= seq![normalized_hub_url(primary_hub_url@), normalized_hub_url(f@)]);
                },
                None => {
                    assert(ids@.map_values(|u: String| u@) =~= seq![normalized_hub_url(primary_hub_url@)]);
                },
            }
        }
        ScTransport {
            socket: self.socket,
            local_vmac: self.local_vmac,
            topology_collision_ids: ids,
            topology_id: Some(topology),
        }
    }

    /// The topology identity, once hub URLs are attached.
    pub fn topology_id(&self) -> (r: Option<&String>)
        ensures
            r matches Some(t) ==> self.topology_view() == Some(t@),
            r is None ==> self.topology_view() is None,
    {
        self.topology_id.as_ref()
    }

    /// The collision identities.
    pub fn topology_collision_ids(&self) -> (r: &Vec<String>)
        ensures
            r@.map_values(|u: String| u@) == self.collision_ids_view(),
    {
        &self.topology_collision_ids
    }
}

// ----------------------------------------------------------------------------
// Effective APDU size over a hub connection
// ----------------------------------------------------------------------------

/// Length of the BACnet NPDU base header.
pub const BACNET_NPDU_BASE_HEADER_LEN: u16 = 2;

/// Length of the BVLC-SC Encapsulated-NPDU base header.
pub const SC_ENCAPSULATED_NPDU_BASE_HEADER_LEN: u16 = 10;

/// The limits a hub announced when the connection was accepted.
#[derive(Clone, Copy, Debug, PartialEq, Eq, Structural)]
pub struct ScHubLimits {
    /// Largest NPDU the hub accepts.
    pub hub_max_apdu_length: u16,
    /// Largest BVLC-SC message the hub accepts.
    pub hub_max_bvlc_length: u16,
}

/// `a - b`, or 0 when `b` exceeds `a`.
pub open spec fn saturating_minus(a: int, b: int) -> int {
    if a >= b {
        a - b
    } else {
        0
    }
}

/// The largest APDU that fits over a hub connection: the NPDU must fit both
/// the hub's NPDU limit and its BVLC limit less the encapsulation header,
/// and the APDU is that NPDU less the NPDU header.
pub open spec fn effective_apdu_limit(limits: ScHubLimits) -> int {
    let budget = saturating_minus(
        limits.hub_max_bvlc_length as int,
        SC_ENCAPSULATED_NPDU_BASE_HEADER_LEN as int,
    );
    let npdu = if (limits.hub_max_apdu_length as int) < budget {
        limits.hub_max_apdu_length as int
    } else {
        budget
    };
    saturating_minus(npdu, BACNET_NPDU_BASE_HEADER_LEN as int)
}

/// The effective limit is the largest APDU that fits: with its 2-octet NPDU
/// header it is within the hub's NPDU limit, and with the 10-octet
/// encapsulation header as well within the hub's BVLC limit; no larger APDU
/// fits both (it is 0 when not even an empty APDU fits).
pub proof fn lemma_effective_apdu_limit_is_largest_fit(limits: ScHubLimits, a: int)
    ensures
        effective_apdu_limit(limits) >= 0,
        effective_apdu_limit(limits) > 0 ==> effective_apdu_limit(limits) + 2 <= limits.hub_max_apdu_length
            && effective_apdu_limit(limits) + 2 + 10 <= limits.hub_max_bvlc_length,
        a >= 0 && a + 2 <= limits.hub_max_apdu_length && a + 2 + 10 <= limits.hub_max_bvlc_length ==> a
            <= effective_apdu_limit(limits),
{
}

/// The largest APDU that fits over a connection to a hub with `limits`.
pub fn effective_max_apdu_length(limits: &ScHubLimits) -> (r: u16)
    ensures
        r as int == effective_apdu_limit(*limits),
{
    let budget = limits.hub_max_bvlc_length.saturating_sub(SC_ENCAPSULATED_NPDU_BASE_HEADER_LEN);
    let npdu = if limits.hub_max_apdu_length < budget {
        limits.hub_max_apdu_length
    } else {
        budget
    };
    npdu.saturating_sub(BACNET_NPDU_BASE_HEADER_LEN)
}

/// Stores into `store` the largest APDU that fits over a connection to a hub
/// with `limits`.
pub fn publish_effective_max_apdu_length(store: &mut u16, limits: &ScHubLimits)
    ensures
        *final(store) as int == effective_apdu_limit(*limits),
{
    *store = effective_max_apdu_length(limits);
}

} // verus!
