//! Subnet masks in their two notations: contiguous dotted-decimal masks,
//! CIDR prefixes, and the verified conversions between them that the two
//! platform command grammars require.

use vstd::arithmetic::div_mod::lemma_div_is_ordered;
use vstd::arithmetic::div_mod::lemma_fundamental_div_mod_converse;
use vstd::arithmetic::power2::lemma2_to64;
use vstd::arithmetic::power2::lemma_pow2_pos;
use vstd::arithmetic::power2::lemma_pow2_strictly_increases;
use vstd::arithmetic::power2::lemma_pow2_unfold;
use vstd::arithmetic::power2::pow2;
use vstd::prelude::*;

use crate::digits::all_digits;
use crate::digits::dec_rep;
use crate::digits::dec_val;
use crate::digits::decimal_string;
use crate::digits::is_digit_char;
use crate::error::ErrorDetail;
use crate::error::ErrorV;
use crate::platform::Platform;
use crate::validate::digit_of;
use crate::validate::ipv4_octets;
use crate::validate::is_ipv4_chars;
use crate::validate::parse_ipv4;

verus! {

/// The 32-bit value of a mask given as four octets, high octet first.
pub open spec fn quad_to_mask(a: nat, b: nat, c: nat, d: nat) -> nat {
    a * 0x1000000 + b * 0x10000 + c * 0x100 + d
}

/// The 32-bit value of a dotted-decimal mask string.
pub open spec fn ipv4_mask_val(s: Seq<char>) -> nat
    recommends
        is_ipv4_chars(s),
{
    let (a, b, c, d) = ipv4_octets(s);
    quad_to_mask(a, b, c, d)
}

/// The mask whose highest `n` bits are ones and whose remaining bits are
/// zeros.
pub open spec fn spec_prefix_mask(n: nat) -> nat
    recommends
        n <= 32,
{
    (pow2(32) - pow2((32 - n) as nat)) as nat
}

/// A valid subnet mask value: some run of ones followed only by zeros.
pub open spec fn is_contiguous_mask(m: nat) -> bool {
    exists|n: nat| n <= 32 && m == spec_prefix_mask(n)
}

/// The number of leading one bits of a contiguous mask.
pub open spec fn mask_prefix_len(m: nat) -> nat
    recommends
        is_contiguous_mask(m),
{
    choose|n: nat| n <= 32 && m == spec_prefix_mask(n)
}

pub open spec fn mask_octet_a(m: nat) -> nat {
    m / 0x1000000
}

pub open spec fn mask_octet_b(m: nat) -> nat {
    (m / 0x10000) % 0x100
}

pub open spec fn mask_octet_c(m: nat) -> nat {
    (m / 0x100) % 0x100
}

pub open spec fn mask_octet_d(m: nat) -> nat {
    m % 0x100
}

/// The canonical dotted-decimal rendering of a mask value.
pub open spec fn mask_chars(m: nat) -> Seq<char> {
    dec_rep(mask_octet_a(m)) + seq!['.'] + dec_rep(mask_octet_b(m)) + seq!['.'] + dec_rep(
        mask_octet_c(m),
    ) + seq!['.'] + dec_rep(mask_octet_d(m))
}

/// A CIDR subnet string: a slash followed by decimal digits whose value is at
/// most 32.
pub open spec fn is_cidr_chars(s: Seq<char>) -> bool {
    &&& s.len() >= 2
    &&& s[0] == '/'
    &&& all_digits(s.subrange(1, s.len() as int))
    &&& dec_val(s.subrange(1, s.len() as int)) <= 32
}

/// The prefix length named by a CIDR subnet string.
pub open spec fn cidr_value(s: Seq<char>) -> nat
    recommends
        is_cidr_chars(s),
{
    dec_val(s.subrange(1, s.len() as int))
}

/// What converting a CIDR string to dotted-decimal notation yields, if
/// anything.
pub open spec fn spec_cidr_to_dotted(s: Seq<char>) -> Option<Seq<char>> {
    if is_cidr_chars(s) {
        Some(mask_chars(spec_prefix_mask(cidr_value(s))))
    } else {
        None
    }
}

/// What converting a dotted-decimal mask string to CIDR notation yields, if
/// anything.
pub open spec fn spec_dotted_to_cidr(s: Seq<char>) -> Option<Seq<char>> {
    if is_ipv4_chars(s) && is_contiguous_mask(ipv4_mask_val(s)) {
        Some(seq!['/'] + dec_rep(mask_prefix_len(ipv4_mask_val(s))))
    } else {
        None
    }
}

/// A valid subnet in either notation: a contiguous dotted-decimal mask or a
/// CIDR prefix.
pub open spec fn is_subnet_chars(s: Seq<char>) -> bool {
    (is_ipv4_chars(s) && is_contiguous_mask(ipv4_mask_val(s))) || is_cidr_chars(s)
}

/// Two distinct prefix lengths give two distinct masks.
pub proof fn lemma_prefix_mask_injective(n1: nat, n2: nat)
    requires
        n1 <= 32,
        n2 <= 32,
        spec_prefix_mask(n1) == spec_prefix_mask(n2),
    ensures
        n1 == n2,
{
    lemma2_to64();
    if n1 < n2 {
        lemma_pow2_strictly_increases((32 - n2) as nat, (32 - n1) as nat);
    } else if n2 < n1 {
        lemma_pow2_strictly_increases((32 - n1) as nat, (32 - n2) as nat);
    }
}

/// Combining four octet values and taking the octets of the result gives the
/// four values back.
pub proof fn lemma_quad_mask_octets(a: nat, b: nat, c: nat, d: nat)
    requires
        a <= 255,
        b <= 255,
        c <= 255,
        d <= 255,
    ensures
        mask_octet_a(quad_to_mask(a, b, c, d)) == a,
        mask_octet_b(quad_to_mask(a, b, c, d)) == b,
        mask_octet_c(quad_to_mask(a, b, c, d)) == c,
        mask_octet_d(quad_to_mask(a, b, c, d)) == d,
{
    let m = quad_to_mask(a, b, c, d) as int;
    lemma_fundamental_div_mod_converse(m, 0x1000000, a as int, (b * 0x10000 + c * 0x100 + d) as int);
    lemma_fundamental_div_mod_converse(m, 0x10000, (a * 0x100 + b) as int, (c * 0x100 + d) as int);
    lemma_fundamental_div_mod_converse((a * 0x100 + b) as int, 0x100, a as int, b as int);
    lemma_fundamental_div_mod_converse(m, 0x100, (a * 0x10000 + b * 0x100 + c) as int, d as int);
    lemma_fundamental_div_mod_converse(
        (a * 0x10000 + b * 0x100 + c) as int,
        0x100,
        (a * 0x100 + b) as int,
        c as int,
    );
}

/// The canonical rendering of an octet value is a valid octet string with
/// that value.
proof fn lemma_octet_rep(x: nat)
    requires
        x <= 255,
    ensures
        crate::validate::is_octet_str(dec_rep(x)),
        dec_val(dec_rep(x)) == x,
{
    crate::digits::lemma_dec_rep_digits(x);
    crate::digits::lemma_dec_rep_len(x);
    crate::digits::lemma_dec_rep_leading(x);
    crate::digits::lemma_dec_val_of_rep(x);
}

/// A 32-bit value is the combination of its own four octets.
proof fn lemma_mask_decomposition(m: nat)
    requires
        m < 0x100000000,
    ensures
        quad_to_mask(mask_octet_a(m), mask_octet_b(m), mask_octet_c(m), mask_octet_d(m)) == m,
        mask_octet_a(m) <= 255,
        mask_octet_b(m) <= 255,
        mask_octet_c(m) <= 255,
        mask_octet_d(m) <= 255,
{
    let mi = m as int;
    vstd::arithmetic::div_mod::lemma_fundamental_div_mod(mi, 0x1000000);
    let a = mi / 0x1000000;
    let r1 = mi % 0x1000000;
    lemma_div_is_ordered(mi, 0xFFFFFFFFint, 0x1000000);
    vstd::arithmetic::div_mod::lemma_fundamental_div_mod(r1, 0x10000);
    let b = r1 / 0x10000;
    let r2 = r1 % 0x10000;
    lemma_div_is_ordered(r1, 0xFFFFFFint, 0x10000);
    vstd::arithmetic::div_mod::lemma_fundamental_div_mod(r2, 0x100);
    let c = r2 / 0x100;
    let d = r2 % 0x100;
    lemma_div_is_ordered(r2, 0xFFFFint, 0x100);
    // m == a*2^24 + b*2^16 + c*2^8 + d with every part in its octet range.
    lemma_fundamental_div_mod_converse(mi, 0x10000, a * 0x100 + b, r2);
    lemma_fundamental_div_mod_converse(a * 0x100 + b, 0x100, a, b);
    lemma_fundamental_div_mod_converse(mi, 0x100, a * 0x10000 + b * 0x100 + c, d);
}

/// A mask value below two to the thirty-two renders as a valid
/// dotted-decimal IPv4 literal whose mask value is the original value.
proof fn lemma_mask_chars_valid(m: nat)
    requires
        m < 0x100000000,
    ensures
        is_ipv4_chars(mask_chars(m)),
        ipv4_mask_val(mask_chars(m)) == m,
{
    lemma_mask_decomposition(m);
    let a = mask_octet_a(m);
    let b = mask_octet_b(m);
    let c = mask_octet_c(m);
    let d = mask_octet_d(m);
    lemma_octet_rep(a);
    lemma_octet_rep(b);
    lemma_octet_rep(c);
    lemma_octet_rep(d);
    let s = mask_chars(m);
    let p1 = dec_rep(a).len() as int;
    let p2 = p1 + 1 + dec_rep(b).len() as int;
    let p3 = p2 + 1 + dec_rep(c).len() as int;
    assert(s.subrange(0, p1) =~= dec_rep(a));
    assert(s.subrange(p1 + 1, p2) =~= dec_rep(b));
    assert(s.subrange(p2 + 1, p3) =~= dec_rep(c));
    assert(s.subrange(p3 + 1, s.len() as int) =~= dec_rep(d));
    assert(crate::validate::is_quad_split(s, p1, p2, p3));
    let (q1, q2, q3) = choose|q1: int, q2: int, q3: int|
        crate::validate::is_quad_split(s, q1, q2, q3);
    crate::validate::lemma_quad_split_unique(s, p1, p2, p3, q1, q2, q3);
}

/// Round trip of a contiguous dotted-decimal mask: converting it to CIDR
/// notation and the CIDR string back to dotted-decimal notation returns the
/// original mask string.
#[verifier::rlimit(60)]
pub proof fn lemma_dotted_to_cidr_round_trip(s: Seq<char>)
    requires
        is_ipv4_chars(s),
        is_contiguous_mask(ipv4_mask_val(s)),
    ensures
        spec_dotted_to_cidr(s) matches Some(c) && spec_cidr_to_dotted(c) == Some(s),
{
    let m = ipv4_mask_val(s);
    let n = mask_prefix_len(m);
    assert(n <= 32 && m == spec_prefix_mask(n));
    let c = seq!['/'] + dec_rep(n);
    crate::digits::lemma_dec_rep_digits(n);
    crate::digits::lemma_dec_val_of_rep(n);
    assert(c.subrange(1, c.len() as int) =~= dec_rep(n));
    assert(is_cidr_chars(c));
    assert(cidr_value(c) == n);
    // The dotted rendering of the mask value is the original string, octet
    // by octet.
    let (p1, p2, p3) = choose|p1: int, p2: int, p3: int|
        crate::validate::is_quad_split(s, p1, p2, p3);
    let sa = s.subrange(0, p1);
    let sb = s.subrange(p1 + 1, p2);
    let sc = s.subrange(p2 + 1, p3);
    let sd = s.subrange(p3 + 1, s.len() as int);
    let (a, b, cc, d) = ipv4_octets(s);
    let (q1, q2, q3) = choose|q1: int, q2: int, q3: int|
        crate::validate::is_quad_split(s, q1, q2, q3);
    crate::validate::lemma_quad_split_unique(s, p1, p2, p3, q1, q2, q3);
    assert(a == dec_val(sa) && b == dec_val(sb) && cc == dec_val(sc) && d == dec_val(sd));
    lemma_quad_mask_octets(a, b, cc, d);
    crate::digits::lemma_dec_rep_unique(sa);
    crate::digits::lemma_dec_rep_unique(sb);
    crate::digits::lemma_dec_rep_unique(sc);
    crate::digits::lemma_dec_rep_unique(sd);
    let t = sa + seq!['.'] + sb + seq!['.'] + sc + seq!['.'] + sd;
    assert(t.len() == s.len());
    assert forall|i: int| 0 <= i < s.len() implies t[i] == s[i] by {
        if i < p1 {
            assert(t[i] == sa[i]);
        } else if i == p1 {
            assert(t[i] == '.');
        } else if i < p2 {
            assert(t[i] == sb[i - p1 - 1]);
        } else if i == p2 {
            assert(t[i] == '.');
        } else if i < p3 {
            assert(t[i] == sc[i - p2 - 1]);
        } else if i == p3 {
            assert(t[i] == '.');
        } else {
            assert(t[i] == sd[i - p3 - 1]);
        }
    }
    assert(t =~= s);
    assert(mask_chars(m) == t);
}

/// Round trip of a canonically written CIDR prefix: converting it to a
/// dotted-decimal mask and the mask back to CIDR notation returns the
/// original CIDR string.
pub proof fn lemma_cidr_to_dotted_round_trip(s: Seq<char>)
    requires
        is_cidr_chars(s),
        s[1] != '0' || s.len() == 2,
    ensures
        spec_cidr_to_dotted(s) matches Some(m) && spec_dotted_to_cidr(m) == Some(s),
{
    let n = cidr_value(s);
    let digits_part = s.subrange(1, s.len() as int);
    crate::digits::lemma_dec_rep_unique(digits_part);
    assert(digits_part =~= dec_rep(n));
    assert(s =~= seq!['/'] + dec_rep(n));
    let m = spec_prefix_mask(n);
    lemma2_to64();
    lemma_pow2_pos((32 - n) as nat);
    assert(m < 0x100000000);
    lemma_mask_chars_valid(m);
    assert(is_contiguous_mask(m));
    let n0 = mask_prefix_len(m);
    lemma_prefix_mask_injective(n0, n);
}

/// Two to the power `k`, for the word sizes used here.
fn pow2_u64(k: u64) -> (r: u64)
    requires
        k <= 32,
    ensures
        r == pow2(k as nat),
{
    proof {
        lemma2_to64();
    }
    let mut r: u64 = 1;
    let mut i: u64 = 0;
    while i < k
        invariant
            i <= k <= 32,
            r == pow2(i as nat),
        decreases k - i,
    {
        proof {
            if (i as nat) < 32 {
                lemma_pow2_strictly_increases(i as nat, 32);
                lemma2_to64();
            }
            lemma_pow2_unfold((i + 1) as nat);
        }
        r = r * 2;
        i = i + 1;
    }
    r
}

/// The mask with the highest `n` bits set.
fn prefix_mask_u32(n: u8) -> (r: u32)
    requires
        n <= 32,
    ensures
        r as nat == spec_prefix_mask(n as nat),
{
    let p = pow2_u64(32 - n as u64);
    proof {
        lemma2_to64();
        lemma_pow2_pos((32 - n) as nat);
        if n > 0 {
            lemma_pow2_strictly_increases((32 - n) as nat, 32);
        }
    }
    (0x1_0000_0000u64 - p) as u32
}

/// Finds the prefix length of a contiguous mask, or reports that the mask has
/// a gap.
pub(crate) fn find_prefix_len(m: u32) -> (r: Option<u8>)
    ensures
        r is Some <==> is_contiguous_mask(m as nat),
        r matches Some(n) ==> n <= 32 && m as nat == spec_prefix_mask(n as nat) && mask_prefix_len(
            m as nat,
        ) == n,
{
    let mut n: u8 = 0;
    while n <= 32
        invariant
            n <= 33,
            forall|k: nat| k < n ==> spec_prefix_mask(k) != m as nat,
        decreases 33 - n,
    {
        if prefix_mask_u32(n) == m {
            proof {
                assert(is_contiguous_mask(m as nat));
                let n0 = mask_prefix_len(m as nat);
                lemma_prefix_mask_injective(n0, n as nat);
            }
            return Some(n);
        }
        n = n + 1;
    }
    proof {
        assert forall|k: nat| !(k <= 32 && m as nat == spec_prefix_mask(k)) by {
            if k <= 32 {
                assert(spec_prefix_mask(k) != m as nat);
            }
        }
    }
    None
}

/// The four octets of a 32-bit mask value, high octet first.
fn mask_octets(m: u32) -> (r: (u8, u8, u8, u8))
    ensures
        r.0 == mask_octet_a(m as nat),
        r.1 == mask_octet_b(m as nat),
        r.2 == mask_octet_c(m as nat),
        r.3 == mask_octet_d(m as nat),
{
    proof {
        lemma_div_is_ordered(m as int, 0xFFFFFFFFint, 0x1000000);
    }
    let a = m / 0x1000000;
    let b = (m / 0x10000) % 0x100;
    let c = (m / 0x100) % 0x100;
    let d = m % 0x100;
    (a as u8, b as u8, c as u8, d as u8)
}

/// Renders a mask value in dotted-decimal notation.
pub(crate) fn mask_to_string(m: u32) -> (r: String)
    ensures
        r@ == mask_chars(m as nat),
{
    let o = mask_octets(m);
    let mut out = decimal_string(o.0 as usize);
    out.append(".");
    let sb = decimal_string(o.1 as usize);
    out.append(sb.as_str());
    out.append(".");
    let sc = decimal_string(o.2 as usize);
    out.append(sc.as_str());
    out.append(".");
    let sd = decimal_string(o.3 as usize);
    out.append(sd.as_str());
    proof {
        reveal_strlit(".");
        assert("."@ =~= seq!['.']);
        assert(out@ =~= mask_chars(m as nat));
    }
    out
}

/// Parses a CIDR subnet string, returning the prefix length.
pub(crate) fn parse_cidr(s: &str) -> (r: Option<u8>)
    ensures
        r is Some <==> is_cidr_chars(s@),
        r matches Some(v) ==> v == cidr_value(s@) && v <= 32,
{
    let n = s.unicode_len();
    if n < 2 {
        return None;
    }
    if s.get_char(0) != '/' {
        return None;
    }
    let mut i: usize = 1;
    let mut v: u32 = 0;
    while i < n
        invariant
            1 <= i <= n,
            n == s@.len(),
            all_digits(s@.subrange(1, i as int)),
            v == if dec_val(s@.subrange(1, i as int)) > 999 {
                999nat
            } else {
                dec_val(s@.subrange(1, i as int))
            },
        decreases n - i,
    {
        let ghost pre = s@.subrange(1, i as int);
        let c = s.get_char(i);
        let Some(d) = digit_of(c) else {
            proof {
                assert(s@.subrange(1, s@.len() as int)[i - 1] == s@[i as int]);
            }
            return None;
        };
        proof {
            let post = s@.subrange(1, i + 1);
            assert(post.drop_last() =~= pre);
            assert(post.last() == s@[i as int]);
            assert(dec_val(post) == dec_val(pre) * 10 + crate::digits::digit_val(s@[i as int]));
        }
        v = v * 10 + d as u32;
        if v > 999 {
            v = 999;
        }
        i = i + 1;
    }
    proof {
        assert(s@.subrange(1, n as int) =~= s@.subrange(1, s@.len() as int));
    }
    if v <= 32 {
        Some(v as u8)
    } else {
        None
    }
}

/// Converts CIDR notation to a dotted-decimal mask, for example `/24` to
/// `255.255.255.0`.
pub fn cidr_to_dotted_decimal(cidr: &str) -> (r: Result<String, ErrorDetail>)
    ensures
        r is Ok <==> is_cidr_chars(cidr@),
        r matches Ok(m) ==> spec_cidr_to_dotted(cidr@) == Some(m@),
        r matches Err(e) ==> e@ == (ErrorV::InvalidSubnet { input: cidr@ }),
{
    match parse_cidr(cidr) {
        Some(n) => Ok(mask_to_string(prefix_mask_u32(n))),
        None => Err(ErrorDetail::InvalidSubnet { input: String::from_str(cidr) }),
    }
}

/// Converts a dotted-decimal mask to CIDR notation, for example
/// `255.255.255.0` to `/24`. A mask with a gap in its bits is rejected.
pub fn dotted_decimal_to_cidr(subnet: &str) -> (r: Result<String, ErrorDetail>)
    ensures
        r is Ok <==> is_ipv4_chars(subnet@) && is_contiguous_mask(ipv4_mask_val(subnet@)),
        r matches Ok(c) ==> spec_dotted_to_cidr(subnet@) == Some(c@),
        r matches Err(e) ==> e@ == (ErrorV::InvalidSubnet { input: subnet@ }),
{
    if let Some(q) = parse_ipv4(subnet) {
        let m = quad_mask(q.0, q.1, q.2, q.3);
        if let Some(n) = find_prefix_len(m) {
            let mut out = String::from_str("/");
            let sn = decimal_string(n as usize);
            out.append(sn.as_str());
            proof {
                reveal_strlit("/");
                assert("/"@ =~= seq!['/']);
                assert(out@ =~= seq!['/'] + dec_rep(mask_prefix_len(ipv4_mask_val(subnet@))));
            }
            Ok(out)
        } else {
            Err(ErrorDetail::InvalidSubnet { input: String::from_str(subnet) })
        }
    } else {
        Err(ErrorDetail::InvalidSubnet { input: String::from_str(subnet) })
    }
}

/// The 32-bit mask value of four octets, high octet first.
fn quad_mask(a: u8, b: u8, c: u8, d: u8) -> (m: u32)
    ensures
        m as nat == quad_to_mask(a as nat, b as nat, c as nat, d as nat),
{
    (a as u32) * 0x1000000 + (b as u32) * 0x10000 + (c as u32) * 0x100 + (d as u32)
}

/// Whether `subnet` is a valid subnet in either notation: a dotted-decimal
/// string that is a contiguous mask, or a CIDR prefix of at most 32.
pub fn check_valid_subnet(subnet: &str) -> (r: bool)
    ensures
        r == is_subnet_chars(subnet@),
{
    if let Some(q) = parse_ipv4(subnet) {
        let m = quad_mask(q.0, q.1, q.2, q.3);
        let ok = find_prefix_len(m).is_some();
        proof {
            if !ok && is_cidr_chars(subnet@) {
                let (p1, p2, p3) = choose|p1: int, p2: int, p3: int|
                    crate::validate::is_quad_split(subnet@, p1, p2, p3);
                assert(subnet@.subrange(0, p1)[0] == subnet@[0]);
                assert(is_digit_char(subnet@[0]));
            }
        }
        ok
    } else {
        parse_cidr(subnet).is_some()
    }
}

/// The subnet notation the given platform's tools expect, from either
/// accepted notation. `Windows` tooling takes dotted-decimal masks and
/// `Linux` tooling takes CIDR prefixes; a string already in the target
/// notation's shape passes through unchanged.
pub open spec fn spec_normalize_subnet(s: Seq<char>, platform: Platform) -> Option<Seq<char>> {
    match platform {
        Platform::Windows => if s.len() >= 1 && s[0] == '/' {
            spec_cidr_to_dotted(s)
        } else {
            Some(s)
        },
        Platform::Linux => if s.len() >= 1 && s[0] == '/' {
            Some(s)
        } else {
            spec_dotted_to_cidr(s)
        },
    }
}

/// Normalizes a subnet string to the notation the target platform's tools
/// expect, converting between CIDR and dotted-decimal notation as needed.
pub fn normalize_subnet_for_os(subnet: &str, platform: Platform) -> (r: Result<String, ErrorDetail>)
    ensures
        r is Ok <==> spec_normalize_subnet(subnet@, platform) is Some,
        r matches Ok(o) ==> spec_normalize_subnet(subnet@, platform) == Some(o@),
        r matches Err(e) ==> e@ == (ErrorV::InvalidSubnet { input: subnet@ }),
{
    let cidr_shaped = subnet.unicode_len() >= 1 && subnet.get_char(0) == '/';
    match platform {
        Platform::Windows => {
            if cidr_shaped {
                cidr_to_dotted_decimal(subnet)
            } else {
                Ok(String::from_str(subnet))
            }
        },
        Platform::Linux => {
            if cidr_shaped {
                Ok(String::from_str(subnet))
            } else {
                dotted_decimal_to_cidr(subnet)
            }
        },
    }
}

} // verus!
