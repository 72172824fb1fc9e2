//! IPv4 literal syntax: the spec-level meaning of a dotted-decimal address
//! (four dot-separated octets, each in 0..=255, written canonically with no
//! leading zeros) and the verified checker and parser for it.

use vstd::prelude::*;

use crate::digits::all_digits;
use crate::digits::dec_val;
use crate::digits::is_digit_char;

verus! {

/// A canonically written octet: one to three digits, no leading zero except
/// for the single digit zero, value at most 255.
pub open spec fn is_octet_str(s: Seq<char>) -> bool {
    &&& 1 <= s.len() <= 3
    &&& all_digits(s)
    &&& (s.len() == 1 || s[0] != '0')
    &&& dec_val(s) <= 255
}

/// `p1 < p2 < p3` are the positions of the three dots of a dotted-decimal
/// address, and the four pieces between them are octets.
pub open spec fn is_quad_split(s: Seq<char>, p1: int, p2: int, p3: int) -> bool {
    &&& 0 <= p1 < p2 < p3 < s.len()
    &&& s[p1] == '.'
    &&& s[p2] == '.'
    &&& s[p3] == '.'
    &&& is_octet_str(s.subrange(0, p1))
    &&& is_octet_str(s.subrange(p1 + 1, p2))
    &&& is_octet_str(s.subrange(p2 + 1, p3))
    &&& is_octet_str(s.subrange(p3 + 1, s.len() as int))
}

/// The string is a valid IPv4 literal.
pub open spec fn is_ipv4_chars(s: Seq<char>) -> bool {
    exists|p1: int, p2: int, p3: int| is_quad_split(s, p1, p2, p3)
}

/// The four octet values of a valid IPv4 literal, high octet first.
pub open spec fn ipv4_octets(s: Seq<char>) -> (nat, nat, nat, nat)
    recommends
        is_ipv4_chars(s),
{
    let (p1, p2, p3) = choose|p1: int, p2: int, p3: int| is_quad_split(s, p1, p2, p3);
    (
        dec_val(s.subrange(0, p1)),
        dec_val(s.subrange(p1 + 1, p2)),
        dec_val(s.subrange(p2 + 1, p3)),
        dec_val(s.subrange(p3 + 1, s.len() as int)),
    )
}

/// A dot is not a digit, so the dot positions of a quad split are the only
/// dots in the string.
proof fn lemma_quad_split_dots(s: Seq<char>, p1: int, p2: int, p3: int)
    requires
        is_quad_split(s, p1, p2, p3),
    ensures
        forall|j: int| 0 <= j < s.len() && s[j] == '.' ==> j == p1 || j == p2 || j == p3,
{
    assert forall|j: int| 0 <= j < s.len() && s[j] == '.' implies j == p1 || j == p2 || j == p3 by {
        if j != p1 && j != p2 && j != p3 {
            if j < p1 {
                assert(s.subrange(0, p1)[j] == s[j]);
                assert(is_digit_char(s[j]));
            } else if j < p2 {
                assert(s.subrange(p1 + 1, p2)[j - p1 - 1] == s[j]);
                assert(is_digit_char(s[j]));
            } else if j < p3 {
                assert(s.subrange(p2 + 1, p3)[j - p2 - 1] == s[j]);
                assert(is_digit_char(s[j]));
            } else {
                assert(s.subrange(p3 + 1, s.len() as int)[j - p3 - 1] == s[j]);
                assert(is_digit_char(s[j]));
            }
        }
    }
}

/// A string splits as a quad in at most one way.
pub proof fn lemma_quad_split_unique(s: Seq<char>, p1: int, p2: int, p3: int, q1: int, q2: int, q3: int)
    requires
        is_quad_split(s, p1, p2, p3),
        is_quad_split(s, q1, q2, q3),
    ensures
        p1 == q1 && p2 == q2 && p3 == q3,
{
    lemma_quad_split_dots(s, p1, p2, p3);
    lemma_quad_split_dots(s, q1, q2, q3);
}

/// Unfolds `dec_val` for the short strings octets are made of.
pub proof fn lemma_dec_val_small(s: Seq<char>)
    ensures
        s.len() == 1 ==> dec_val(s) == crate::digits::digit_val(s[0]),
        s.len() == 2 ==> dec_val(s) == crate::digits::digit_val(s[0]) * 10
            + crate::digits::digit_val(s[1]),
        s.len() == 3 ==> dec_val(s) == crate::digits::digit_val(s[0]) * 100
            + crate::digits::digit_val(s[1]) * 10 + crate::digits::digit_val(s[2]),
{
    if 1 <= s.len() <= 3 {
        let s1 = s.drop_last();
        let s2 = s1.drop_last();
        assert(dec_val(s) == dec_val(s1) * 10 + crate::digits::digit_val(s.last()));
        if s.len() >= 2 {
            assert(dec_val(s1) == dec_val(s2) * 10 + crate::digits::digit_val(s1.last()));
            if s.len() == 3 {
                let s3 = s2.drop_last();
                assert(dec_val(s2) == dec_val(s3) * 10 + crate::digits::digit_val(s2.last()));
                assert(s3 =~= Seq::<char>::empty());
            } else {
                assert(s2 =~= Seq::<char>::empty());
            }
        } else {
            assert(s1 =~= Seq::<char>::empty());
        }
    }
}

/// Whether `c` is a decimal digit, with its value.
pub(crate) fn digit_of(c: char) -> (r: Option<u8>)
    ensures
        r is Some <==> is_digit_char(c),
        r matches Some(d) ==> d == crate::digits::digit_val(c) && d <= 9,
{
    let u = c as u32;
    if 48 <= u && u <= 57 {
        Some((u - 48) as u8)
    } else {
        None
    }
}

/// Checks that `s[from..to]` is a canonically written octet and returns its
/// value.
pub(crate) fn parse_octet(s: &str, from: usize, to: usize) -> (r: Option<u8>)
    requires
        from <= to <= s@.len(),
    ensures
        r is Some <==> is_octet_str(s@.subrange(from as int, to as int)),
        r matches Some(v) ==> v == dec_val(s@.subrange(from as int, to as int)),
{
    let ghost sub = s@.subrange(from as int, to as int);
    let len = to - from;
    proof {
        lemma_dec_val_small(sub);
    }
    if len == 0 || len > 3 {
        return None;
    }
    let d0 = digit_of(s.get_char(from));
    let Some(v0) = d0 else {
        proof {
            assert(sub[0] == s@[from as int]);
        }
        return None;
    };
    assert(sub[0] == s@[from as int]);
    if len == 1 {
        return Some(v0);
    }
    if v0 == 0 {
        proof {
            crate::digits::lemma_digit_val_char(sub[0]);
        }
        return None;
    }
    let d1 = digit_of(s.get_char(from + 1));
    let Some(v1) = d1 else {
        proof {
            assert(sub[1] == s@[from + 1]);
        }
        return None;
    };
    assert(sub[1] == s@[from + 1]);
    if len == 2 {
        return Some(v0 * 10 + v1);
    }
    let d2 = digit_of(s.get_char(from + 2));
    let Some(v2) = d2 else {
        proof {
            assert(sub[2] == s@[from + 2]);
        }
        return None;
    };
    assert(sub[2] == s@[from + 2]);
    let v: u32 = (v0 as u32) * 100 + (v1 as u32) * 10 + (v2 as u32);
    if v <= 255 {
        proof {
            assert forall|i: int| 0 <= i < sub.len() implies is_digit_char(#[trigger] sub[i]) by {
                assert(sub[i] == s@[from + i]);
            }
        }
        Some(v as u8)
    } else {
        None
    }
}

/// Parses a dotted-decimal IPv4 literal into its four octets, high first.
pub fn parse_ipv4(s: &str) -> (r: Option<(u8, u8, u8, u8)>)
    ensures
        r is Some <==> is_ipv4_chars(s@),
        r matches Some(q) ==> {
            let (a, b, c, d) = ipv4_octets(s@);
            q.0 == a && q.1 == b && q.2 == c && q.3 == d
        },
{
    let n = s.unicode_len();
    let mut dots: Vec<usize> = Vec::new();
    let mut i: usize = 0;
    while i < n
        invariant
            i <= n,
            n == s@.len(),
            forall|k: int|
                0 <= k < dots@.len() ==> (#[trigger] dots@[k]) < i && s@[dots@[k] as int] == '.',
            forall|k1: int, k2: int| 0 <= k1 < k2 < dots@.len() ==> dots@[k1] < dots@[k2],
            forall|j: int| 0 <= j < i && s@[j] == '.' ==> dots@.contains(j as usize),
        decreases n - i,
    {
        let c = s.get_char(i);
        let ghost prev = dots@;
        if c == '.' {
            dots.push(i);
        }
        proof {
            assert forall|j: int| 0 <= j < i + 1 && s@[j] == '.' implies dots@.contains(
                j as usize,
            ) by {
                if j < i {
                    let k = choose|k: int| 0 <= k < prev.len() && prev[k] == j as usize;
                    assert(dots@[k] == j as usize);
                } else {
                    assert(dots@.last() == i);
                }
            }
        }
        i += 1;
    }
    if dots.len() != 3 {
        proof {
            if is_ipv4_chars(s@) {
                let (p1, p2, p3) = choose|p1: int, p2: int, p3: int| is_quad_split(s@, p1, p2, p3);
                lemma_quad_split_dots(s@, p1, p2, p3);
                assert(dots@.contains(p1 as usize));
                assert(dots@.contains(p2 as usize));
                assert(dots@.contains(p3 as usize));
                let k1 = choose|k: int| 0 <= k < dots@.len() && dots@[k] == p1 as usize;
                let k2 = choose|k: int| 0 <= k < dots@.len() && dots@[k] == p2 as usize;
                let k3 = choose|k: int| 0 <= k < dots@.len() && dots@[k] == p3 as usize;
                if dots@.len() > 3 {
                    assert(forall|k: int|
                        0 <= k < dots@.len() ==> dots@[k] == p1 as usize || dots@[k] == p2 as usize
                            || dots@[k] == p3 as usize);
                    assert(dots@[0] < dots@[1] < dots@[2] < dots@[3]);
                    assert(false);
                } else {
                    assert(k1 != k2 && k2 != k3 && k1 != k3);
                    assert(false);
                }
            }
        }
        return None;
    }
    let p1 = dots[0];
    let p2 = dots[1];
    let p3 = dots[2];
    assert(p1 < p2 < p3 < n);
    let o0 = parse_octet(s, 0, p1);
    let Some(a) = o0 else {
        proof {
            lemma_no_split_with_bad_part(s@, p1 as int, p2 as int, p3 as int, dots@);
        }
        return None;
    };
    let o1 = parse_octet(s, p1 + 1, p2);
    let Some(b) = o1 else {
        proof {
            lemma_no_split_with_bad_part(s@, p1 as int, p2 as int, p3 as int, dots@);
        }
        return None;
    };
    let o2 = parse_octet(s, p2 + 1, p3);
    let Some(c) = o2 else {
        proof {
            lemma_no_split_with_bad_part(s@, p1 as int, p2 as int, p3 as int, dots@);
        }
        return None;
    };
    let o3 = parse_octet(s, p3 + 1, n);
    let Some(d) = o3 else {
        proof {
            lemma_no_split_with_bad_part(s@, p1 as int, p2 as int, p3 as int, dots@);
        }
        return None;
    };
    proof {
        assert(is_quad_split(s@, p1 as int, p2 as int, p3 as int));
        let (q1, q2, q3) = choose|q1: int, q2: int, q3: int| is_quad_split(s@, q1, q2, q3);
        lemma_quad_split_unique(s@, p1 as int, p2 as int, p3 as int, q1, q2, q3);
    }
    Some((a, b, c, d))
}

/// If the three dots of the string are `p1 < p2 < p3` and one of the four
/// pieces between them is not an octet, the string is not an IPv4 literal.
proof fn lemma_no_split_with_bad_part(s: Seq<char>, p1: int, p2: int, p3: int, dots: Seq<usize>)
    requires
        dots.len() == 3,
        0 <= p1 < p2 < p3 < s.len(),
        dots[0] == p1 && dots[1] == p2 && dots[2] == p3,
        forall|k: int| 0 <= k < dots.len() ==> s[#[trigger] dots[k] as int] == '.',
        forall|j: int| 0 <= j < s.len() && s[j] == '.' ==> dots.contains(j as usize),
        !(is_octet_str(s.subrange(0, p1)) && is_octet_str(s.subrange(p1 + 1, p2))
            && is_octet_str(s.subrange(p2 + 1, p3)) && is_octet_str(
            s.subrange(p3 + 1, s.len() as int),
        )),
    ensures
        !is_ipv4_chars(s),
{
    if is_ipv4_chars(s) {
        let (q1, q2, q3) = choose|q1: int, q2: int, q3: int| is_quad_split(s, q1, q2, q3);
        assert(dots.contains(q1 as usize));
        assert(dots.contains(q2 as usize));
        assert(dots.contains(q3 as usize));
        lemma_quad_split_dots(s, q1, q2, q3);
        let k1 = choose|k: int| 0 <= k < dots.len() && dots[k] == q1 as usize;
        let k2 = choose|k: int| 0 <= k < dots.len() && dots[k] == q2 as usize;
        let k3 = choose|k: int| 0 <= k < dots.len() && dots[k] == q3 as usize;
        assert(k1 != k2 && k2 != k3 && k1 != k3);
        assert(q1 == p1 && q2 == p2 && q3 == p3);
        assert(false);
    }
}

/// Whether `s` is a valid IPv4 literal: four dot-separated octets, each in
/// the range 0 to 255, written with no leading zeros and nothing else.
pub fn check_valid_ipv4(ip_address: &str) -> (r: bool)
    ensures
        r == is_ipv4_chars(ip_address@),
{
    parse_ipv4(ip_address).is_some()
}

} // verus!
