//! Decimal digit strings: the spec-level decimal rendering and value of
//! character sequences, the executable rendering of integers, and the lemmas
//! that make canonical decimal strings round-trip.

use vstd::prelude::*;

verus! {

/// A decimal digit character.
pub open spec fn is_digit_char(c: char) -> bool {
    '0' <= c && c <= '9'
}

/// Numeric value of a digit character.
pub open spec fn digit_val(c: char) -> nat {
    (c as nat - '0' as nat) as nat
}

/// The digit character for a value below ten.
pub open spec fn digit_char(d: nat) -> char {
    if d == 0 {
        '0'
    } else if d == 1 {
        '1'
    } else if d == 2 {
        '2'
    } else if d == 3 {
        '3'
    } else if d == 4 {
        '4'
    } else if d == 5 {
        '5'
    } else if d == 6 {
        '6'
    } else if d == 7 {
        '7'
    } else if d == 8 {
        '8'
    } else {
        '9'
    }
}

/// Canonical decimal rendering of a natural number: no sign, no leading zero
/// (except for the single digit of zero itself).
pub open spec fn dec_rep(n: nat) -> Seq<char>
    decreases n,
{
    if n < 10 {
        seq![digit_char(n)]
    } else {
        dec_rep(n / 10).push(digit_char(n % 10))
    }
}

/// Value of a digit string read as a decimal number.
pub open spec fn dec_val(s: Seq<char>) -> nat
    decreases s.len(),
{
    if s.len() == 0 {
        0
    } else {
        dec_val(s.drop_last()) * 10 + digit_val(s.last())
    }
}

/// Every character of `s` is a decimal digit.
pub open spec fn all_digits(s: Seq<char>) -> bool {
    forall|i: int| 0 <= i < s.len() ==> is_digit_char(#[trigger] s[i])
}

/// The character of a digit value is a digit with that value.
pub proof fn lemma_digit_char_val(d: nat)
    requires
        d <= 9,
    ensures
        is_digit_char(digit_char(d)),
        digit_val(digit_char(d)) == d,
{
}

/// Two characters with the same scalar value are the same character.
proof fn lemma_char_eq_from_val(a: char, b: char)
    requires
        a as u32 == b as u32,
    ensures
        a == b,
{
    vstd::utf8::char_u32_cast(a, a as u32);
    vstd::utf8::char_u32_cast(b, b as u32);
}

/// The value of a digit character is below ten, and its character is the
/// digit itself.
pub proof fn lemma_digit_val_char(c: char)
    requires
        is_digit_char(c),
    ensures
        digit_val(c) <= 9,
        digit_char(digit_val(c)) == c,
{
    let v = c as u32;
    assert(48 <= v <= 57);
    if v == 48 {
        lemma_char_eq_from_val(c, '0');
    } else if v == 49 {
        lemma_char_eq_from_val(c, '1');
    } else if v == 50 {
        lemma_char_eq_from_val(c, '2');
    } else if v == 51 {
        lemma_char_eq_from_val(c, '3');
    } else if v == 52 {
        lemma_char_eq_from_val(c, '4');
    } else if v == 53 {
        lemma_char_eq_from_val(c, '5');
    } else if v == 54 {
        lemma_char_eq_from_val(c, '6');
    } else if v == 55 {
        lemma_char_eq_from_val(c, '7');
    } else if v == 56 {
        lemma_char_eq_from_val(c, '8');
    } else {
        lemma_char_eq_from_val(c, '9');
    }
}

/// The canonical rendering consists of digits only.
pub proof fn lemma_dec_rep_digits(n: nat)
    ensures
        all_digits(dec_rep(n)),
        dec_rep(n).len() >= 1,
    decreases n,
{
    if n < 10 {
        lemma_digit_char_val(n);
    } else {
        lemma_dec_rep_digits(n / 10);
        lemma_digit_char_val(n % 10);
    }
}

/// The canonical rendering of a positive number does not start with a zero.
pub proof fn lemma_dec_rep_leading(n: nat)
    ensures
        n > 0 ==> dec_rep(n)[0] != '0',
        n == 0 ==> dec_rep(n) =~= seq!['0'],
    decreases n,
{
    if n >= 10 {
        lemma_dec_rep_leading(n / 10);
        lemma_dec_rep_digits(n / 10);
        assert(dec_rep(n)[0] == dec_rep(n / 10)[0]);
    }
}

/// Reading the canonical rendering back gives the number itself.
pub proof fn lemma_dec_val_of_rep(n: nat)
    ensures
        dec_val(dec_rep(n)) == n,
    decreases n,
{
    if n < 10 {
        let s = dec_rep(n);
        assert(s.drop_last() =~= Seq::<char>::empty());
        assert(dec_val(Seq::<char>::empty()) == 0);
        assert(s.last() == digit_char(n));
        assert(dec_val(s) == dec_val(s.drop_last()) * 10 + digit_val(s.last()));
        lemma_digit_char_val(n);
    } else {
        lemma_dec_val_of_rep(n / 10);
        lemma_digit_char_val(n % 10);
        let s = dec_rep(n);
        assert(s.drop_last() =~= dec_rep(n / 10));
    }
}

/// Length of the rendering for the small ranges this crate needs.
pub proof fn lemma_dec_rep_len(n: nat)
    ensures
        n < 10 ==> dec_rep(n).len() == 1,
        10 <= n < 100 ==> dec_rep(n).len() == 2,
        100 <= n < 1000 ==> dec_rep(n).len() == 3,
{
    if 10 <= n < 100 {
        assert(dec_rep(n).len() == dec_rep(n / 10).len() + 1);
    } else if 100 <= n < 1000 {
        assert(dec_rep(n).len() == dec_rep(n / 10).len() + 1);
        assert(dec_rep(n / 10).len() == dec_rep(n / 10 / 10).len() + 1);
    }
}

/// A digit string with a nonzero first digit has a value of at least one.
proof fn lemma_dec_val_positive(s: Seq<char>)
    requires
        all_digits(s),
        s.len() >= 1,
        s[0] != '0',
    ensures
        dec_val(s) >= 1,
    decreases s.len(),
{
    if s.len() == 1 {
        assert(s.drop_last() =~= Seq::<char>::empty());
        lemma_digit_val_char(s[0]);
        if digit_val(s[0]) == 0 {
            assert(digit_char(0nat) == '0');
        }
    } else {
        let s1 = s.drop_last();
        assert(s1[0] == s[0]);
        lemma_dec_val_positive(s1);
    }
}

/// A canonical digit string (nonempty, digits only, no leading zero) is the
/// rendering of its own value: decimal representations are unique.
pub proof fn lemma_dec_rep_unique(s: Seq<char>)
    requires
        all_digits(s),
        s.len() >= 1,
        s.len() == 1 || s[0] != '0',
    ensures
        s =~= dec_rep(dec_val(s)),
    decreases s.len(),
{
    if s.len() == 1 {
        assert(s.drop_last() =~= Seq::<char>::empty());
        assert(dec_val(Seq::<char>::empty()) == 0);
        assert(s.last() == s[0]);
        assert(dec_val(s) == dec_val(s.drop_last()) * 10 + digit_val(s.last()));
        lemma_digit_val_char(s[0]);
        assert(dec_val(s) == digit_val(s[0]));
    } else {
        let s1 = s.drop_last();
        let c = s.last();
        assert(s1[0] == s[0]);
        lemma_dec_rep_unique(s1);
        lemma_dec_val_positive(s1);
        lemma_digit_val_char(c);
        let v = dec_val(s);
        assert(v == dec_val(s1) * 10 + digit_val(c));
        assert(v >= 10);
        assert(v / 10 == dec_val(s1) && v % 10 == digit_val(c)) by {
            vstd::arithmetic::div_mod::lemma_fundamental_div_mod_converse(
                v as int,
                10,
                dec_val(s1) as int,
                digit_val(c) as int,
            );
        }
        assert(dec_rep(v) =~= dec_rep(v / 10).push(digit_char(v % 10)));
    }
}

/// A single decimal digit as a string slice.
fn digit_str(d: u8) -> (r: &'static str)
    requires
        d <= 9,
    ensures
        r@ =~= seq![digit_char(d as nat)],
{
    proof {
        reveal_strlit("0");
        reveal_strlit("1");
        reveal_strlit("2");
        reveal_strlit("3");
        reveal_strlit("4");
        reveal_strlit("5");
        reveal_strlit("6");
        reveal_strlit("7");
        reveal_strlit("8");
        reveal_strlit("9");
    }
    match d {
        0 => "0",
        1 => "1",
        2 => "2",
        3 => "3",
        4 => "4",
        5 => "5",
        6 => "6",
        7 => "7",
        8 => "8",
        _ => "9",
    }
}

/// Renders a number in canonical decimal notation.
pub fn decimal_string(n: usize) -> (r: String)
    ensures
        r@ == dec_rep(n as nat),
    decreases n,
{
    if n < 10 {
        String::from_str(digit_str(n as u8))
    } else {
        let mut s = decimal_string(n / 10);
        s.append(digit_str((n % 10) as u8));
        proof {
            assert(s@ =~= dec_rep((n / 10) as nat).push(digit_char((n % 10) as nat)));
        }
        s
    }
}

} // verus!
