//! Decimal codec for 64-bit platform identifiers.
//!
//! The document format used by the storage adapter has no numeric type that
//! covers the full 64-bit unsigned range, so platform identifiers are stored
//! as their decimal string representation. This module provides the encoding
//! and the parse back, and proves that every identifier survives the round
//! trip unchanged.

use vstd::prelude::*;

verus! {

use vstd::string::StringSliceAdditionalSpecFns;

broadcast use vstd::string::is_ascii_spec_bytes, vstd::utf8::is_ascii_chars_nat_bound;

/// True of the ten ASCII digit characters.
pub open spec fn is_digit_char(c: char) -> bool {
    '0' <= c && c <= '9'
}

/// Numeric value of an ASCII digit character.
pub open spec fn digit_val(c: char) -> int {
    c as int - '0' as int
}

/// The ASCII digit character for a value below ten.
pub open spec fn digit_char(d: int) -> char {
    if d == 0 {
        '0'
    } else if d == 1 {
        '1'
    } else if d == 2 {
        '2'
    } else if d == 3 {
        '3'
    } else if d == 4 {
        '4'
    } else if d == 5 {
        '5'
    } else if d == 6 {
        '6'
    } else if d == 7 {
        '7'
    } else if d == 8 {
        '8'
    } else {
        '9'
    }
}

/// The decimal digit sequence of a number, most significant digit first,
/// with no leading zeros (zero itself is the single digit `0`).
pub open spec fn dec_digits(n: nat) -> Seq<char>
    decreases n,
{
    if n < 10 {
        seq![digit_char(n as int)]
    } else {
        dec_digits(n / 10).push(digit_char((n % 10) as int))
    }
}

/// Value of a digit sequence read left to right on top of an accumulator;
/// `None` when a non-digit character occurs.
pub open spec fn parse_dec_rec(s: Seq<char>, acc: nat) -> Option<nat>
    decreases s.len(),
{
    if s.len() == 0 {
        Some(acc)
    } else if is_digit_char(s[0]) {
        parse_dec_rec(s.drop_first(), (acc * 10 + digit_val(s[0])) as nat)
    } else {
        None
    }
}

/// What parsing a decimal string yields: the value of an all-digit,
/// non-empty sequence when it fits in 64 bits, and `None` otherwise.
pub open spec fn parse_dec(s: Seq<char>) -> Option<u64> {
    if s.len() == 0 {
        None
    } else {
        match parse_dec_rec(s, 0) {
            Some(v) => if v <= u64::MAX {
                Some(v as u64)
            } else {
                None
            },
            None => None,
        }
    }
}

/// Relies on `String::push`: appends the given character to the string.
#[verifier::external_body]
fn push_char(s: &mut String, c: char)
    ensures
        final(s)@ == old(s)@.push(c),
{
    s.push(c);
}

fn digit_to_char(d: u64) -> (c: char)
    requires
        d < 10,
    ensures
        c == digit_char(d as int),
{
    match d {
        0 => '0',
        1 => '1',
        2 => '2',
        3 => '3',
        4 => '4',
        5 => '5',
        6 => '6',
        7 => '7',
        8 => '8',
        _ => '9',
    }
}

fn push_dec_digits(s: &mut String, n: u64)
    ensures
        final(s)@ == old(s)@ + dec_digits(n as nat),
    decreases n,
{
    if n < 10 {
        push_char(s, digit_to_char(n));
        proof {
            assert(s@ =~= old(s)@ + dec_digits(n as nat));
        }
    } else {
        push_dec_digits(s, n / 10);
        push_char(s, digit_to_char(n % 10));
        proof {
            assert(s@ =~= old(s)@ + dec_digits(n as nat));
        }
    }
}

/// Decimal string of a 64-bit identifier: the form in which the storage
/// adapter keeps platform identifiers.
pub fn dec_string_of_u64(n: u64) -> (s: String)
    ensures
        s@ == dec_digits(n as nat),
{
    let mut s = String::new();
    push_dec_digits(&mut s, n);
    proof {
        assert(s@ =~= dec_digits(n as nat));
    }
    s
}

/// Parses a decimal string back into a 64-bit identifier; `None` exactly on
/// strings that are empty, hold a non-digit, or exceed the 64-bit range.
pub fn parse_u64_dec(s: &str) -> (r: Option<u64>)
    ensures
        r == parse_dec(s@),
{
    if !s.is_ascii() {
        proof {
            let i = choose|i: int| 0 <= i < s@.len() && !('\0' <= #[trigger] s@[i] <= '\u{7f}');
            lemma_parse_rec_nondigit(s@, 0, i);
        }
        return None;
    }
    let b = s.as_bytes();
    if b.len() == 0 {
        return None;
    }
    let ghost cs = s@;
    let n = b.len();
    let mut i: usize = 0;
    let mut acc: u64 = 0;
    proof {
        assert(cs.skip(0) =~= cs);
    }
    while i < n
        invariant
            0 <= i <= n,
            n == b@.len() == cs.len(),
            s.is_ascii(),
            b@ == s.spec_bytes(),
            cs == s@,
            parse_dec_rec(cs, 0) == parse_dec_rec(cs.skip(i as int), acc as nat),
        decreases n - i,
    {
        let v = b[i];
        proof {
            assert(b@[i as int] == cs[i as int] as u8);
            assert((cs[i as int] as nat) < 128);
        }
        let ghost c = cs[i as int];
        if v < 48 || v > 57 {
            proof {
                assert(!is_digit_char(c));
                lemma_parse_rec_nondigit(cs.skip(i as int), acc as nat, 0);
            }
            return None;
        }
        let d = (v - 48) as u64;
        proof {
            assert(is_digit_char(c));
            assert(digit_val(c) == d as int);
            assert(cs.skip(i as int).drop_first() =~= cs.skip(i as int + 1));
            vstd::arithmetic::div_mod::lemma_fundamental_div_mod((u64::MAX - d) as int, 10);
        }
        if acc > (u64::MAX - d) / 10 {
            proof {
                assert(acc * 10 + d > u64::MAX);
                lemma_parse_rec_lower_bound(cs.skip(i as int + 1), (acc * 10 + d) as nat);
            }
            return None;
        }
        acc = acc * 10 + d;
        i = i + 1;
    }
    proof {
        assert(cs.skip(n as int) =~= Seq::<char>::empty());
    }
    Some(acc)
}

proof fn lemma_parse_rec_nondigit(s: Seq<char>, acc: nat, i: int)
    requires
        0 <= i < s.len(),
        !is_digit_char(s[i]),
    ensures
        parse_dec_rec(s, acc) is None,
    decreases s.len(),
{
    if i == 0 {
    } else if is_digit_char(s[0]) {
        lemma_parse_rec_nondigit(s.drop_first(), (acc * 10 + digit_val(s[0])) as nat, i - 1);
    }
}

proof fn lemma_parse_rec_lower_bound(s: Seq<char>, acc: nat)
    ensures
        parse_dec_rec(s, acc) matches Some(v) ==> v >= acc,
    decreases s.len(),
{
    if s.len() == 0 {
    } else if is_digit_char(s[0]) {
        lemma_parse_rec_lower_bound(s.drop_first(), (acc * 10 + digit_val(s[0])) as nat);
    }
}

proof fn lemma_parse_rec_concat(a: Seq<char>, b: Seq<char>, acc: nat)
    ensures
        parse_dec_rec(a + b, acc) == (match parse_dec_rec(a, acc) {
            Some(v) => parse_dec_rec(b, v),
            None => None::<nat>,
        }),
    decreases a.len(),
{
    if a.len() == 0 {
        assert(a + b =~= b);
    } else {
        assert((a + b)[0] == a[0]);
        if is_digit_char(a[0]) {
            assert((a + b).drop_first() =~= a.drop_first() + b);
            lemma_parse_rec_concat(a.drop_first(), b, (acc * 10 + digit_val(a[0])) as nat);
        }
    }
}

/// Value that the digits of `n` produce on top of an accumulator.
spec fn dec_value_acc(n: nat, acc: nat) -> nat
    decreases n,
{
    if n < 10 {
        acc * 10 + n
    } else {
        dec_value_acc(n / 10, acc) * 10 + n % 10
    }
}

proof fn lemma_parse_digits(n: nat, acc: nat)
    ensures
        parse_dec_rec(dec_digits(n), acc) == Some(dec_value_acc(n, acc)),
    decreases n,
{
    if n < 10 {
        let c = digit_char(n as int);
        assert(is_digit_char(c) && digit_val(c) == n);
        assert(dec_digits(n) == seq![c]);
        assert(seq![c].drop_first() =~= Seq::<char>::empty());
        assert(parse_dec_rec(seq![c], acc) == parse_dec_rec(
            Seq::<char>::empty(),
            (acc * 10 + n) as nat,
        ));
        assert(parse_dec_rec(Seq::<char>::empty(), (acc * 10 + n) as nat) == Some(
            (acc * 10 + n) as nat,
        ));
        assert(dec_value_acc(n, acc) == acc * 10 + n);
    } else {
        let c = digit_char((n % 10) as int);
        assert(is_digit_char(c) && digit_val(c) == n % 10);
        assert(dec_digits(n) =~= dec_digits(n / 10) + seq![c]);
        lemma_parse_digits(n / 10, acc);
        lemma_parse_rec_concat(dec_digits(n / 10), seq![c], acc);
        let v = dec_value_acc(n / 10, acc);
        assert(parse_dec_rec(dec_digits(n), acc) == parse_dec_rec(seq![c], v));
        assert(seq![c].drop_first() =~= Seq::<char>::empty());
        assert(parse_dec_rec(seq![c], v) == parse_dec_rec(
            Seq::<char>::empty(),
            (v * 10 + n % 10) as nat,
        ));
        assert(dec_value_acc(n, acc) == v * 10 + n % 10);
    }
}

proof fn lemma_dec_value_zero_acc(n: nat)
    ensures
        dec_value_acc(n, 0) == n,
    decreases n,
{
    if n < 10 {
    } else {
        lemma_dec_value_zero_acc(n / 10);
        vstd::arithmetic::div_mod::lemma_fundamental_div_mod(n as int, 10);
    }
}

/// Identifier fidelity: the decimal encoding of any 64-bit identifier,
/// including the largest one, parses back to exactly that identifier.
pub proof fn lemma_dec_round_trip(n: u64)
    ensures
        parse_dec(dec_digits(n as nat)) == Some(n),
{
    lemma_parse_digits(n as nat, 0);
    lemma_dec_value_zero_acc(n as nat);
    assert(dec_digits(n as nat).len() > 0);
}

} // verus!
