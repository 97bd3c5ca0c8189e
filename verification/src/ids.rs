//! Document ids and session tokens as plain integers, with the verified
//! parsing and rendering of their 24-digit hexadecimal wire form.

use vstd::prelude::*;
use crate::errors::QuizError;

verus! {

/// A document id: 12 bytes, rendered as 24 hexadecimal digits.
pub type Oid = u128;

/// A quiz session token: 16 bytes of entropy.
pub type Token = u128;

/// 16 to the power `n`.
pub open spec fn pow16(n: nat) -> int
    decreases n,
{
    if n == 0 {
        1
    } else {
        16 * pow16((n - 1) as nat)
    }
}

pub proof fn lemma_pow16_pos(n: nat)
    ensures
        pow16(n) >= 1,
    decreases n,
{
    if n > 0 {
        lemma_pow16_pos((n - 1) as nat);
    }
}

pub proof fn lemma_pow16_increases(a: nat, b: nat)
    requires
        a <= b,
    ensures
        pow16(a) <= pow16(b),
    decreases b,
{
    if a < b {
        lemma_pow16_increases(a, (b - 1) as nat);
        lemma_pow16_pos((b - 1) as nat);
    }
}

/// The number of distinct values of a 24-digit hexadecimal string.
pub proof fn lemma_pow16_24()
    ensures
        pow16(24) == 0x1000000000000000000000000,
{
    reveal_with_fuel(pow16, 25);
}

/// Whether `c` is a hexadecimal digit, upper or lower case.
pub open spec fn is_hex_digit(c: char) -> bool {
    (48 <= c as u32 && c as u32 <= 57) || (97 <= c as u32 && c as u32 <= 102) || (65 <= c as u32
        && c as u32 <= 70)
}

/// The value of the hexadecimal digit `c`.
pub open spec fn hex_digit_value(c: char) -> int {
    if 48 <= c as u32 && c as u32 <= 57 {
        c as u32 - 48
    } else if 97 <= c as u32 && c as u32 <= 102 {
        c as u32 - 87
    } else {
        c as u32 - 55
    }
}

/// The value of the hexadecimal string `s`, most significant digit first.
pub open spec fn hex_value(s: Seq<char>) -> int
    decreases s.len(),
{
    if s.len() == 0 {
        0
    } else {
        hex_value(s.drop_last()) * 16 + hex_digit_value(s.last())
    }
}

/// Whether `s` is a well-formed id string: exactly 24 hexadecimal digits.
pub open spec fn is_oid_str(s: Seq<char>) -> bool {
    s.len() == 24 && forall|i: int| 0 <= i < s.len() ==> is_hex_digit(#[trigger] s[i])
}

/// A hexadecimal string of `n` digits has a value below 16^n.
pub proof fn lemma_hex_value_bound(s: Seq<char>)
    requires
        forall|i: int| 0 <= i < s.len() ==> is_hex_digit(#[trigger] s[i]),
    ensures
        0 <= hex_value(s) < pow16(s.len()),
    decreases s.len(),
{
    if s.len() > 0 {
        lemma_hex_value_bound(s.drop_last());
    }
}

/// The lower-case hexadecimal digit with value `d`.
pub open spec fn hex_char_of(d: int) -> char {
    if d == 0 {
        '0'
    } else if d == 1 {
        '1'
    } else if d == 2 {
        '2'
    } else if d == 3 {
        '3'
    } else if d == 4 {
        '4'
    } else if d == 5 {
        '5'
    } else if d == 6 {
        '6'
    } else if d == 7 {
        '7'
    } else if d == 8 {
        '8'
    } else if d == 9 {
        '9'
    } else if d == 10 {
        'a'
    } else if d == 11 {
        'b'
    } else if d == 12 {
        'c'
    } else if d == 13 {
        'd'
    } else if d == 14 {
        'e'
    } else {
        'f'
    }
}

pub proof fn lemma_hex_char_of_value(d: int)
    requires
        0 <= d < 16,
    ensures
        is_hex_digit(hex_char_of(d)),
        hex_digit_value(hex_char_of(d)) == d,
        (hex_char_of(d) as u32) < 128,
{
}

/// The value of one character as a hexadecimal digit, or `None` where it
/// is not one.
pub fn hex_digit_of(c: char) -> (r: Option<u8>)
    ensures
        match r {
            Some(d) => is_hex_digit(c) && d < 16 && d == hex_digit_value(c),
            None => !is_hex_digit(c),
        },
{
    let u = c as u32;
    if 48 <= u && u <= 57 {
        Some((u - 48) as u8)
    } else if 97 <= u && u <= 102 {
        Some((u - 87) as u8)
    } else if 65 <= u && u <= 70 {
        Some((u - 55) as u8)
    } else {
        None
    }
}

/// Parses a document id from its 24-digit hexadecimal form. Any other
/// input is a malformed reference.
pub fn parse_oid(s: &str) -> (r: Result<Oid, QuizError>)
    ensures
        match r {
            Ok(id) => is_oid_str(s@) && id == hex_value(s@),
            Err(e) => e == QuizError::InvalidReference && !is_oid_str(s@),
        },
{
    let n = s.unicode_len();
    if n != 24 {
        return Err(QuizError::InvalidReference);
    }
    let mut acc: u128 = 0;
    let mut i: usize = 0;
    while i < 24
        invariant
            0 <= i <= 24,
            n == 24,
            s@.len() == 24,
            forall|j: int| 0 <= j < i ==> is_hex_digit(#[trigger] s@[j]),
            acc == hex_value(s@.take(i as int)),
        decreases 24 - i,
    {
        let c = s.get_char(i);
        match hex_digit_of(c) {
            None => {
                return Err(QuizError::InvalidReference);
            },
            Some(d) => {
                proof {
                    lemma_hex_value_bound(s@.take(i as int));
                    lemma_pow16_increases(i as nat, 23);
                    lemma_pow16_24();
                    assert(s@.take(i as int + 1).drop_last() =~= s@.take(i as int));
                    assert(s@.take(i as int + 1).last() == s@[i as int]);
                }
                acc = acc * 16 + (d as u128);
            },
        }
        i = i + 1;
    }
    proof {
        assert(s@.take(24) =~= s@);
    }
    Ok(acc)
}

/// Appends the lower-case hexadecimal digit with value `d` to `s`.
fn append_hex_digit(s: &mut String, d: u8)
    requires
        d < 16,
    ensures
        final(s)@ == old(s)@.push(hex_char_of(d as int)),
{
    proof {
        reveal_strlit("0");
        reveal_strlit("1");
        reveal_strlit("2");
        reveal_strlit("3");
        reveal_strlit("4");
        reveal_strlit("5");
        reveal_strlit("6");
        reveal_strlit("7");
        reveal_strlit("8");
        reveal_strlit("9");
        reveal_strlit("a");
        reveal_strlit("b");
        reveal_strlit("c");
        reveal_strlit("d");
        reveal_strlit("e");
        reveal_strlit("f");
    }
    if d == 0 {
        s.append("0");
    } else if d == 1 {
        s.append("1");
    } else if d == 2 {
        s.append("2");
    } else if d == 3 {
        s.append("3");
    } else if d == 4 {
        s.append("4");
    } else if d == 5 {
        s.append("5");
    } else if d == 6 {
        s.append("6");
    } else if d == 7 {
        s.append("7");
    } else if d == 8 {
        s.append("8");
    } else if d == 9 {
        s.append("9");
    } else if d == 10 {
        s.append("a");
    } else if d == 11 {
        s.append("b");
    } else if d == 12 {
        s.append("c");
    } else if d == 13 {
        s.append("d");
    } else if d == 14 {
        s.append("e");
    } else {
        s.append("f");
    }
    proof {
        assert(final(s)@ =~= old(s)@.push(hex_char_of(d as int)));
    }
}

/// The value contributed by a sequence of digit values, least
/// significant digit first.
pub open spec fn lsb_value(digits: Seq<u8>) -> int
    decreases digits.len(),
{
    if digits.len() == 0 {
        0
    } else {
        lsb_value(digits.drop_last()) + digits.last() * pow16((digits.len() - 1) as nat)
    }
}

pub proof fn lemma_lsb_value_bound(digits: Seq<u8>)
    requires
        forall|i: int| 0 <= i < digits.len() ==> #[trigger] digits[i] < 16,
    ensures
        0 <= lsb_value(digits) < pow16(digits.len()),
    decreases digits.len(),
{
    if digits.len() > 0 {
        lemma_lsb_value_bound(digits.drop_last());
        lemma_pow16_pos((digits.len() - 1) as nat);
        assert(digits.last() * pow16((digits.len() - 1) as nat) <= 15 * pow16(
            (digits.len() - 1) as nat,
        )) by (nonlinear_arith)
            requires
                digits.last() < 16,
                pow16((digits.len() - 1) as nat) >= 1,
        ;
    }
}

/// The `n` hexadecimal digit values of `id`, least significant first.
fn hex_digits(id: u128, n: usize) -> (digits: Vec<u8>)
    requires
        n <= 32,
        id < pow16(n as nat),
    ensures
        digits@.len() == n,
        forall|i: int| 0 <= i < n ==> #[trigger] digits@[i] < 16,
        lsb_value(digits@) == id,
{
    let mut digits: Vec<u8> = Vec::new();
    let mut rem: u128 = id;
    let mut k: usize = 0;
    while k < n
        invariant
            0 <= k <= n <= 32,
            id < pow16(n as nat),
            digits@.len() == k,
            forall|i: int| 0 <= i < k ==> #[trigger] digits@[i] < 16,
            id == rem * pow16(k as nat) + lsb_value(digits@),
            0 <= lsb_value(digits@),
        decreases n - k,
    {
        let d: u8 = (rem % 16) as u8;
        let ghost old_digits = digits@;
        let ghost old_rem = rem;
        digits.push(d);
        rem = rem / 16;
        proof {
            assert(digits@.drop_last() =~= old_digits);
            assert(digits@.last() == d);
            assert(lsb_value(digits@) == lsb_value(old_digits) + d * pow16(k as nat));
            assert(old_rem == rem * 16 + d);
            assert((rem * 16 + d) * pow16(k as nat) == rem * (16 * pow16(k as nat)) + d * pow16(
                k as nat,
            )) by (nonlinear_arith);
            assert(16 * pow16(k as nat) == pow16((k + 1) as nat));
            lemma_pow16_pos(k as nat);
            assert(d * pow16(k as nat) >= 0) by (nonlinear_arith)
                requires
                    d >= 0,
                    pow16(k as nat) >= 1,
            ;
        }
        k = k + 1;
    }
    proof {
        assert(id == rem * pow16(n as nat) + lsb_value(digits@));
        lemma_pow16_pos(n as nat);
        if rem > 0 {
            assert(rem * pow16(n as nat) >= pow16(n as nat)) by (nonlinear_arith)
                requires
                    rem >= 1,
                    pow16(n as nat) >= 1,
            ;
            lemma_lsb_value_bound(digits@);
            assert(false);
        }
    }
    digits
}

/// Appends the `n`-digit hexadecimal rendering of `id` to `s`, most
/// significant digit first.
fn append_hex(s: &mut String, id: u128, n: usize)
    requires
        n <= 32,
        id < pow16(n as nat),
    ensures
        final(s)@.len() == old(s)@.len() + n,
        final(s)@.take(old(s)@.len() as int) == old(s)@,
        forall|i: int|
            old(s)@.len() <= i < final(s)@.len() ==> is_hex_digit(#[trigger] final(s)@[i]),
        hex_value(final(s)@.skip(old(s)@.len() as int)) == id,
{
    let digits = hex_digits(id, n);
    let ghost base = s@.len() as int;
    proof {
        assert(s@.skip(base) =~= Seq::<char>::empty());
        assert(s@.take(base) =~= s@);
        assert(digits@.take(n as int) =~= digits@);
        assert(pow16(n as nat) >= 1) by { lemma_pow16_pos(n as nat) };
    }
    let mut k: usize = 0;
    while k < n
        invariant
            0 <= k <= n <= 32,
            digits@.len() == n,
            forall|i: int| 0 <= i < n ==> #[trigger] digits@[i] < 16,
            lsb_value(digits@) == id,
            id < pow16(n as nat),
            s@.len() == base + k,
            base == old(s)@.len(),
            s@.take(base) == old(s)@,
            forall|i: int| base <= i < s@.len() ==> is_hex_digit(#[trigger] s@[i]),
            hex_value(s@.skip(base)) * pow16((n - k) as nat) + lsb_value(
                digits@.take((n - k) as int),
            ) == id,
            0 <= hex_value(s@.skip(base)),
        decreases n - k,
    {
        let d = digits[n - 1 - k];
        let ghost old_s = s@;
        let ghost hv = hex_value(old_s.skip(base));
        let ghost m = (n - k - 1) as nat;
        append_hex_digit(s, d);
        proof {
            lemma_hex_char_of_value(d as int);
            assert(s@.take(base) =~= old_s.take(base));
            assert(s@.skip(base) =~= old_s.skip(base).push(hex_char_of(d as int)));
            assert(s@.skip(base).drop_last() =~= old_s.skip(base));
            assert(hex_value(s@.skip(base)) == hv * 16 + d);
            // the digit taken off the top of the remaining digits
            assert(digits@.take((n - k) as int).drop_last() =~= digits@.take(m as int));
            assert(digits@.take((n - k) as int).last() == d);
            assert(lsb_value(digits@.take((n - k) as int)) == lsb_value(digits@.take(m as int)) + d
                * pow16(m));
            assert((hv * 16 + d) * pow16(m) == hv * (16 * pow16(m)) + d * pow16(m))
                by (nonlinear_arith);
            assert(16 * pow16(m) == pow16((m + 1) as nat));
            lemma_hex_value_bound(s@.skip(base));
        }
        k = k + 1;
    }
    proof {
        assert(digits@.take(0) =~= Seq::<u8>::empty());
        assert(pow16(0) == 1);
    }
}

/// Renders a document id as its 24-digit lower-case hexadecimal form,
/// the inverse of `parse_oid`.
pub fn oid_to_hex(id: Oid) -> (r: String)
    requires
        id < pow16(24),
    ensures
        is_oid_str(r@),
        hex_value(r@) == id,
{
    let mut s = String::new();
    append_hex(&mut s, id, 24);
    proof {
        assert(s@.skip(0) =~= s@);
    }
    s
}

/// Renders a session token as 32 lower-case hexadecimal digits.
pub fn token_to_hex(token: Token) -> (r: String)
    ensures
        r@.len() == 32,
        forall|i: int| 0 <= i < r@.len() ==> is_hex_digit(#[trigger] r@[i]),
        hex_value(r@) == token,
{
    proof {
        lemma_pow16_32();
    }
    let mut s = String::new();
    append_hex(&mut s, token, 32);
    proof {
        assert(s@.skip(0) =~= s@);
    }
    s
}

/// Every 128-bit value fits in 32 hexadecimal digits.
pub proof fn lemma_pow16_32()
    ensures
        pow16(32) == 0x100000000000000000000000000000000,
{
    reveal_with_fuel(pow16, 33);
}

} // verus!
