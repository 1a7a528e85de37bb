//! The identifiers of sessions: 128-bit numbers and their texts.

use vstd::prelude::*;

use crate::text;

verus! {

/// The hexadecimal digit of a number under sixteen.
pub open spec fn hex_digit(d: nat) -> char {
    if d < 10 {
        ('0' as int + d) as char
    } else {
        ('a' as int + d - 10) as char
    }
}

/// The number that a hexadecimal digit stands for.
pub open spec fn hex_value(c: char) -> Option<nat> {
    if '0' <= c <= '9' {
        Some((c as int - '0' as int) as nat)
    } else if 'a' <= c <= 'f' {
        Some((c as int - 'a' as int + 10) as nat)
    } else if 'A' <= c <= 'F' {
        Some((c as int - 'A' as int + 10) as nat)
    } else {
        None
    }
}

/// The last `k` hexadecimal digits of a number.
pub open spec fn hex_text(n: nat, k: nat) -> Seq<char>
    decreases k,
{
    if k == 0 {
        Seq::empty()
    } else {
        hex_text(n / 16, (k - 1) as nat).push(hex_digit(n % 16))
    }
}

/// The number that hexadecimal digits stand for.
pub open spec fn hex_number(t: Seq<char>) -> Option<nat>
    decreases t.len(),
{
    if t.len() == 0 {
        Some(0)
    } else {
        match (hex_number(t.drop_last()), hex_value(t.last())) {
            (Some(v), Some(d)) => Some(16 * v + d),
            _ => None,
        }
    }
}

/// Thirty-two characters in five groups, with hyphens between them.
pub open spec fn grouped(t: Seq<char>) -> Seq<char> {
    t.subrange(0, 8).push('-') + t.subrange(8, 12).push('-') + t.subrange(12, 16).push('-')
        + t.subrange(16, 20).push('-') + t.subrange(20, 32)
}

/// The thirty-two characters of five groups.
pub open spec fn ungrouped(t: Seq<char>) -> Option<Seq<char>> {
    if t.len() == 36 && t[8] == '-' && t[13] == '-' && t[18] == '-' && t[23] == '-' {
        Some(
            t.subrange(0, 8) + t.subrange(9, 13) + t.subrange(14, 18) + t.subrange(19, 23)
                + t.subrange(24, 36),
        )
    } else {
        None
    }
}

/// The number that five groups of hexadecimal digits stand for.
pub open spec fn grouped_number(t: Seq<char>) -> Option<nat> {
    match ungrouped(t) {
        Some(digits) => hex_number(digits),
        None => None,
    }
}

/// The number that an identifier stands for: thirty-two hexadecimal digits, or
/// five groups of them, which may stand in braces or behind `urn:uuid:`.
pub open spec fn id_number(t: Seq<char>) -> Option<nat> {
    if t.len() == 32 {
        hex_number(t)
    } else if t.len() == 36 {
        grouped_number(t)
    } else if t.len() == 38 && t[0] == '{' && t[37] == '}' {
        grouped_number(t.subrange(1, 37))
    } else if t.len() == 45 && text::same_letters(t.take(9), "urn:uuid:"@) {
        grouped_number(t.skip(9))
    } else {
        None
    }
}

/// The text of an identifier: five groups of small hexadecimal digits.
pub open spec fn id_text(n: u128) -> Seq<char> {
    grouped(hex_text(n as nat, 32))
}

/// Whether a number is that of a random identifier: its version is four and its
/// variant the standard one.
pub open spec fn is_random_id(n: u128) -> bool {
    n / 0x1000_0000_0000_0000_0000 % 16 == 4 && n / 0x4000_0000_0000_0000 % 4 == 2
}

/// `uuid::Uuid::parse_str`: reads an identifier in one of the four shapes that it
/// knows, in any case of its letters, and refuses every other text.
#[verifier::external_body]
pub(crate) fn parse_id(t: &str) -> (r: Option<u128>)
    ensures
        match r {
            Some(n) => id_number(t@) == Some(n as nat),
            None => id_number(t@) is None,
        },
{
    match uuid::Uuid::parse_str(t) {
        Ok(id) => Some(id.as_u128()),
        Err(_) => None,
    }
}

/// `uuid::Uuid::to_string`: writes an identifier as five groups of small
/// hexadecimal digits.
#[verifier::external_body]
pub(crate) fn format_id(n: u128) -> (r: String)
    ensures
        r@ == id_text(n),
{
    uuid::Uuid::from_u128(n).to_string()
}

/// `uuid::Uuid::new_v4`: a random identifier. All but the bits of its version and
/// its variant rests on chance.
#[verifier::external_body]
pub(crate) fn fresh_id() -> (r: u128)
    ensures
        is_random_id(r),
{
    uuid::Uuid::new_v4().as_u128()
}

proof fn digit_reads_back(d: nat)
    requires
        d < 16,
    ensures
        hex_value(hex_digit(d)) == Some(d),
        hex_digit(d) != '-' && hex_digit(d) != '/' && hex_digit(d) != '.' && hex_digit(d) != '\\',
{
}

proof fn hex_reads_back(n: nat, k: nat)
    requires
        n < vstd::arithmetic::power::pow(16, k),
    ensures
        hex_text(n, k).len() == k,
        hex_number(hex_text(n, k)) == Some(n),
        forall|i: int| 0 <= i < k ==> hex_value(#[trigger] hex_text(n, k)[i]) is Some,
    decreases k,
{
    if k == 0 {
        vstd::arithmetic::power::lemma_pow0(16);
    } else {
        let j = (k - 1) as nat;
        vstd::arithmetic::power::lemma_pow_adds(16, j, 1);
        vstd::arithmetic::power::lemma_pow1(16);
        let p = vstd::arithmetic::power::pow(16, j);
        assert(vstd::arithmetic::power::pow(16, k) == p * 16);
        assert(n / 16 < p);
        hex_reads_back(n / 16, j);
        digit_reads_back(n % 16);
        let t = hex_text(n, k);
        assert(t.drop_last() =~= hex_text(n / 16, j));
        assert forall|i: int| 0 <= i < k implies hex_value(#[trigger] t[i]) is Some by {
            if i < j {
                assert(t[i] == hex_text(n / 16, j)[i]);
            }
        }
    }
}

/// Thirty-two hexadecimal digits are enough.
proof fn all_ids_fit(n: u128)
    ensures
        n < vstd::arithmetic::power::pow(16, 32),
{
    let p = vstd::arithmetic::power::pow(16, 8);
    let q = vstd::arithmetic::power::pow(16, 16);
    vstd::arithmetic::power::lemma_pow_adds(16, 8, 8);
    vstd::arithmetic::power::lemma_pow_adds(16, 16, 16);
    assert(p == 0x1_0000_0000) by {
        reveal_with_fuel(vstd::arithmetic::power::pow, 9);
    }
    assert(q == 0x1_0000_0000_0000_0000int) by (nonlinear_arith)
        requires
            q == p * p,
            p == 0x1_0000_0000,
    ;
    assert(q * q == 0x1_0000_0000_0000_0000_0000_0000_0000_0000int) by (nonlinear_arith)
        requires
            q == 0x1_0000_0000_0000_0000int,
    ;
}

/// The text of an identifier stands for it.
pub proof fn ids_read_back(n: u128)
    ensures
        id_text(n).len() == 36,
        id_number(id_text(n)) == Some(n as nat),
{
    let digits = hex_text(n as nat, 32);
    all_ids_fit(n);
    hex_reads_back(n as nat, 32);
    let t = grouped(digits);
    assert(t.len() == 36);
    assert(ungrouped(t)->0 =~= digits);
}

/// The text of an identifier holds nothing but hexadecimal digits and hyphens, so
/// it names one entry of a directory and never leads out of it.
pub proof fn ids_stay_in_their_directory(n: u128, i: int)
    requires
        0 <= i < 36,
    ensures
        id_text(n).len() == 36,
        id_text(n)[i] == '-' || hex_value(id_text(n)[i]) is Some,
        id_text(n)[i] != '/' && id_text(n)[i] != '\\' && id_text(n)[i] != '.',
{
    ids_read_back(n);
    let digits = hex_text(n as nat, 32);
    all_ids_fit(n);
    hex_reads_back(n as nat, 32);
    let t = id_text(n);
    if i < 8 {
        assert(t[i] == digits[i]);
    } else if 8 < i < 13 {
        assert(t[i] == digits[i - 1]);
    } else if 13 < i < 18 {
        assert(t[i] == digits[i - 2]);
    } else if 18 < i < 23 {
        assert(t[i] == digits[i - 3]);
    } else if i > 23 {
        assert(t[i] == digits[i - 4]);
    }
}

} // verus!
