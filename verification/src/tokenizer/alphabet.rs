//! How a vocabulary spells bytes: the alphabet of visible characters that a
//! byte-level vocabulary maps every byte to, and the tokens that stand for one
//! raw byte each.

use vstd::prelude::*;

use crate::text::chars_of;

verus! {

/// `char::from_u32` gives the character with a code, for every code that is a
/// Unicode scalar value, and nothing for any other.
pub assume_specification[ std::primitive::char::from_u32 ](i: u32) -> (r: Option<char>)
    ensures
        r is Some <==> vstd::utf8::is_scalar(i),
        r is Some ==> r->0 as u32 == i,
;

/// Bytes that stand for themselves in the alphabet.
pub open spec fn is_visible(b: int) -> bool {
    33 <= b <= 126 || 161 <= b <= 172 || 174 <= b <= 255
}

/// The number of bytes below `b` that do not stand for themselves.
pub open spec fn hidden_below(b: int) -> int
    decreases b,
{
    if b <= 0 {
        0
    } else {
        hidden_below(b - 1) + (if is_visible(b - 1) {
            0int
        } else {
            1int
        })
    }
}

/// The code of the character that a byte is spelled with: its own code where it
/// is visible; the others follow from 256 on, in byte order.
pub open spec fn byte_code(b: u8) -> int {
    if is_visible(b as int) {
        b as int
    } else {
        256 + hidden_below(b as int)
    }
}

/// The character that a byte is spelled with.
pub open spec fn byte_char(b: u8) -> char {
    byte_code(b) as char
}

/// The byte that a character spells, if it spells one.
pub open spec fn char_byte(c: char) -> Option<u8> {
    if exists|b: u8| byte_char(b) == c {
        Some(choose|b: u8| byte_char(b) == c)
    } else {
        None
    }
}

/// The count of hidden bytes, in closed form.
proof fn hidden_below_closed(b: int)
    requires
        0 <= b <= 256,
    ensures
        hidden_below(b) == (if b <= 33 {
            b
        } else if b <= 127 {
            33
        } else if b <= 161 {
            b - 94
        } else if b <= 173 {
            67
        } else {
            68
        }),
    decreases b,
{
    if b > 0 {
        hidden_below_closed(b - 1);
    }
}

/// No two bytes are spelled with the same character, so that reading a spelled
/// byte gives it back.
pub proof fn byte_alphabet_is_reversible(b: u8)
    ensures
        char_byte(byte_char(b)) == Some(b),
{
    assert forall|x: u8| byte_char(x) == byte_char(b) implies x == b by {
        hidden_below_closed(x as int);
        hidden_below_closed(b as int);
        assert(0 <= byte_code(x) < 0xD800);
        assert(0 <= byte_code(b) < 0xD800);
        assert(byte_char(x) as int == byte_code(x));
        assert(byte_char(b) as int == byte_code(b));
    }
    assert(byte_char(b) == byte_char(b));
}

/// The alphabet as a table: the character of each byte.
pub fn byte_to_unicode_table() -> (table: Vec<char>)
    ensures
        table@.len() == 256,
        forall|b: u8| #[trigger] table@[b as int] == byte_char(b),
{
    let mut table: Vec<char> = Vec::new();
    let mut next_extra: u32 = 256;
    let mut b: u32 = 0;
    while b < 256
        invariant
            b <= 256,
            table@.len() == b,
            next_extra == 256 + hidden_below(b as int),
            0 <= hidden_below(b as int) <= b,
            forall|x: u8| x < b ==> #[trigger] table@[x as int] == byte_char(x),
        decreases 256 - b,
    {
        let code: u32 = if (33 <= b && b <= 126) || (161 <= b && b <= 172) || (174 <= b && b
            <= 255) {
            b
        } else {
            next_extra
        };
        if code == next_extra {
            next_extra += 1;
        }
        assert(code == byte_code(b as u8));
        let ghost before = table@;
        if let Some(c) = char::from_u32(code) {
            assert(c as u32 == code);
            proof {
                vstd::utf8::char_u32_cast(c, code);
            }
            assert(c == code as char);
            assert(c == byte_char(b as u8));
            table.push(c);
        }
        assert(table@ =~= before.push(byte_char(b as u8)));
        b += 1;
    }
    assert forall|x: u8| #[trigger] table@[x as int] == byte_char(x) by {
        assert(x < 256);
    }
    table
}

/// The byte that a character spells, looked up in the alphabet's table.
pub fn byte_of_char(table: &Vec<char>, c: char) -> (r: Option<u8>)
    requires
        table@.len() == 256,
        forall|b: u8| #[trigger] table@[b as int] == byte_char(b),
    ensures
        r == char_byte(c),
{
    let mut b: u16 = 0;
    while b < 256
        invariant
            b <= 256,
            table@.len() == 256,
            forall|x: u8| #[trigger] table@[x as int] == byte_char(x),
            forall|x: u8| x < b ==> byte_char(x) != c,
        decreases 256 - b,
    {
        if table[b as usize] == c {
            proof {
                let x = b as u8;
                assert(table@[x as int] == byte_char(x));
                byte_alphabet_is_reversible(x);
            }
            return Some(b as u8);
        }
        proof {
            let x = b as u8;
            assert(table@[x as int] == byte_char(x));
        }
        b += 1;
    }
    assert forall|x: u8| byte_char(x) != c by {
        assert(x < 256);
    }
    None
}

/// The upper-case hexadecimal digit of a number below sixteen.
pub open spec fn hex_digit(d: int) -> char {
    if d < 10 {
        (48 + d) as char
    } else {
        (55 + d) as char
    }
}

/// The spelling of the token for one raw byte.
pub open spec fn byte_token_text(b: u8) -> Seq<char> {
    seq!['<', '0', 'x', hex_digit(b as int / 16), hex_digit(b as int % 16), '>']
}

/// The byte that a token stands for by its spelling.
pub open spec fn byte_token_value(t: Seq<char>) -> Option<u8> {
    if exists|b: u8| t == #[trigger] byte_token_text(b) {
        Some(choose|b: u8| t == #[trigger] byte_token_text(b))
    } else {
        None
    }
}

/// No two bytes have tokens of the same spelling.
proof fn byte_token_texts_differ(a: u8, b: u8)
    requires
        byte_token_text(a) == byte_token_text(b),
    ensures
        a == b,
{
    assert(byte_token_text(a)[3] == byte_token_text(b)[3]);
    assert(byte_token_text(a)[4] == byte_token_text(b)[4]);
}

/// A token stands for a byte exactly where it is spelled as that byte's token is: with
/// two hexadecimal digits, letters being capitals.
pub proof fn byte_token_reads_back(t: Seq<char>, b: u8)
    ensures
        byte_token_value(t) == Some(b) <==> t == byte_token_text(b),
{
    if t == byte_token_text(b) {
        byte_token_texts_differ(choose|c: u8| t == #[trigger] byte_token_text(c), b);
    }
}

/// The value of a hexadecimal digit, letters being capitals.
fn hex_digit_value(c: char) -> (r: Option<u8>)
    ensures
        match r {
            Some(d) => d < 16 && c == hex_digit(d as int),
            None => forall|d: int| 0 <= d < 16 ==> c != #[trigger] hex_digit(d),
        },
{
    if '0' <= c && c <= '9' {
        Some((c as u32 - 48) as u8)
    } else if 'A' <= c && c <= 'F' {
        Some((c as u32 - 55) as u8)
    } else {
        None
    }
}

/// The byte that a token stands for by its spelling: `<0x`, two hexadecimal digits
/// whose letters are capitals, and `>`.
pub fn parse_byte_fallback_token(token: &str) -> (r: Option<u8>)
    ensures
        r == byte_token_value(token@),
        match r {
            Some(b) => token@ == byte_token_text(b),
            None => forall|b: u8| token@ != #[trigger] byte_token_text(b),
        },
{
    let t = chars_of(token);
    if t.len() != 6 || t[0] != '<' || t[1] != '0' || t[2] != 'x' || t[5] != '>' {
        assert forall|b: u8| token@ != #[trigger] byte_token_text(b) by {
            assert(byte_token_text(b).len() == 6);
            assert(byte_token_text(b)[0] == '<' && byte_token_text(b)[1] == '0');
            assert(byte_token_text(b)[2] == 'x' && byte_token_text(b)[5] == '>');
        }
        return None;
    }
    match (hex_digit_value(t[3]), hex_digit_value(t[4])) {
        (Some(hi), Some(lo)) => {
            let b: u8 = hi * 16 + lo;
            proof {
                assert(b as int / 16 == hi && b as int % 16 == lo);
                assert(token@ =~= byte_token_text(b));
                byte_token_reads_back(token@, b);
            }
            Some(b)
        },
        _ => {
            assert forall|b: u8| token@ != #[trigger] byte_token_text(b) by {
                assert(byte_token_text(b)[3] == hex_digit(b as int / 16));
                assert(byte_token_text(b)[4] == hex_digit(b as int % 16));
            }
            None
        },
    }
}

fn hex_char(d: u8) -> (c: char)
    requires
        d < 16,
    ensures
        c == hex_digit(d as int),
{
    if d < 10 {
        (48u8 + d) as char
    } else {
        (55u8 + d) as char
    }
}

/// The spelling of the token for one raw byte.
pub fn byte_fallback_token_name(byte: u8) -> (r: String)
    ensures
        r@ == byte_token_text(byte),
{
    let mut s = String::new();
    s.push('<');
    s.push('0');
    s.push('x');
    s.push(hex_char(byte / 16));
    s.push(hex_char(byte % 16));
    s.push('>');
    assert(s@ =~= byte_token_text(byte));
    s
}

} // verus!
