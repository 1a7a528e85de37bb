//! Text as a sequence of characters: decimal numbers, replacement, filling
//! numbered templates, and a few comparisons.

use vstd::prelude::*;

pub mod laws;

verus! {

/// `String::push` appends one character.
pub assume_specification[ std::string::String::push ](s: &mut std::string::String, c: char)
    ensures
        final(s)@ == old(s)@.push(c),
;

/// The character that stands for one decimal digit.
pub open spec fn digit(d: nat) -> char {
    (48 + d) as char
}

/// A number in decimal notation, without sign or leading zeros.
pub open spec fn decimal_text(n: nat) -> Seq<char>
    decreases n,
{
    if n < 10 {
        seq![digit(n)]
    } else {
        decimal_text(n / 10).push(digit(n % 10))
    }
}

/// `f` stands in `t` at position `i`.
pub open spec fn occurs_at(t: Seq<char>, f: Seq<char>, i: int) -> bool {
    0 <= i && i + f.len() <= t.len() && t.subrange(i, i + f.len()) == f
}

/// `t` with every occurrence of `f` replaced by `r`, searched from left to
/// right; a replaced stretch is not searched again.
pub open spec fn replaced(t: Seq<char>, f: Seq<char>, r: Seq<char>) -> Seq<char>
    decreases t.len(),
{
    if f.len() == 0 || t.len() == 0 {
        t
    } else if occurs_at(t, f, 0) {
        r + replaced(t.skip(f.len() as int), f, r)
    } else {
        seq![t[0]] + replaced(t.skip(1), f, r)
    }
}

/// A template line with `{i}` replaced by a number.
pub open spec fn numbered(template: Seq<char>, i: nat) -> Seq<char> {
    replaced(template, "{i}"@, decimal_text(i))
}

/// The template line once for each number from `lo` up to but not including `hi`.
pub open spec fn numbered_lines(template: Seq<char>, lo: nat, hi: nat) -> Seq<char>
    decreases hi,
{
    if hi <= lo {
        Seq::empty()
    } else {
        numbered_lines(template, lo, (hi - 1) as nat) + numbered(template, (hi - 1) as nat)
    }
}

/// A template line for one cell of a grid that is `width` cells wide: `{i}` is
/// the row, `{j}` the column and `{idx}` the cell's index in row-major order.
pub open spec fn cell_text(template: Seq<char>, width: nat, i: nat, j: nat) -> Seq<char> {
    replaced(
        replaced(numbered(template, i), "{j}"@, decimal_text(j)),
        "{idx}"@,
        decimal_text(i * width + j),
    )
}

/// The first `n` cells of row `i`.
pub open spec fn row_cells(template: Seq<char>, width: nat, i: nat, n: nat) -> Seq<char>
    decreases n,
{
    if n == 0 {
        Seq::empty()
    } else {
        row_cells(template, width, i, (n - 1) as nat) + cell_text(
            template,
            width,
            i,
            (n - 1) as nat,
        )
    }
}

/// Every cell of the first `rows` rows, row by row.
pub open spec fn grid_lines(template: Seq<char>, width: nat, rows: nat) -> Seq<char>
    decreases rows,
{
    if rows == 0 {
        Seq::empty()
    } else {
        grid_lines(template, width, (rows - 1) as nat) + row_cells(
            template,
            width,
            (rows - 1) as nat,
            width,
        )
    }
}

/// The texts of a list of strings.
pub open spec fn texts(v: Seq<String>) -> Seq<Seq<char>> {
    v.map_values(|s: String| s@)
}

/// The texts of a list of string slices.
pub open spec fn slices(v: Seq<&str>) -> Seq<Seq<char>> {
    v.map_values(|s: &str| s@)
}

/// Texts one after another, with `sep` between them.
pub open spec fn joined(parts: Seq<Seq<char>>, sep: Seq<char>) -> Seq<char>
    decreases parts.len(),
{
    if parts.len() == 0 {
        Seq::empty()
    } else if parts.len() == 1 {
        parts[0]
    } else {
        joined(parts.drop_last(), sep) + sep + parts.last()
    }
}

/// The decimal texts of a list of numbers.
pub open spec fn decimals(v: Seq<u64>) -> Seq<Seq<char>> {
    v.map_values(|n: u64| decimal_text(n as nat))
}

/// Whether a character is white space.
pub open spec fn is_white(c: char) -> bool {
    let n = c as int;
    ||| 0x9 <= n <= 0xd
    ||| n == 0x20
    ||| n == 0x85
    ||| n == 0xa0
    ||| n == 0x1680
    ||| 0x2000 <= n <= 0x200a
    ||| n == 0x2028
    ||| n == 0x2029
    ||| n == 0x202f
    ||| n == 0x205f
    ||| n == 0x3000
}

/// A text without the white space that it starts with.
pub open spec fn trimmed_front(t: Seq<char>) -> Seq<char>
    decreases t.len(),
{
    if t.len() > 0 && is_white(t[0]) {
        trimmed_front(t.drop_first())
    } else {
        t
    }
}

/// A text without the white space that it ends with.
pub open spec fn trimmed_back(t: Seq<char>) -> Seq<char>
    decreases t.len(),
{
    if t.len() > 0 && is_white(t.last()) {
        trimmed_back(t.drop_last())
    } else {
        t
    }
}

/// A text without the white space at its ends.
pub open spec fn trimmed(t: Seq<char>) -> Seq<char> {
    trimmed_back(trimmed_front(t))
}

/// A text filled up with spaces to `width` characters.
pub open spec fn padded(t: Seq<char>, width: nat) -> Seq<char> {
    t + spaces((width - t.len()) as int)
}

/// A text with spaces before it, up to `width` characters.
pub open spec fn right_aligned(t: Seq<char>, width: nat) -> Seq<char> {
    spaces((width - t.len()) as int) + t
}

/// As many spaces as that; none where the number is negative.
pub open spec fn spaces(n: int) -> Seq<char> {
    Seq::new(
        (if n > 0 {
            n
        } else {
            0
        }) as nat,
        |i: int| ' ',
    )
}

/// The number of bytes that a text takes.
pub open spec fn byte_len(t: Seq<char>) -> nat {
    vstd::utf8::encode_utf8(t).len()
}

/// The most bytes that any of some texts takes.
pub open spec fn widest(list: Seq<Seq<char>>) -> nat
    decreases list.len(),
{
    if list.len() == 0 {
        0
    } else {
        let rest = widest(list.drop_last());
        if byte_len(list.last()) > rest {
            byte_len(list.last())
        } else {
            rest
        }
    }
}

/// The number that decimal digits stand for.
pub open spec fn digits_value(t: Seq<char>) -> Option<nat>
    decreases t.len(),
{
    if t.len() == 0 {
        Some(0)
    } else {
        match digits_value(t.drop_last()) {
            Some(v) if '0' <= t.last() <= '9' => Some(
                10 * v + (t.last() as int - '0' as int) as nat,
            ),
            _ => None,
        }
    }
}

/// The number that a text stands for: decimal digits, with a plus sign before them
/// or without, that make a number no greater than the machine's largest.
pub open spec fn number_of(t: Seq<char>) -> Option<usize> {
    let digits = if t.len() > 0 && t[0] == '+' {
        t.drop_first()
    } else {
        t
    };
    if digits.len() == 0 {
        None
    } else {
        within_machine(digits_value(digits))
    }
}

/// A number, where it is no greater than the machine's largest.
pub open spec fn within_machine(v: Option<nat>) -> Option<usize> {
    match v {
        Some(n) if n <= usize::MAX => Some(n as usize),
        _ => None,
    }
}

/// Whether a text ends with another.
pub open spec fn has_suffix(t: Seq<char>, s: Seq<char>) -> bool {
    t.len() >= s.len() && t.skip(t.len() - s.len()) == s
}

/// Whether a text starts with another.
pub open spec fn has_prefix(t: Seq<char>, s: Seq<char>) -> bool {
    t.len() >= s.len() && t.take(s.len() as int) == s
}

/// A letter of the basic alphabet in lower case; any other character as it is.
pub open spec fn small(c: char) -> char {
    if 'A' <= c <= 'Z' {
        (c as int + 32) as char
    } else {
        c
    }
}

/// Whether two texts are the same but for the case of letters of the basic
/// alphabet.
pub open spec fn same_letters(a: Seq<char>, b: Seq<char>) -> bool {
    a.map_values(|c: char| small(c)) == b.map_values(|c: char| small(c))
}

/// A trimmed text neither starts nor ends with white space, and white space is all
/// that it lost.
pub proof fn trimming_takes_white_space(t: Seq<char>)
    ensures
        trimmed(t).len() > 0 ==> !is_white(trimmed(t)[0]) && !is_white(trimmed(t).last()),
        exists|a: int, b: int|
            {
                &&& 0 <= a <= b <= t.len()
                &&& trimmed(t) == #[trigger] t.subrange(a, b)
                &&& forall|i: int| 0 <= i < a || b <= i < t.len() ==> is_white(#[trigger] t[i])
            },
{
    let f = trimmed_front(t);
    let a = front_trimmed(t);
    let n = back_trimmed(f);
    assert(trimmed(t) =~= t.subrange(a, a + n));
    assert forall|i: int| 0 <= i < a || a + n <= i < t.len() implies is_white(#[trigger] t[i]) by {
        if i >= a {
            assert(f[i - a] == t[i]);
        }
    }
}

/// The decimal text of a number stands for it, with white space around it or
/// without.
pub proof fn decimal_reads_back(n: nat)
    ensures
        decimal_text(n).len() > 0,
        digits_value(decimal_text(n)) == Some(n),
        forall|i: int|
            0 <= i < decimal_text(n).len() ==> '0' <= #[trigger] decimal_text(n)[i] <= '9',
        trimmed(decimal_text(n)) == decimal_text(n),
        n <= usize::MAX ==> number_of(decimal_text(n)) == Some(n as usize),
    decreases n,
{
    let t = decimal_text(n);
    if n < 10 {
        assert(t.drop_last() =~= Seq::empty());
        assert(digits_value(t.drop_last()) == Some(0nat));
        assert(t.last() == digit(n));
        assert(digits_value(t) == Some(10 * 0 + n));
    } else {
        decimal_reads_back(n / 10);
        assert(t.drop_last() =~= decimal_text(n / 10));
        assert forall|i: int| 0 <= i < t.len() implies '0' <= #[trigger] t[i] <= '9' by {
            if i < t.len() - 1 {
                assert(t[i] == decimal_text(n / 10)[i]);
            }
        }
    }
    assert('0' <= t[0] <= '9');
    assert('0' <= t[t.len() - 1] <= '9');
}

proof fn front_trimmed(t: Seq<char>) -> (a: int)
    ensures
        0 <= a <= t.len(),
        trimmed_front(t) == t.skip(a),
        a < t.len() ==> !is_white(t[a]),
        forall|i: int| 0 <= i < a ==> is_white(#[trigger] t[i]),
    decreases t.len(),
{
    if t.len() > 0 && is_white(t[0]) {
        let rest = t.drop_first();
        let a = front_trimmed(rest);
        assert(t.skip(a + 1) =~= rest.skip(a));
        assert forall|i: int| 0 <= i < a + 1 implies is_white(#[trigger] t[i]) by {
            if i > 0 {
                assert(rest[i - 1] == t[i]);
            }
        }
        a + 1
    } else {
        assert(t.skip(0) =~= t);
        0
    }
}

proof fn back_trimmed(t: Seq<char>) -> (n: int)
    ensures
        0 <= n <= t.len(),
        trimmed_back(t) == t.take(n),
        n > 0 ==> !is_white(t[n - 1]),
        forall|i: int| n <= i < t.len() ==> is_white(#[trigger] t[i]),
    decreases t.len(),
{
    if t.len() > 0 && is_white(t.last()) {
        let rest = t.drop_last();
        let n = back_trimmed(rest);
        assert(t.take(n) =~= rest.take(n));
        assert forall|i: int| n <= i < t.len() implies is_white(#[trigger] t[i]) by {
            if i < t.len() - 1 {
                assert(rest[i] == t[i]);
            }
        }
        n
    } else {
        assert(t.take(t.len() as int) =~= t);
        t.len() as int
    }
}

/// Whether two texts are the same.
pub fn same_text(a: &str, b: &str) -> (r: bool)
    ensures
        r == (a@ == b@),
{
    proof {
        vstd::utf8::encode_utf8_decode_utf8(a@);
        vstd::utf8::encode_utf8_decode_utf8(b@);
    }
    let x = a.as_bytes();
    let y = b.as_bytes();
    if x.len() != y.len() {
        return false;
    }
    let mut i: usize = 0;
    while i < x.len()
        invariant
            i <= x.len(),
            x.len() == y.len(),
            x@ == vstd::utf8::encode_utf8(a@),
            y@ == vstd::utf8::encode_utf8(b@),
            forall|j: int| 0 <= j < i ==> x@[j] == y@[j],
        decreases x.len() - i,
    {
        if x[i] != y[i] {
            return false;
        }
        i += 1;
    }
    assert(x@ =~= y@);
    true
}

/// Whether a character is white space.
fn white(c: char) -> (r: bool)
    ensures
        r == is_white(c),
{
    let n: u32 = c as u32;
    (0x9 <= n && n <= 0xd) || n == 0x20 || n == 0x85 || n == 0xa0 || n == 0x1680 || (0x2000 <= n
        && n <= 0x200a) || n == 0x2028 || n == 0x2029 || n == 0x202f || n == 0x205f || n == 0x3000
}

/// A text without the white space at its ends.
pub fn trim(t: &str) -> (r: String)
    ensures
        r@ == trimmed(t@),
{
    let chars = chars_of(t);
    let mut a: usize = 0;
    assert(t@.skip(0) =~= t@);
    while a < chars.len() && white(chars[a])
        invariant
            chars@ == t@,
            a <= chars.len(),
            trimmed_front(t@) == trimmed_front(t@.skip(a as int)),
        decreases chars.len() - a,
    {
        assert(t@.skip(a as int).drop_first() =~= t@.skip(a + 1));
        a += 1;
    }
    let ghost f = t@.skip(a as int);
    assert(trimmed_front(t@) == f);
    let mut b: usize = chars.len();
    assert(f.take(f.len() as int) =~= f);
    while b > a && white(chars[b - 1])
        invariant
            chars@ == t@,
            a <= b <= chars.len(),
            f == t@.skip(a as int),
            trimmed_back(f) == trimmed_back(f.take(b - a)),
        decreases b,
    {
        assert(f.take(b - a).drop_last() =~= f.take(b - a - 1));
        b -= 1;
    }
    let part = vstd::slice::slice_subrange(chars.as_slice(), a, b);
    assert(part@ =~= f.take(b - a));
    text_of(part)
}

/// Adds `n` spaces to a text.
pub fn push_spaces(s: &mut String, n: usize)
    ensures
        final(s)@ == old(s)@ + spaces(n as int),
{
    let mut i: usize = 0;
    assert(s@ =~= old(s)@ + spaces(0));
    while i < n
        invariant
            i <= n,
            s@ == old(s)@ + spaces(i as int),
        decreases n - i,
    {
        s.push(' ');
        i += 1;
        assert(s@ =~= old(s)@ + spaces(i as int));
    }
}

/// The number of characters in a text.
pub fn char_count(t: &str) -> (n: usize)
    ensures
        n == t@.len(),
{
    chars_of(t).len()
}

/// The number of bytes that a text takes.
pub fn byte_count(t: &str) -> (n: usize)
    ensures
        n == byte_len(t@),
{
    t.as_bytes().len()
}

/// Adds a text filled up with spaces to `width` characters.
pub fn push_padded(s: &mut String, t: &str, width: usize)
    ensures
        final(s)@ == old(s)@ + padded(t@, width as nat),
{
    let n: usize = char_count(t);
    let ghost start = s@;
    s.append(t);
    if n < width {
        push_spaces(s, width - n);
    }
    assert(s@ =~= start + padded(t@, width as nat));
}

/// Adds a text with spaces before it, up to `width` characters.
pub fn push_right_aligned(s: &mut String, t: &str, width: usize)
    ensures
        final(s)@ == old(s)@ + right_aligned(t@, width as nat),
{
    let n: usize = char_count(t);
    let ghost start = s@;
    if n < width {
        push_spaces(s, width - n);
    }
    s.append(t);
    assert(s@ =~= start + right_aligned(t@, width as nat));
}

/// The number that a text stands for.
pub fn parse_number(t: &str) -> (r: Option<usize>)
    ensures
        r == number_of(t@),
{
    let chars = chars_of(t);
    let start: usize = if chars.len() > 0 && chars[0] == '+' {
        1
    } else {
        0
    };
    let ghost digits = t@.skip(start as int);
    assert(t@.skip(0) =~= t@);
    assert(t@.len() > 0 ==> t@.skip(1) =~= t@.drop_first());
    if start == chars.len() {
        return None;
    }
    let mut v: usize = 0;
    let mut i: usize = start;
    assert(digits.take(0) =~= Seq::empty());
    while i < chars.len()
        invariant
            chars@ == t@,
            start <= i <= chars.len(),
            digits == t@.skip(start as int),
            number_of(t@) == within_machine(digits_value(digits)),
            digits_value(digits.take(i - start)) == Some(v as nat),
        decreases chars.len() - i,
    {
        let c: char = chars[i];
        let ghost n = i - start;
        assert(digits.take(n + 1).drop_last() =~= digits.take(n));
        assert(digits.take(n + 1).last() == c);
        proof {
            value_grows(digits, n + 1);
        }
        if !('0' <= c && c <= '9') {
            return None;
        }
        let d: usize = (c as u32 - '0' as u32) as usize;
        match v.checked_mul(10) {
            None => {
                return None;
            },
            Some(tens) => {
                match tens.checked_add(d) {
                    None => {
                        return None;
                    },
                    Some(sum) => {
                        v = sum;
                    },
                }
            },
        }
        i += 1;
    }
    assert(digits.take(digits.len() as int) =~= digits);
    Some(v)
}

/// More digits make no smaller number, and what is no number at first is none
/// with more.
proof fn value_grows(t: Seq<char>, n: int)
    requires
        0 <= n <= t.len(),
    ensures
        digits_value(t.take(n)) is None ==> digits_value(t) is None,
        digits_value(t.take(n)) is Some && digits_value(t) is Some ==> digits_value(t.take(n))->0
            <= digits_value(t)->0,
    decreases t.len(),
{
    if n < t.len() {
        let shorter = t.drop_last();
        assert(shorter.take(n) =~= t.take(n));
        value_grows(shorter, n);
    } else {
        assert(t.take(n) =~= t);
    }
}

/// Whether a text ends with another.
pub fn ends_with(t: &str, s: &str) -> (r: bool)
    ensures
        r == has_suffix(t@, s@),
{
    let a = chars_of(t);
    let b = chars_of(s);
    if a.len() < b.len() {
        return false;
    }
    let from: usize = a.len() - b.len();
    let mut i: usize = 0;
    while i < b.len()
        invariant
            a@ == t@,
            b@ == s@,
            from + b.len() == a.len(),
            i <= b.len(),
            forall|j: int| 0 <= j < i ==> t@[from + j] == s@[j],
        decreases b.len() - i,
    {
        if a[from + i] != b[i] {
            assert(t@.skip(from as int)[i as int] != s@[i as int]);
            return false;
        }
        i += 1;
    }
    assert(t@.skip(from as int) =~= s@);
    true
}

/// Whether a text starts with another.
pub fn starts_with(t: &str, s: &str) -> (r: bool)
    ensures
        r == has_prefix(t@, s@),
{
    let a = chars_of(t);
    let b = chars_of(s);
    if a.len() < b.len() {
        return false;
    }
    let mut i: usize = 0;
    while i < b.len()
        invariant
            a@ == t@,
            b@ == s@,
            b.len() <= a.len(),
            i <= b.len(),
            forall|j: int| 0 <= j < i ==> t@[j] == s@[j],
        decreases b.len() - i,
    {
        if a[i] != b[i] {
            assert(t@.take(b@.len() as int)[i as int] != s@[i as int]);
            return false;
        }
        i += 1;
    }
    assert(t@.take(b@.len() as int) =~= s@);
    true
}

/// Whether two characters are the same but for their case.
fn same_letter(a: char, b: char) -> (r: bool)
    ensures
        r == (small(a) == small(b)),
{
    let x: u32 = if 'A' <= a && a <= 'Z' {
        a as u32 + 32
    } else {
        a as u32
    };
    let y: u32 = if 'A' <= b && b <= 'Z' {
        b as u32 + 32
    } else {
        b as u32
    };
    x == y
}

/// Whether two texts are the same but for the case of letters of the basic
/// alphabet.
pub fn is_same_letters(a: &str, b: &str) -> (r: bool)
    ensures
        r == same_letters(a@, b@),
{
    let x = chars_of(a);
    let y = chars_of(b);
    let ghost xs = a@.map_values(|c: char| small(c));
    let ghost ys = b@.map_values(|c: char| small(c));
    if x.len() != y.len() {
        assert(xs.len() != ys.len());
        return false;
    }
    let mut i: usize = 0;
    while i < x.len()
        invariant
            x@ == a@,
            y@ == b@,
            x.len() == y.len(),
            xs == a@.map_values(|c: char| small(c)),
            ys == b@.map_values(|c: char| small(c)),
            i <= x.len(),
            forall|j: int| 0 <= j < i ==> xs[j] == ys[j],
        decreases x.len() - i,
    {
        if !same_letter(x[i], y[i]) {
            assert(xs[i as int] != ys[i as int]);
            return false;
        }
        i += 1;
    }
    assert(xs =~= ys);
    true
}

/// Whether a text is in a list.
pub fn listed(list: &Vec<&str>, t: &str) -> (r: bool)
    ensures
        r == slices(list@).contains(t@),
{
    let mut i: usize = 0;
    while i < list.len()
        invariant
            i <= list.len(),
            forall|j: int| 0 <= j < i ==> slices(list@)[j] != t@,
        decreases list.len() - i,
    {
        if same_text(list[i], t) {
            assert(slices(list@)[i as int] == t@);
            return true;
        }
        i += 1;
    }
    false
}

/// Texts one after another, with `sep` between them.
pub fn join(parts: &Vec<&str>, sep: &str) -> (r: String)
    ensures
        r@ == joined(slices(parts@), sep@),
{
    let mut out = String::new();
    let mut i: usize = 0;
    let ghost all = slices(parts@);
    while i < parts.len()
        invariant
            i <= parts.len(),
            all == slices(parts@),
            out@ == joined(all.take(i as int), sep@),
        decreases parts.len() - i,
    {
        assert(all.take(i + 1).drop_last() =~= all.take(i as int));
        if i > 0 {
            out.append(sep);
        }
        out.append(parts[i]);
        assert(out@ =~= joined(all.take(i + 1), sep@));
        i += 1;
    }
    assert(all.take(all.len() as int) =~= all);
    out
}

/// Texts one after another, with `sep` between them.
pub fn join_strings(parts: &Vec<String>, sep: &str) -> (r: String)
    ensures
        r@ == joined(texts(parts@), sep@),
{
    let mut out = String::new();
    let mut i: usize = 0;
    let ghost all = texts(parts@);
    while i < parts.len()
        invariant
            i <= parts.len(),
            all == texts(parts@),
            out@ == joined(all.take(i as int), sep@),
        decreases parts.len() - i,
    {
        assert(all.take(i + 1).drop_last() =~= all.take(i as int));
        if i > 0 {
            out.append(sep);
        }
        out.append(parts[i].as_str());
        assert(out@ =~= joined(all.take(i + 1), sep@));
        i += 1;
    }
    assert(all.take(all.len() as int) =~= all);
    out
}

/// The decimal texts of numbers, with a comma and a space between them.
pub fn join_decimals(v: &Vec<u64>) -> (r: String)
    ensures
        r@ == joined(decimals(v@), ", "@),
{
    let mut out = String::new();
    let mut i: usize = 0;
    let ghost all = decimals(v@);
    while i < v.len()
        invariant
            i <= v.len(),
            all == decimals(v@),
            out@ == joined(all.take(i as int), ", "@),
        decreases v.len() - i,
    {
        assert(all.take(i + 1).drop_last() =~= all.take(i as int));
        if i > 0 {
            out.append(", ");
        }
        push_decimal(&mut out, v[i]);
        assert(out@ =~= joined(all.take(i + 1), ", "@));
        i += 1;
    }
    assert(all.take(all.len() as int) =~= all);
    out
}

/// The character for a digit below ten.
pub fn digit_char(d: u8) -> (c: char)
    requires
        d < 10,
    ensures
        c == digit(d as nat),
{
    (48u8 + d) as char
}

/// Appends `n` in decimal notation.
pub fn push_decimal(s: &mut String, n: u64)
    ensures
        final(s)@ == old(s)@ + decimal_text(n as nat),
    decreases n,
{
    if n >= 10 {
        push_decimal(s, n / 10);
    }
    s.push(digit_char((n % 10) as u8));
    proof {
        if n >= 10 {
            assert(s@ =~= old(s)@ + decimal_text((n / 10) as nat).push(digit((n % 10) as nat)));
        } else {
            assert(s@ =~= old(s)@ + seq![digit(n as nat)]);
        }
    }
}

/// `n` in decimal notation.
pub fn decimal(n: u64) -> (r: String)
    ensures
        r@ == decimal_text(n as nat),
{
    let mut s = String::new();
    push_decimal(&mut s, n);
    assert(s@ =~= decimal_text(n as nat));
    s
}

/// `n` in decimal notation.
pub fn decimal_usize(n: usize) -> (r: String)
    ensures
        r@ == decimal_text(n as nat),
{
    decimal(n as u64)
}

/// The characters of a text.
pub fn chars_of(s: &str) -> (r: Vec<char>)
    ensures
        r@ == s@,
{
    let mut v: Vec<char> = Vec::new();
    for c in it: s.chars()
        invariant
            it.seq() == s@,
            v@ == it.seq().take(it.index()),
    {
        v.push(c);
        assert(it.seq().take(it.index() + 1) =~= it.seq().take(it.index()).push(c));
    }
    assert(s@.take(s@.len() as int) =~= s@);
    v
}

/// The text made of the given characters.
pub fn text_of(v: &[char]) -> (r: String)
    ensures
        r@ == v@,
{
    let mut s = String::new();
    let mut i: usize = 0;
    while i < v.len()
        invariant
            i <= v.len(),
            s@ == v@.take(i as int),
        decreases v.len() - i,
    {
        s.push(v[i]);
        i += 1;
        assert(v@.take(i as int) =~= v@.take(i - 1).push(v[i - 1]));
    }
    assert(v@.take(v@.len() as int) =~= v@);
    s
}

/// Whether `f` stands in `t` at position `i`.
pub fn found_at(t: &[char], f: &[char], i: usize) -> (r: bool)
    ensures
        r == occurs_at(t@, f@, i as int),
{
    if i > t.len() || f.len() > t.len() - i {
        return false;
    }
    let mut k: usize = 0;
    while k < f.len()
        invariant
            k <= f.len(),
            i + f.len() <= t.len(),
            forall|j: int| 0 <= j < k ==> t@[i + j] == f@[j],
        decreases f.len() - k,
    {
        if t[i + k] != f[k] {
            assert(t@.subrange(i as int, i + f.len())[k as int] != f@[k as int]);
            return false;
        }
        k += 1;
    }
    assert(t@.subrange(i as int, i + f.len()) =~= f@);
    true
}

/// `text` with every occurrence of `from` replaced by `to`.
pub fn replace_all(text: &str, from: &str, to: &str) -> (res: String)
    requires
        from@.len() > 0,
    ensures
        res@ == replaced(text@, from@, to@),
{
    let t = chars_of(text);
    let f = chars_of(from);
    let mut out = String::new();
    let mut i: usize = 0;
    assert(t@.skip(0) =~= t@);
    assert(out@ + replaced(t@.skip(0), f@, to@) =~= replaced(t@, f@, to@));
    while i < t.len()
        invariant
            i <= t.len(),
            f@.len() > 0,
            f@ == from@,
            out@ + replaced(t@.skip(i as int), f@, to@) == replaced(t@, f@, to@),
        decreases t.len() - i,
    {
        let ghost rest = t@.skip(i as int);
        let ghost before = out@;
        if found_at(&t, &f, i) {
            assert(rest.subrange(0, f@.len() as int) =~= t@.subrange(i as int, i + f@.len()));
            assert(occurs_at(rest, f@, 0));
            out.append(to);
            i += f.len();
            assert(rest.skip(f@.len() as int) =~= t@.skip(i as int));
            assert(before + (to@ + replaced(t@.skip(i as int), f@, to@)) =~= out@ + replaced(
                t@.skip(i as int),
                f@,
                to@,
            ));
        } else {
            assert(!occurs_at(rest, f@, 0)) by {
                if occurs_at(rest, f@, 0) {
                    assert(rest.subrange(0, f@.len() as int) =~= t@.subrange(
                        i as int,
                        i + f@.len(),
                    ));
                }
            }
            out.push(t[i]);
            i += 1;
            assert(rest.skip(1) =~= t@.skip(i as int));
            assert(before + (seq![t@[i - 1]] + replaced(t@.skip(i as int), f@, to@)) =~= out@
                + replaced(t@.skip(i as int), f@, to@));
        }
    }
    assert(t@.skip(i as int).len() == 0);
    assert(out@ + replaced(t@.skip(i as int), f@, to@) =~= out@);
    out
}

/// The template line once for each number from `lo` up to but not including `hi`.
pub fn fill_lines(template: &str, lo: usize, hi: usize) -> (res: String)
    ensures
        res@ == numbered_lines(template@, lo as nat, hi as nat),
{
    proof {
        reveal_strlit("{i}");
    }
    let mut out = String::new();
    let mut i: usize = lo;
    while i < hi
        invariant
            "{i}"@.len() > 0,
            lo <= hi ==> i <= hi,
            lo <= i,
            hi < lo ==> i == lo,
            out@ == numbered_lines(template@, lo as nat, i as nat),
        decreases hi - i,
    {
        let number = decimal_usize(i);
        let line = replace_all(template, "{i}", number.as_str());
        out.append(line.as_str());
        i += 1;
    }
    out
}

/// The template line for each cell of a grid, row by row.
pub fn fill_grid(template: &str, rows: usize, width: usize) -> (res: String)
    requires
        rows * width <= usize::MAX,
    ensures
        res@ == grid_lines(template@, width as nat, rows as nat),
{
    proof {
        reveal_strlit("{i}");
        reveal_strlit("{j}");
        reveal_strlit("{idx}");
    }
    let mut out = String::new();
    let mut i: usize = 0;
    while i < rows
        invariant
            i <= rows,
            rows * width <= usize::MAX,
            "{i}"@.len() > 0,
            "{j}"@.len() > 0,
            "{idx}"@.len() > 0,
            out@ == grid_lines(template@, width as nat, i as nat),
        decreases rows - i,
    {
        let mut row = String::new();
        let mut j: usize = 0;
        while j < width
            invariant
                i < rows,
                j <= width,
                rows * width <= usize::MAX,
                "{i}"@.len() > 0,
                "{j}"@.len() > 0,
                "{idx}"@.len() > 0,
                row@ == row_cells(template@, width as nat, i as nat, j as nat),
            decreases width - j,
        {
            assert(i * width + j < rows * width) by (nonlinear_arith)
                requires
                    i < rows,
                    j < width,
            ;
            assert(0 <= i * width <= i * width + j) by (nonlinear_arith)
                requires
                    0 <= i,
                    0 <= j,
                    0 <= width,
            ;
            let idx: usize = i * width + j;
            let row_number = decimal_usize(i);
            let column = decimal_usize(j);
            let index = decimal_usize(idx);
            let with_row = replace_all(template, "{i}", row_number.as_str());
            let with_column = replace_all(with_row.as_str(), "{j}", column.as_str());
            let cell = replace_all(with_column.as_str(), "{idx}", index.as_str());
            row.append(cell.as_str());
            j += 1;
        }
        out.append(row.as_str());
        i += 1;
    }
    out
}

} // verus!
