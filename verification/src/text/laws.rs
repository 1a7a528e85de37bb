//! What the operations on texts do, told by the texts that go in and come out.

use vstd::prelude::*;

use crate::text;
use crate::text::{
    cell_text, decimal_text, digits_value, grid_lines, has_prefix, has_suffix, is_white, joined,
    numbered, numbered_lines, number_of, occurs_at, padded, replaced, right_aligned, row_cells,
    same_letters, small, widest,
};

verus! {

/// A number is written as its digits, the highest first: ten times a number and a digit more
/// is the text of the number and that digit behind it.
pub proof fn decimals_are_written_digit_by_digit(n: nat, d: nat)
    requires
        d < 10,
    ensures
        decimal_text(d) == seq!["0123456789"@[d as int]],
        n > 0 ==> decimal_text(10 * n + d) == decimal_text(n).push("0123456789"@[d as int]),
{
    reveal_strlit("0123456789");
    assert((10 * n + d) / 10 == n && (10 * n + d) % 10 == d);
}

/// What is replaced first is what stands first: up to there a text stays as it is, and from
/// behind it the replacing goes on. Where nothing is found nothing is replaced.
pub proof fn replacing_goes_from_left(a: Seq<char>, f: Seq<char>, b: Seq<char>, r: Seq<char>)
    requires
        f.len() > 0,
    ensures
        (forall|i: int| 0 <= i < a.len() ==> !occurs_at(a + f + b, f, i)) ==> replaced(
            a + f + b,
            f,
            r,
        ) == a + r + replaced(b, f, r),
        (forall|i: int| !occurs_at(a, f, i)) ==> replaced(a, f, r) == a,
{
    if forall|i: int| 0 <= i < a.len() ==> !occurs_at(a + f + b, f, i) {
        first_is_replaced(a, f, b, r);
    }
    if forall|i: int| !occurs_at(a, f, i) {
        nothing_is_replaced(a, f, r);
    }
}

proof fn first_is_replaced(a: Seq<char>, f: Seq<char>, b: Seq<char>, r: Seq<char>)
    requires
        f.len() > 0,
        forall|i: int| 0 <= i < a.len() ==> !occurs_at(a + f + b, f, i),
    ensures
        replaced(a + f + b, f, r) == a + r + replaced(b, f, r),
    decreases a.len(),
{
    let t = a + f + b;
    if a.len() == 0 {
        assert(t.subrange(0, f.len() as int) =~= f);
        assert(t.skip(f.len() as int) =~= b);
        assert(a + r + replaced(b, f, r) =~= r + replaced(b, f, r));
    } else {
        let rest = a.drop_first();
        assert(!occurs_at(t, f, 0));
        assert(t.skip(1) =~= rest + f + b);
        assert forall|i: int| 0 <= i < rest.len() implies !occurs_at(rest + f + b, f, i) by {
            assert((rest + f + b).subrange(i, i + f.len()) =~= t.subrange(i + 1, i + 1 + f.len()));
            assert(!occurs_at(t, f, i + 1));
        }
        first_is_replaced(rest, f, b, r);
        assert(seq![t[0]] + (rest + r + replaced(b, f, r)) =~= a + r + replaced(b, f, r));
    }
}

proof fn nothing_is_replaced(t: Seq<char>, f: Seq<char>, r: Seq<char>)
    requires
        f.len() > 0,
        forall|i: int| !occurs_at(t, f, i),
    ensures
        replaced(t, f, r) == t,
    decreases t.len(),
{
    if t.len() > 0 {
        let rest = t.skip(1);
        assert(!occurs_at(t, f, 0));
        assert forall|i: int| !occurs_at(rest, f, i) by {
            if occurs_at(rest, f, i) {
                assert(rest.subrange(i, i + f.len()) =~= t.subrange(i + 1, i + 1 + f.len()));
                assert(occurs_at(t, f, i + 1));
            }
        }
        nothing_is_replaced(rest, f, r);
        assert(seq![t[0]] + rest =~= t);
    }
}

/// Whether a text holds no opening brace.
pub open spec fn has_no_brace(t: Seq<char>) -> bool {
    forall|i: int| 0 <= i < t.len() ==> #[trigger] t[i] != '{'
}

/// Where a text starts with a brace, another stands only where a brace is.
proof fn stands_at_a_brace(t: Seq<char>, f: Seq<char>, i: int)
    requires
        f.len() >= 3,
        f[0] == '{',
        occurs_at(t, f, i),
    ensures
        t[i] == '{',
        t[i + 1] == f[1],
        t[i + 2] == f[2],
{
    let s = t.subrange(i, i + f.len());
    assert(s[0] == t[i] && s[1] == t[i + 1] && s[2] == t[i + 2]);
}

/// Decimal digits are no braces.
proof fn digits_have_no_brace(n: nat)
    ensures
        has_no_brace(decimal_text(n)),
{
    text::decimal_reads_back(n);
}

/// A template says with `{i}`, `{j}` and `{idx}` where the row of a cell, its column and its
/// place in a grid that is filled row by row are to stand, and is written as it is besides.
pub proof fn templates_are_filled_in(
    a: Seq<char>,
    b: Seq<char>,
    c: Seq<char>,
    d: Seq<char>,
    width: nat,
    i: nat,
    j: nat,
)
    requires
        has_no_brace(a),
        has_no_brace(b),
        has_no_brace(c),
        has_no_brace(d),
    ensures
        numbered(a + "{i}"@ + b, i) == a + decimal_text(i) + b,
        cell_text(a + "{i}"@ + (b + "{j}"@ + (c + "{idx}"@ + d)), width, i, j) == a + decimal_text(
            i,
        ) + b + decimal_text(j) + c + decimal_text(i * width + j) + d,
{
    let (fi, fj, fx) = ("{i}"@, "{j}"@, "{idx}"@);
    reveal_strlit("{i}");
    reveal_strlit("{j}");
    reveal_strlit("{idx}");
    let (di, dj, dx) = (decimal_text(i), decimal_text(j), decimal_text(i * width + j));
    digits_have_no_brace(i);
    digits_have_no_brace(j);
    digits_have_no_brace(i * width + j);
    replaced_behind_no_brace(a, fi, b, di);
    assert(replaced(b, fi, di) == b) by {
        assert forall|k: int| !occurs_at(b, fi, k) by {
            if occurs_at(b, fi, k) {
                stands_at_a_brace(b, fi, k);
            }
        }
        nothing_is_replaced(b, fi, di);
    }
    let tail = c + fx + d;
    let rest = b + fj + tail;
    replaced_behind_no_brace(a, fi, rest, di);
    assert(replaced(rest, fi, di) == rest) by {
        assert forall|k: int| !occurs_at(rest, fi, k) by {
            if occurs_at(rest, fi, k) {
                stands_at_a_brace(rest, fi, k);
                let n = b.len() as int;
                let m = n + 3 + c.len();
                assert(rest[n] == '{' && rest[n + 1] == 'j');
                assert(rest[m] == '{' && rest[m + 1] == 'i' && rest[m + 2] == 'd');
                if k < n {
                    assert(rest[k] == b[k]);
                } else if k == n + 1 || k == n + 2 {
                    assert(rest[k] == fj[k - n]);
                } else if n + 3 <= k < m {
                    assert(rest[k] == c[k - n - 3]);
                } else if m < k < m + 5 {
                    assert(rest[k] == fx[k - m]);
                } else if k >= m + 5 {
                    assert(rest[k] == d[k - m - 5]);
                }
            }
        }
        nothing_is_replaced(rest, fi, di);
    }
    let one = a + di + b;
    assert(a + di + rest =~= one + fj + tail);
    replaced_behind_no_brace(one, fj, tail, dj);
    assert(replaced(tail, fj, dj) == tail) by {
        assert forall|k: int| !occurs_at(tail, fj, k) by {
            if occurs_at(tail, fj, k) {
                stands_at_a_brace(tail, fj, k);
                let m = c.len() as int;
                assert(tail[m] == '{' && tail[m + 1] == 'i');
                if k < m {
                    assert(tail[k] == c[k]);
                } else if m < k < m + 5 {
                    assert(tail[k] == fx[k - m]);
                } else if k >= m + 5 {
                    assert(tail[k] == d[k - m - 5]);
                }
            }
        }
        nothing_is_replaced(tail, fj, dj);
    }
    let two = one + dj + c;
    assert(one + dj + tail =~= two + fx + d);
    replaced_behind_no_brace(two, fx, d, dx);
    assert(replaced(d, fx, dx) == d) by {
        assert forall|k: int| !occurs_at(d, fx, k) by {
            if occurs_at(d, fx, k) {
                stands_at_a_brace(d, fx, k);
            }
        }
        nothing_is_replaced(d, fx, dx);
    }
    assert(two + dx + d =~= a + di + b + dj + c + dx + d);
}

proof fn replaced_behind_no_brace(a: Seq<char>, f: Seq<char>, b: Seq<char>, r: Seq<char>)
    requires
        f.len() >= 3,
        f[0] == '{',
        has_no_brace(a),
    ensures
        replaced(a + f + b, f, r) == a + r + replaced(b, f, r),
{
    let t = a + f + b;
    assert forall|i: int| 0 <= i < a.len() implies !occurs_at(t, f, i) by {
        if occurs_at(t, f, i) {
            stands_at_a_brace(t, f, i);
            assert(t[i] == a[i]);
        }
    }
    first_is_replaced(a, f, b, r);
}

/// Lines are numbered from the first number on, up to but not with the last; the cells of a
/// grid go row by row, and those of a row column by column.
pub proof fn lines_and_cells_go_in_order(t: Seq<char>, lo: nat, hi: nat, width: nat, i: nat, j: nat)
    ensures
        lo < hi ==> numbered_lines(t, lo, hi) == numbered(t, lo) + numbered_lines(t, lo + 1, hi),
        numbered_lines(t, lo, lo) == Seq::<char>::empty(),
        row_cells(t, width, i, 0) == Seq::<char>::empty(),
        row_cells(t, width, i, j + 1) == row_cells(t, width, i, j) + cell_text(t, width, i, j),
        grid_lines(t, width, 0) == Seq::<char>::empty(),
        grid_lines(t, width, i + 1) == grid_lines(t, width, i) + row_cells(t, width, i, width),
{
    if lo < hi {
        lines_from_the_front(t, lo, hi);
    }
}

proof fn lines_from_the_front(t: Seq<char>, lo: nat, hi: nat)
    requires
        lo < hi,
    ensures
        numbered_lines(t, lo, hi) == numbered(t, lo) + numbered_lines(t, lo + 1, hi),
    decreases hi,
{
    let last = (hi - 1) as nat;
    if lo < last {
        lines_from_the_front(t, lo, last);
        assert(numbered(t, lo) + numbered_lines(t, lo + 1, last) + numbered(t, last) =~= numbered(
            t,
            lo,
        ) + (numbered_lines(t, lo + 1, last) + numbered(t, last)));
    } else {
        assert(numbered_lines(t, lo, last) =~= Seq::empty());
        assert(numbered_lines(t, lo + 1, hi) =~= Seq::empty());
        assert(Seq::empty() + numbered(t, lo) =~= numbered(t, lo) + Seq::empty());
    }
}

/// Joined texts are the first, and then each next one behind a separator.
pub proof fn joining_separates(parts: Seq<Seq<char>>, part: Seq<char>, sep: Seq<char>)
    ensures
        joined(Seq::empty(), sep) == Seq::<char>::empty(),
        joined(seq![part], sep) == part,
        parts.len() > 0 ==> joined(parts.push(part), sep) == joined(parts, sep) + sep + part,
{
    assert(parts.push(part).drop_last() =~= parts);
}

/// White space are the twenty-five characters that are no more than space.
pub proof fn white_space_is_listed(c: char)
    ensures
        is_white(c) <==> ({
            ||| c == '\t'
            ||| c == '\n'
            ||| c == '\u{b}'
            ||| c == '\u{c}'
            ||| c == '\r'
            ||| c == ' '
            ||| c == '\u{85}'
            ||| c == '\u{a0}'
            ||| c == '\u{1680}'
            ||| '\u{2000}' <= c <= '\u{200a}'
            ||| c == '\u{2028}'
            ||| c == '\u{2029}'
            ||| c == '\u{202f}'
            ||| c == '\u{205f}'
            ||| c == '\u{3000}'
        }),
{
}

/// A text that is filled up is as long as it should be, or as it is where it is longer, and
/// has only spaces added: behind it, or before it.
pub proof fn filling_up_adds_spaces(t: Seq<char>, width: nat, i: int)
    ensures
        t.len() >= width ==> padded(t, width) == t && right_aligned(t, width) == t,
        t.len() < width ==> {
            &&& padded(t, width).len() == width
            &&& right_aligned(t, width).len() == width
            &&& padded(t, width).take(t.len() as int) == t
            &&& right_aligned(t, width).skip(width - t.len()) == t
            &&& t.len() <= i < width ==> padded(t, width)[i] == ' '
            &&& 0 <= i < width - t.len() ==> right_aligned(t, width)[i] == ' '
        },
{
    if t.len() >= width {
        assert(padded(t, width) =~= t);
        assert(right_aligned(t, width) =~= t);
    } else {
        assert(padded(t, width).take(t.len() as int) =~= t);
        assert(right_aligned(t, width).skip(width - t.len()) =~= t);
    }
}

/// The widest of some texts is as wide as any of them, and one of them is that wide.
pub proof fn the_widest_is_one_of_them(list: Seq<Seq<char>>)
    ensures
        forall|i: int|
            0 <= i < list.len() ==> vstd::utf8::encode_utf8(#[trigger] list[i]).len() <= widest(
                list,
            ),
        list.len() == 0 ==> widest(list) == 0,
        list.len() > 0 ==> exists|i: int|
            0 <= i < list.len() && vstd::utf8::encode_utf8(#[trigger] list[i]).len() == widest(list),
    decreases list.len(),
{
    if list.len() > 0 {
        let rest = list.drop_last();
        let n = list.len() - 1;
        the_widest_is_one_of_them(rest);
        assert forall|i: int| 0 <= i < list.len() implies vstd::utf8::encode_utf8(
            #[trigger] list[i],
        ).len() <= widest(list) by {
            if i < n {
                assert(rest[i] == list[i]);
            }
        }
        if vstd::utf8::encode_utf8(list[n]).len() == widest(list) {
        } else {
            let i = choose|i: int|
                0 <= i < rest.len() && vstd::utf8::encode_utf8(#[trigger] rest[i]).len() == widest(
                    rest,
                );
            assert(list[i] == rest[i]);
        }
    }
}

/// A number is read digit by digit: one more digit makes ten times as much and the digit. No
/// digit at all is no number, nor is a text with anything but digits in it; one plus sign may
/// stand before them.
pub proof fn numbers_are_read_digit_by_digit(t: Seq<char>, c: char, n: nat)
    requires
        digits_value(t) == Some(n),
    ensures
        digits_value(Seq::empty()) == Some(0nat),
        '0' <= c <= '9' ==> digits_value(t.push(c)) == Some((10 * n + (c as int - '0' as int)) as nat),
        !('0' <= c <= '9') ==> digits_value(t.push(c)) is None,
        number_of(Seq::empty()) is None,
        number_of(seq!['+']) is None,
        t.len() > 0 && n <= usize::MAX ==> number_of(t) == Some(n as usize),
        t.len() > 0 && n <= usize::MAX ==> number_of(seq!['+'] + t) == Some(n as usize),
        n > usize::MAX ==> number_of(t) is None && number_of(seq!['+'] + t) is None,
{
    assert(t.push(c).drop_last() =~= t);
    assert((seq!['+'] + t).drop_first() =~= t);
    assert(seq!['+'].drop_first() =~= Seq::<char>::empty());
    if t.len() > 0 {
        first_is_a_digit(t);
    }
}

proof fn first_is_a_digit(t: Seq<char>)
    requires
        t.len() > 0,
        digits_value(t) is Some,
    ensures
        '0' <= t[0] <= '9',
    decreases t.len(),
{
    if t.len() > 1 {
        first_is_a_digit(t.drop_last());
    }
}

/// A text ends with what stands at its end and starts with what stands at its start, and with
/// nothing else of that length.
pub proof fn texts_start_and_end(a: Seq<char>, s: Seq<char>, t: Seq<char>)
    requires
        t.len() == s.len(),
    ensures
        has_suffix(a + s, s),
        has_prefix(s + a, s),
        has_suffix(a + s, t) ==> s == t,
        has_prefix(s + a, t) ==> s == t,
        a.len() > 0 ==> !has_suffix(s, a + s) && !has_prefix(s, s + a),
{
    assert((a + s).skip(a.len() as int) =~= s);
    assert((s + a).take(s.len() as int) =~= s);
}

/// The letters of the basic alphabet are the same in either case, and no other characters
/// are.
pub proof fn case_is_of_letters_alone(c: char, a: Seq<char>, b: Seq<char>, i: int)
    ensures
        'A' <= c <= 'Z' ==> small(c) as int == c as int + 32 && 'a' <= small(c) <= 'z',
        !('A' <= c <= 'Z') ==> small(c) == c,
        same_letters(a, a),
        same_letters(a, b) ==> a.len() == b.len(),
        same_letters(a, b) && 0 <= i < a.len() ==> a[i] == b[i] || (a[i] as int + 32 == b[i] as int
            && 'A' <= a[i] <= 'Z') || (b[i] as int + 32 == a[i] as int && 'A' <= b[i] <= 'Z'),
{
    if same_letters(a, b) {
        let (x, y) = (a.map_values(|c: char| small(c)), b.map_values(|c: char| small(c)));
        assert(x.len() == y.len());
        if 0 <= i < a.len() {
            assert(x[i] == small(a[i]) && y[i] == small(b[i]));
        }
    }
}

} // verus!
