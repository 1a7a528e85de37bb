//! Cutting text into pieces before merging, and tidying it after decoding.

use vstd::prelude::*;

use crate::text;
use crate::text::chars_of;
use crate::text::replace_all;
use crate::text::text_of;

verus! {

/// The length of the longest prefix that is all newlines or holds none.
pub open spec fn run_length(t: Seq<char>) -> nat
    decreases t.len(),
{
    if t.len() <= 1 {
        t.len()
    } else if (t[0] == '\n') == (t[1] == '\n') {
        1 + run_length(t.skip(1))
    } else {
        1
    }
}

/// A text cut into runs of newlines and runs of other characters.
pub open spec fn newline_runs(t: Seq<char>) -> Seq<Seq<char>>
    decreases t.len(),
{
    if t.len() == 0 {
        Seq::empty()
    } else {
        let n = run_length(t) as int;
        proof {
            run_length_in_range(t);
        }
        seq![t.take(n)] + newline_runs(t.skip(n))
    }
}

/// The longest prefix of one sort is not empty.
pub proof fn run_length_in_range(t: Seq<char>)
    requires
        t.len() > 0,
    ensures
        1 <= run_length(t) <= t.len(),
    decreases t.len(),
{
    if t.len() > 1 {
        run_length_in_range(t.skip(1));
    }
}

/// The longest prefix of one sort ends where the sort changes.
proof fn run_length_ends(t: Seq<char>, n: int)
    requires
        1 <= n <= t.len(),
        forall|j: int| 0 <= j < n ==> (#[trigger] t[j] == '\n') == (t[0] == '\n'),
        n < t.len() ==> (t[n] == '\n') != (t[0] == '\n'),
    ensures
        run_length(t) == n,
    decreases t.len(),
{
    if t.len() > 1 {
        if n == 1 {
        } else {
            let rest = t.skip(1);
            assert(rest[0] == t[1]);
            assert forall|j: int| 0 <= j < n - 1 implies (#[trigger] rest[j] == '\n') == (rest[0] == '\n') by {
                assert(rest[j] == t[j + 1]);
            }
            run_length_ends(rest, n - 1);
        }
    }
}

/// The runs of a text, put together, are the text.
pub proof fn newline_runs_cover_the_text(t: Seq<char>)
    ensures
        newline_runs(t).flatten() == t,
    decreases t.len(),
{
    if t.len() > 0 {
        run_length_in_range(t);
        let n = run_length(t) as int;
        newline_runs_cover_the_text(t.skip(n));
        assert(newline_runs(t).drop_first() =~= newline_runs(t.skip(n)));
        assert(t.take(n) + t.skip(n) =~= t);
    }
}

/// Cuts a text into runs of newlines and runs of other characters.
pub fn split_newline_runs(text: &str) -> (r: Vec<String>)
    ensures
        text::texts(r@) == newline_runs(text@),
{
    let t = chars_of(text);
    let mut out: Vec<String> = Vec::new();
    let mut start: usize = 0;
    assert(t@.skip(0) =~= t@);
    assert(text::texts(out@) + newline_runs(t@.skip(0)) =~= newline_runs(t@));
    while start < t.len()
        invariant
            start <= t.len(),
            t@ == text@,
            text::texts(out@) + newline_runs(t@.skip(start as int)) == newline_runs(t@),
        decreases t.len() - start,
    {
        let in_newline_run = t[start] == '\n';
        let mut end: usize = start + 1;
        while end < t.len() && (t[end] == '\n') == in_newline_run
            invariant
                start < end <= t.len(),
                in_newline_run == (t@[start as int] == '\n'),
                forall|j: int| start <= j < end ==> (#[trigger] t@[j] == '\n') == in_newline_run,
            decreases t.len() - end,
        {
            end += 1;
        }
        let ghost rest = t@.skip(start as int);
        let ghost before = text::texts(out@);
        proof {
            assert forall|j: int| 0 <= j < end - start implies (#[trigger] rest[j] == '\n') == (rest[0]
                == '\n') by {
                assert(rest[j] == t@[start + j]);
            }
            run_length_ends(rest, end - start);
        }
        let run = text_of(vstd::slice::slice_subrange(t.as_slice(), start, end));
        assert(run@ =~= rest.take(end - start));
        assert(rest.skip(end - start) =~= t@.skip(end as int));
        out.push(run);
        assert(text::texts(out@) =~= before.push(run@));
        assert(before + (seq![run@] + newline_runs(t@.skip(end as int))) =~= text::texts(out@)
            + newline_runs(t@.skip(end as int)));
        start = end;
    }
    assert(text::texts(out@) + newline_runs(t@.skip(start as int)) =~= text::texts(out@));
    out
}

/// Whether the space at `i` stands before a closing punctuation mark.
pub open spec fn space_before_mark(t: Seq<char>, i: int) -> bool {
    t[i] == ' ' && i + 1 < t.len() && (t[i + 1] == '?' || t[i + 1] == '!' || t[i + 1] == '.'
        || t[i + 1] == ',')
}

/// Whether the space at `i` stands before one of the contractions `'s`, `'m`,
/// `'re` and `'ve`.
pub open spec fn space_before_contraction(t: Seq<char>, i: int) -> bool {
    &&& t[i] == ' '
    &&& i + 2 < t.len()
    &&& t[i + 1] == '\''
    &&& (t[i + 2] == 's' || t[i + 2] == 'm' || (i + 3 < t.len() && (t[i + 2] == 'r' || t[i + 2]
        == 'v') && t[i + 3] == 'e'))
}

/// The characters from `i` on, without those spaces that stand before a mark (or,
/// for `contractions`, before a contraction).
pub open spec fn without_spaces(t: Seq<char>, contractions: bool, i: int) -> Seq<char>
    decreases t.len() - i,
{
    if i < 0 || i >= t.len() {
        Seq::empty()
    } else if if contractions {
        space_before_contraction(t, i)
    } else {
        space_before_mark(t, i)
    } {
        without_spaces(t, contractions, i + 1)
    } else {
        seq![t[i]] + without_spaces(t, contractions, i + 1)
    }
}

/// A decoded text with its spacing tidied: no space before `?`, `!`, `.` and `,`;
/// an apostrophe between two spaces without them; no space before the
/// contractions.
pub open spec fn tidied(t: Seq<char>) -> Seq<char> {
    without_spaces(
        text::replaced(without_spaces(t, false, 0), " ' "@, "'"@),
        true,
        0,
    )
}

fn drop_spaces(t: &Vec<char>, contractions: bool) -> (r: String)
    ensures
        r@ == without_spaces(t@, contractions, 0),
{
    let mut out = String::new();
    let mut i: usize = 0;
    assert(out@ + without_spaces(t@, contractions, 0) =~= without_spaces(t@, contractions, 0));
    while i < t.len()
        invariant
            i <= t.len(),
            out@ + without_spaces(t@, contractions, i as int) == without_spaces(
                t@,
                contractions,
                0,
            ),
        decreases t.len() - i,
    {
        let n = t.len();
        let dropped = if contractions {
            t[i] == ' ' && n - i > 2 && t[i + 1] == '\'' && (t[i + 2] == 's' || t[i + 2] == 'm' || (
            n - i > 3 && (t[i + 2] == 'r' || t[i + 2] == 'v') && t[i + 3] == 'e'))
        } else {
            t[i] == ' ' && n - i > 1 && (t[i + 1] == '?' || t[i + 1] == '!' || t[i + 1] == '.'
                || t[i + 1] == ',')
        };
        let ghost before = out@;
        if !dropped {
            out.push(t[i]);
            assert(before + (seq![t@[i as int]] + without_spaces(t@, contractions, i + 1))
                =~= out@ + without_spaces(t@, contractions, i + 1));
        }
        i += 1;
    }
    assert(out@ + without_spaces(t@, contractions, i as int) =~= out@);
    out
}

/// Tidies the spacing of a decoded text.
pub fn clean_spaces_postprocess(text: &str) -> (r: String)
    ensures
        r@ == tidied(text@),
{
    proof {
        reveal_strlit(" ' ");
    }
    let without_marks = drop_spaces(&chars_of(text), false);
    let without_lone = replace_all(without_marks.as_str(), " ' ", "'");
    drop_spaces(&chars_of(without_lone.as_str()), true)
}

} // verus!
