//! Asking for a configuration: what an answer means, what completes it, and the
//! file that comes of it.

use vstd::prelude::*;

use crate::role::Role;
use crate::text;
use crate::text::{char_count, decimal, is_same_letters, starts_with, trim};

verus! {

/// What `str::to_lowercase` makes of a text.
pub uninterp spec fn lowercase_text(t: Seq<char>) -> Seq<char>;

/// `str::to_lowercase`: the text in lower case, which depends on the text alone.
#[verifier::external_body]
fn lowercase(t: &str) -> (r: String)
    ensures
        r@ == lowercase_text(t@),
{
    t.to_lowercase()
}

/// Whether an answer says yes: `y` or `yes`, in any case, white space aside.
pub open spec fn says_yes(line: Seq<char>) -> bool {
    let t = text::trimmed(line);
    text::same_letters(t, "y"@) || text::same_letters(t, "yes"@)
}

/// Whether an answer says yes.
pub fn is_yes(line: &str) -> (r: bool)
    ensures
        r == says_yes(line@),
        text::trimmed(line@) == "y"@ ==> r,
        text::trimmed(line@) == "yes"@ ==> r,
        r ==> text::trimmed(line@).len() == 1 || text::trimmed(line@).len() == 3,
        r ==> text::small(text::trimmed(line@)[0]) == 'y',
        r && text::trimmed(line@).len() == 3 ==> text::small(text::trimmed(line@)[1]) == 'e'
            && text::small(text::trimmed(line@)[2]) == 's',
{
    let t = trim(line);
    proof {
        reveal_strlit("y");
        reveal_strlit("yes");
        let (one, three) = ("y"@, "yes"@);
        let small_t = t@.map_values(|c: char| text::small(c));
        let small_one = one.map_values(|c: char| text::small(c));
        let small_three = three.map_values(|c: char| text::small(c));
        assert(small_one.len() == 1 && small_one[0] == 'y');
        assert(small_three.len() == 3 && small_three[0] == 'y' && small_three[1] == 'e'
            && small_three[2] == 's');
        assert(small_t.len() == t@.len());
        if t@.len() >= 1 {
            assert(small_t[0] == text::small(t@[0]));
        }
        if t@.len() >= 3 {
            assert(small_t[1] == text::small(t@[1]) && small_t[2] == text::small(t@[2]));
        }
    }
    is_same_letters(t.as_str(), "y") || is_same_letters(t.as_str(), "yes")
}

/// Whether an answer says yes, or nothing at all.
pub fn is_yes_by_default(line: &str) -> (r: bool)
    ensures
        r == (text::trimmed(line@).len() == 0 || says_yes(line@)),
{
    let t = trim(line);
    char_count(t.as_str()) == 0 || is_yes(line)
}

/// The question for a value with its default; with empty brackets where there is
/// none.
pub open spec fn question_text(label: Seq<char>, default: Option<Seq<char>>) -> Seq<char> {
    label + " ["@ + (match default {
        Some(d) => d,
        None => Seq::empty(),
    }) + "]: "@
}

/// The default as a text.
pub open spec fn default_view(default: Option<String>) -> Option<Seq<char>> {
    match default {
        Some(d) => Some(d@),
        None => None,
    }
}

/// The question for a value with its default.
pub fn question(label: &str, default: &Option<String>) -> (r: String)
    ensures
        r@ == question_text(label@, default_view(*default)),
{
    let mut s = label.to_owned();
    s.append(" [");
    if let Some(d) = default {
        s.append(d.as_str());
    }
    s.append("]: ");
    assert(s@ =~= question_text(label@, default_view(*default)));
    s
}

/// The value that an answer gives: what was written, or the default where nothing
/// was.
pub open spec fn value_of(line: Seq<char>, default: Option<Seq<char>>) -> Option<Seq<char>> {
    if text::trimmed(line).len() > 0 {
        Some(text::trimmed(line))
    } else {
        default
    }
}

/// The value that an answer gives; none where nothing was written and there is no
/// default.
pub fn answer_value(line: &str, default: &Option<String>) -> (r: Option<String>)
    ensures
        match r {
            Some(v) => value_of(line@, default_view(*default)) == Some(v@),
            None => value_of(line@, default_view(*default)) is None,
        },
        text::trimmed(line@).len() > 0 ==> r is Some && r->0@ == text::trimmed(line@),
        text::trimmed(line@).len() == 0 ==> (r is Some <==> default is Some),
        text::trimmed(line@).len() == 0 && default is Some ==> r->0@ == default->0@,
{
    let t = trim(line);
    if char_count(t.as_str()) > 0 {
        return Some(t);
    }
    match default {
        Some(d) => Some(d.clone()),
        None => None,
    }
}

/// What is said of a directory that is not there.
pub open spec fn missing_dir_text(value: Seq<char>) -> Seq<char> {
    "'"@ + value + "' does not exist or is not a directory."@
}

/// What to do with an answer that names a directory.
#[derive(Debug)]
pub enum DirStep {
    /// Nothing was given: say so and ask again.
    Required,
    /// Ask whether to use it although it is not there; say the text first.
    Confirm { value: String, notice: String },
    /// Use it.
    Use(String),
}

/// What to do with an answer that names a directory. `exists` says whether the
/// directory is there.
pub fn dir_step(value: Option<String>, exists: bool) -> (r: DirStep)
    ensures
        match value {
            None => r is Required,
            Some(v) => if exists {
                r is Use && r->Use_0@ == v@
            } else {
                r is Confirm && r->value@ == v@ && r->notice@ == missing_dir_text(v@)
            },
        },
{
    match value {
        None => DirStep::Required,
        Some(v) => if exists {
            DirStep::Use(v)
        } else {
            let mut notice = "'".to_owned();
            notice.append(v.as_str());
            notice.append("' does not exist or is not a directory.");
            DirStep::Confirm { value: v, notice }
        },
    }
}

/// What an answer to the question for a role means: none given is the first role,
/// and what is no role is asked for again.
pub fn role_answer(line: &str) -> (r: Result<Role, String>)
    ensures
        match r {
            Ok(role) => if text::trimmed(line@).len() == 0 {
                role == Role::All
            } else {
                role.name() == text::trimmed(line@)
            },
            Err(v) => {
                &&& v@ == text::trimmed(line@)
                &&& v@.len() > 0
                &&& forall|role: Role| #[trigger] role.name() != v@
            },
        },
{
    let t = trim(line);
    if char_count(t.as_str()) == 0 {
        return Ok(Role::default());
    }
    match Role::parse(t.as_str()) {
        Some(role) => Ok(role),
        None => Err(t),
    }
}

/// The names of the roles.
pub fn role_options() -> (r: Vec<String>)
    ensures
        text::texts(r@) == Role::all().map_values(|role: Role| role.name()),
{
    let mut out: Vec<String> = Vec::new();
    out.push(Role::All.label().to_owned());
    out.push(Role::Code.label().to_owned());
    out.push(Role::Review.label().to_owned());
    out.push(Role::Explorer.label().to_owned());
    out.push(Role::Embedding.label().to_owned());
    assert(text::texts(out@) =~= Role::all().map_values(|role: Role| role.name()));
    out
}

/// The options that a text can be completed to: those that start with it, the case
/// of letters aside, in their order.
pub open spec fn matching(options: Seq<Seq<char>>, written: Seq<char>) -> Seq<Seq<char>>
    decreases options.len(),
{
    if options.len() == 0 {
        Seq::empty()
    } else {
        let rest = matching(options.drop_last(), written);
        if text::has_prefix(lowercase_text(options.last()), lowercase_text(written)) {
            rest.push(options.last())
        } else {
            rest
        }
    }
}

/// The options whose small letters start with a text, in their order. `small`
/// holds the small letters of each option.
pub open spec fn matching_small(
    options: Seq<Seq<char>>,
    small: Seq<Seq<char>>,
    start: Seq<char>,
) -> Seq<Seq<char>>
    decreases options.len(),
{
    if options.len() == 0 {
        Seq::empty()
    } else {
        let rest = matching_small(options.drop_last(), small.drop_last(), start);
        if text::has_prefix(small.last(), start) {
            rest.push(options.last())
        } else {
            rest
        }
    }
}

/// The options whose small letters start with a text, in their order.
pub fn starting_options(options: &Vec<String>, small: &Vec<String>, start: &str) -> (r: Vec<String>)
    requires
        options@.len() == small@.len(),
    ensures
        text::texts(r@) == matching_small(text::texts(options@), text::texts(small@), start@),
{
    let ghost all = text::texts(options@);
    let ghost lower = text::texts(small@);
    let mut out: Vec<String> = Vec::new();
    let mut i: usize = 0;
    assert(text::texts(out@) =~= matching_small(all.take(0), lower.take(0), start@));
    while i < options.len()
        invariant
            i <= options.len(),
            options@.len() == small@.len(),
            all == text::texts(options@),
            lower == text::texts(small@),
            text::texts(out@) == matching_small(
                all.take(i as int),
                lower.take(i as int),
                start@,
            ),
        decreases options.len() - i,
    {
        assert(all.take(i + 1).drop_last() =~= all.take(i as int));
        assert(lower.take(i + 1).drop_last() =~= lower.take(i as int));
        if starts_with(small[i].as_str(), start) {
            let ghost before = text::texts(out@);
            out.push(options[i].clone());
            assert(text::texts(out@) =~= before.push(all[i as int]));
        }
        i += 1;
    }
    assert(all.take(all.len() as int) =~= all);
    assert(lower.take(lower.len() as int) =~= lower);
    out
}

proof fn matching_is_small(options: Seq<Seq<char>>, small: Seq<Seq<char>>, written: Seq<char>)
    requires
        options.len() == small.len(),
        forall|i: int| 0 <= i < options.len() ==> #[trigger] small[i] == lowercase_text(options[i]),
    ensures
        matching_small(options, small, lowercase_text(written)) == matching(options, written),
    decreases options.len(),
{
    if options.len() > 0 {
        matching_is_small(options.drop_last(), small.drop_last(), written);
    }
}

/// The options that a text can be completed to.
pub fn complete(options: &Vec<String>, written: &str) -> (r: Vec<String>)
    ensures
        text::texts(r@) == matching(text::texts(options@), written@),
{
    let mut small: Vec<String> = Vec::new();
    let mut i: usize = 0;
    while i < options.len()
        invariant
            i <= options.len(),
            small@.len() == i,
            forall|j: int|
                0 <= j < i ==> (#[trigger] small@[j])@ == lowercase_text(options@[j]@),
        decreases options.len() - i,
    {
        small.push(lowercase(options[i].as_str()));
        i += 1;
    }
    let start = lowercase(written);
    proof {
        matching_is_small(text::texts(options@), text::texts(small@), written@);
    }
    starting_options(options, &small, start.as_str())
}

/// The models' numbers and names in turn: the number of each is its place, counted
/// from one.
pub open spec fn numbered_labels(labels: Seq<Seq<char>>) -> Seq<Seq<char>>
    decreases labels.len(),
{
    if labels.len() == 0 {
        Seq::empty()
    } else {
        numbered_labels(labels.drop_last()).push(text::decimal_text(labels.len())).push(
            labels.last(),
        )
    }
}

/// The models' numbers and names in turn.
pub fn model_completion_options(labels: &Vec<String>) -> (r: Vec<String>)
    ensures
        text::texts(r@) == numbered_labels(text::texts(labels@)),
{
    let ghost all = text::texts(labels@);
    let mut out: Vec<String> = Vec::new();
    let mut i: usize = 0;
    let n: usize = labels.len();
    assert(text::texts(out@) =~= numbered_labels(all.take(0)));
    while i < n
        invariant
            n == labels@.len(),
            i <= n,
            all == text::texts(labels@),
            text::texts(out@) == numbered_labels(all.take(i as int)),
        decreases n - i,
    {
        assert(all.take(i + 1).drop_last() =~= all.take(i as int));
        let ghost before = text::texts(out@);
        out.push(decimal((i + 1) as u64));
        out.push(labels[i].clone());
        assert(text::texts(out@) =~= before.push(text::decimal_text((i + 1) as nat)).push(
            all[i as int],
        ));
        i += 1;
    }
    assert(all.take(all.len() as int) =~= all);
    out
}

/// A model's number stands before its name, at an even place.
pub proof fn numbers_stand_before_names(labels: Seq<Seq<char>>, i: int)
    requires
        0 <= i < labels.len(),
    ensures
        numbered_labels(labels).len() == 2 * labels.len(),
        numbered_labels(labels)[2 * i] == text::decimal_text((i + 1) as nat),
        numbered_labels(labels)[2 * i + 1] == labels[i],
    decreases labels.len(),
{
    let rest = labels.drop_last();
    reveal_with_fuel(numbered_labels, 2);
    if rest.len() > 0 {
        let k = if i < rest.len() {
            i
        } else {
            0
        };
        numbers_stand_before_names(rest, k);
    }
}

/// The values of a configuration. The model is empty where none is set.
#[derive(Debug)]
pub struct InitValues {
    pub models: String,
    pub model: String,
    pub role: Role,
    pub host: String,
    pub port: String,
    pub web: String,
}

/// The file of a configuration: a model and a role stand in it only where they are
/// set to something.
pub open spec fn config_text(v: InitValues) -> Seq<char> {
    "[orangu-server]\nmodels = "@ + v.models@ + "\n"@ + (if v.model@.len() > 0 {
        "model = "@ + v.model@ + "\n"@
    } else {
        Seq::empty()
    }) + (if v.role != Role::All {
        "role = "@ + v.role.name() + "\n"@
    } else {
        Seq::empty()
    }) + "host = "@ + v.host@ + "\nport = "@ + v.port@ + "\nweb = "@ + v.web@ + "\n"@
}

/// The file of a configuration.
pub fn config_contents(v: &InitValues) -> (r: String)
    ensures
        r@ == config_text(*v),
{
    let mut s = "[orangu-server]\nmodels = ".to_owned();
    s.append(v.models.as_str());
    s.append("\n");
    let ghost head = s@;
    if char_count(v.model.as_str()) > 0 {
        s.append("model = ");
        s.append(v.model.as_str());
        s.append("\n");
    }
    let ghost with_model = s@;
    assert(with_model =~= head + (if v.model@.len() > 0 {
        "model = "@ + v.model@ + "\n"@
    } else {
        Seq::empty()
    }));
    if v.role != Role::All {
        s.append("role = ");
        s.append(v.role.label());
        s.append("\n");
    }
    assert(s@ =~= with_model + (if v.role != Role::All {
        "role = "@ + v.role.name() + "\n"@
    } else {
        Seq::empty()
    }));
    s.append("host = ");
    s.append(v.host.as_str());
    s.append("\nport = ");
    s.append(v.port.as_str());
    s.append("\nweb = ");
    s.append(v.web.as_str());
    s.append("\n");
    s
}

/// Of some options those are offered whose small letters start with what was written, in their
/// order.
pub proof fn options_are_offered_by_their_start(
    options: Seq<Seq<char>>,
    option: Seq<char>,
    small: Seq<Seq<char>>,
    letters: Seq<char>,
    start: Seq<char>,
)
    requires
        options.len() == small.len(),
    ensures
        matching_small(Seq::empty(), Seq::empty(), start) == Seq::<Seq<char>>::empty(),
        matching_small(options.push(option), small.push(start + letters), start) == matching_small(
            options,
            small,
            start,
        ).push(option),
        letters.len() < start.len() || letters.take(start.len() as int) != start ==> matching_small(
            options.push(option),
            small.push(letters),
            start,
        ) == matching_small(options, small, start),
        matching(options.push(option), option) == matching(options, option).push(option),
{
    assert(options.push(option).drop_last() =~= options);
    assert(small.push(letters).drop_last() =~= small);
    assert(small.push(start + letters).drop_last() =~= small);
    assert((start + letters).take(start.len() as int) =~= start);
    let own = lowercase_text(option);
    assert(own.take(own.len() as int) =~= own);
}

/// A configuration names its models, where it listens and the console's port; a model only where
/// one is set, and a role only where it is not the usual one.
pub proof fn configurations_hold_what_is_set(v: InitValues)
    ensures
        ({
            let head = "[orangu-server]\nmodels = "@ + v.models@ + "\n"@;
            let model = "model = "@ + v.model@ + "\n"@;
            let role = "role = "@ + v.role.name() + "\n"@;
            let tail = "host = "@ + v.host@ + "\nport = "@ + v.port@ + "\nweb = "@ + v.web@ + "\n"@;
            &&& v.model@.len() > 0 && v.role != Role::All ==> config_text(v) == head + model + role
                + tail
            &&& v.model@.len() > 0 && v.role == Role::All ==> config_text(v) == head + model + tail
            &&& v.model@.len() == 0 && v.role != Role::All ==> config_text(v) == head + role + tail
            &&& v.model@.len() == 0 && v.role == Role::All ==> config_text(v) == head + tail
        }),
{
    let head = "[orangu-server]\nmodels = "@ + v.models@ + "\n"@;
    let model = "model = "@ + v.model@ + "\n"@;
    let role = "role = "@ + v.role.name() + "\n"@;
    let tail = "host = "@ + v.host@ + "\nport = "@ + v.port@ + "\nweb = "@ + v.web@ + "\n"@;
    if v.model@.len() > 0 && v.role != Role::All {
        assert(config_text(v) =~= head + model + role + tail);
    } else if v.model@.len() > 0 {
        assert(config_text(v) =~= head + model + tail);
    } else if v.role != Role::All {
        assert(config_text(v) =~= head + role + tail);
    } else {
        assert(config_text(v) =~= head + tail);
    }
}

} // verus!
