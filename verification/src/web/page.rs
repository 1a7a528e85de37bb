//! The console's page, its fonts, and what it tells of the server.

use vstd::prelude::*;

use crate::text;
use crate::text::{decimal, replace_all, same_text};
use crate::web::mcp::McpConfiguration;

verus! {

/// What the console knows of the server.
#[derive(Debug)]
pub struct WebState {
    pub model_display: String,
    pub architecture: String,
    pub backend_label: String,
    pub workspace: String,
    pub version: String,
    pub can_delete: bool,
    pub bundled: bool,
    pub loading: Option<String>,
    pub mcp_servers: Vec<McpConfiguration>,
}

/// Whether a year has 366 days.
pub open spec fn is_leap(y: int) -> bool {
    (y % 4 == 0 && y % 100 != 0) || y % 400 == 0
}

/// The number of days in a year.
pub open spec fn days_in(y: int) -> int {
    if is_leap(y) {
        366
    } else {
        365
    }
}

/// The number of days from the start of 1970 to the start of a year.
pub open spec fn year_start(y: int) -> int
    decreases y,
{
    if y <= 1970 {
        0
    } else {
        year_start(y - 1) + days_in(y - 1)
    }
}

/// Whether a day, counted from the start of 1970, lies in a year.
pub open spec fn is_in_year(day: int, y: int) -> bool {
    1970 <= y && year_start(y) <= day < year_start(y + 1)
}

/// A day lies in one year only.
pub proof fn year_is_unique(day: int, y: int, z: int)
    requires
        is_in_year(day, y),
        is_in_year(day, z),
    ensures
        y == z,
{
    if y < z {
        years_follow(y + 1, z);
    } else if z < y {
        years_follow(z + 1, y);
    }
}

proof fn years_follow(y: int, z: int)
    requires
        1970 <= y <= z,
    ensures
        year_start(y) <= year_start(z),
    decreases z - y,
{
    if y < z {
        years_follow(y, z - 1);
    }
}

/// The year of a time in seconds from the start of 1970.
pub fn current_year(seconds: u64) -> (r: i64)
    ensures
        is_in_year(seconds as int / 86400, r as int),
{
    let ghost day = seconds as int / 86400;
    let mut days: u64 = seconds / 86400;
    let mut year: u64 = 1970;
    loop
        invariant
            day == seconds as int / 86400,
            1970 <= year,
            days + year_start(year as int) == day,
            (year - 1970) * 365 <= year_start(year as int),
        ensures
            1970 <= year,
            is_in_year(day, year as int),
            (year - 1970) * 365 <= day,
        decreases days,
    {
        let leap: bool = (year % 4 == 0 && year % 100 != 0) || year % 400 == 0;
        let length: u64 = if leap {
            366
        } else {
            365
        };
        assert(length == days_in(year as int));
        if days < length {
            break;
        }
        days -= length;
        year += 1;
    }
    year as i64
}

/// A character as it is written in a page.
pub open spec fn entity(c: char) -> Seq<char> {
    if c == '&' {
        "&amp;"@
    } else if c == '<' {
        "&lt;"@
    } else if c == '>' {
        "&gt;"@
    } else {
        seq![c]
    }
}

/// A text as it is written in a page.
pub open spec fn html_text(t: Seq<char>) -> Seq<char>
    decreases t.len(),
{
    if t.len() == 0 {
        Seq::empty()
    } else {
        html_text(t.drop_last()) + entity(t.last())
    }
}

/// A text as it is written in a page.
pub fn html_escape(t: &str) -> (r: String)
    ensures
        r@ == html_text(t@),
{
    let chars = text::chars_of(t);
    let mut out = String::new();
    let mut i: usize = 0;
    assert(t@.take(0) =~= Seq::empty());
    while i < chars.len()
        invariant
            i <= chars.len(),
            chars@ == t@,
            out@ == html_text(t@.take(i as int)),
        decreases chars.len() - i,
    {
        let c: char = chars[i];
        assert(t@.take(i + 1).drop_last() =~= t@.take(i as int));
        if c == '&' {
            out.append("&amp;");
        } else if c == '<' {
            out.append("&lt;");
        } else if c == '>' {
            out.append("&gt;");
        } else {
            out.push(c);
        }
        assert(out@ =~= html_text(t@.take(i + 1)));
        i += 1;
    }
    assert(t@.take(t@.len() as int) =~= t@);
    out
}

/// A text in a page opens and closes no tag.
pub proof fn escaped_text_has_no_tags(t: Seq<char>, i: int)
    requires
        0 <= i < html_text(t).len(),
    ensures
        html_text(t)[i] != '<' && html_text(t)[i] != '>',
    decreases t.len(),
{
    reveal_strlit("&amp;");
    reveal_strlit("&lt;");
    reveal_strlit("&gt;");
    let rest = html_text(t.drop_last());
    if i < rest.len() {
        escaped_text_has_no_tags(t.drop_last(), i);
    } else {
        assert(html_text(t)[i] == entity(t.last())[i - rest.len()]);
    }
}

/// The page: a template with the version, the model, the year and the version of
/// its files filled in, one after the other.
pub open spec fn page_text(
    template: Seq<char>,
    version: Seq<char>,
    model: Seq<char>,
    year: nat,
    assets: Seq<char>,
) -> Seq<char> {
    text::replaced(
        text::replaced(
            text::replaced(
                text::replaced(template, "{{VERSION}}"@, version),
                "{{MODEL}}"@,
                html_text(model),
            ),
            "{{YEAR}}"@,
            text::decimal_text(year),
        ),
        "{{ASSET_VERSION}}"@,
        assets,
    )
}

/// The report on the server that goes before the one on its hardware.
pub open spec fn report_text(s: WebState, hardware: Seq<char>) -> Seq<char> {
    "orangu-server "@ + s.version@ + "\nModel        "@ + s.model_display@ + "\nArchitecture "@
        + s.architecture@ + "\nBackend      "@ + s.backend_label@ + "\nWorkspace    "@
        + s.workspace@ + "\n\n"@ + hardware
}

impl WebState {
    /// Claims the one handover that there is; fails where it is claimed already.
    pub fn arm_handover(&mut self, label: &str) -> (r: bool)
        ensures
            r == (old(self).loading is None),
            r ==> final(self).loading is Some && final(self).loading->0@ == label@,
            !r ==> final(self).loading == old(self).loading,
            *final(self) == (WebState { loading: final(self).loading, ..*old(self) }),
    {
        if self.loading.is_some() {
            return false;
        }
        self.loading = Some(label.to_owned());
        true
    }

    /// The model that is about to be served instead, if there is one.
    pub fn loading_model(&self) -> (r: Option<String>)
        ensures
            r is Some <==> self.loading is Some,
            r is Some ==> r->0@ == self.loading->0@,
    {
        match &self.loading {
            Some(label) => Some(label.clone()),
            None => None,
        }
    }

    /// The page, at a time in seconds from the start of 1970.
    pub fn index(&self, template: &str, seconds: u64, assets: &str) -> (r: String)
        ensures
            exists|year: int| #[trigger]
                is_in_year(seconds as int / 86400, year) && r@ == page_text(
                    template@,
                    self.version@,
                    self.model_display@,
                    year as nat,
                    assets@,
                ),
    {
        proof {
            reveal_strlit("{{VERSION}}");
            reveal_strlit("{{MODEL}}");
            reveal_strlit("{{YEAR}}");
            reveal_strlit("{{ASSET_VERSION}}");
        }
        let year: i64 = current_year(seconds);
        let with_version = replace_all(template, "{{VERSION}}", self.version.as_str());
        let model = html_escape(self.model_display.as_str());
        let with_model = replace_all(with_version.as_str(), "{{MODEL}}", model.as_str());
        let with_year = replace_all(
            with_model.as_str(),
            "{{YEAR}}",
            decimal(year as u64).as_str(),
        );
        replace_all(with_year.as_str(), "{{ASSET_VERSION}}", assets)
    }

    /// The report on the server, with the one on its hardware.
    pub fn system_report(&self, hardware: &str) -> (r: String)
        ensures
            r@ == report_text(*self, hardware@),
    {
        let mut s = "orangu-server ".to_owned();
        s.append(self.version.as_str());
        s.append("\nModel        ");
        s.append(self.model_display.as_str());
        s.append("\nArchitecture ");
        s.append(self.architecture.as_str());
        s.append("\nBackend      ");
        s.append(self.backend_label.as_str());
        s.append("\nWorkspace    ");
        s.append(self.workspace.as_str());
        s.append("\n\n");
        s.append(hardware);
        s
    }
}

/// The names of the fonts that the page may ask for.
pub open spec fn font_names() -> Seq<Seq<char>> {
    seq![
        "KaTeX_AMS-Regular.woff2"@,
        "KaTeX_Caligraphic-Bold.woff2"@,
        "KaTeX_Caligraphic-Regular.woff2"@,
        "KaTeX_Fraktur-Bold.woff2"@,
        "KaTeX_Fraktur-Regular.woff2"@,
        "KaTeX_Main-Bold.woff2"@,
        "KaTeX_Main-BoldItalic.woff2"@,
        "KaTeX_Main-Italic.woff2"@,
        "KaTeX_Main-Regular.woff2"@,
        "KaTeX_Math-BoldItalic.woff2"@,
        "KaTeX_Math-Italic.woff2"@,
        "KaTeX_SansSerif-Bold.woff2"@,
        "KaTeX_SansSerif-Italic.woff2"@,
        "KaTeX_SansSerif-Regular.woff2"@,
        "KaTeX_Script-Regular.woff2"@,
        "KaTeX_Size1-Regular.woff2"@,
        "KaTeX_Size2-Regular.woff2"@,
        "KaTeX_Size3-Regular.woff2"@,
        "KaTeX_Size4-Regular.woff2"@,
        "KaTeX_Typewriter-Regular.woff2"@,
    ]
}

/// The names of the fonts that the page may ask for.
pub fn katex_fonts() -> (r: Vec<&'static str>)
    ensures
        text::slices(r@) == font_names(),
{
    let r: Vec<&'static str> = vec![
        "KaTeX_AMS-Regular.woff2",
        "KaTeX_Caligraphic-Bold.woff2",
        "KaTeX_Caligraphic-Regular.woff2",
        "KaTeX_Fraktur-Bold.woff2",
        "KaTeX_Fraktur-Regular.woff2",
        "KaTeX_Main-Bold.woff2",
        "KaTeX_Main-BoldItalic.woff2",
        "KaTeX_Main-Italic.woff2",
        "KaTeX_Main-Regular.woff2",
        "KaTeX_Math-BoldItalic.woff2",
        "KaTeX_Math-Italic.woff2",
        "KaTeX_SansSerif-Bold.woff2",
        "KaTeX_SansSerif-Italic.woff2",
        "KaTeX_SansSerif-Regular.woff2",
        "KaTeX_Script-Regular.woff2",
        "KaTeX_Size1-Regular.woff2",
        "KaTeX_Size2-Regular.woff2",
        "KaTeX_Size3-Regular.woff2",
        "KaTeX_Size4-Regular.woff2",
        "KaTeX_Typewriter-Regular.woff2",
    ];
    assert(text::slices(r@) =~= font_names());
    r
}

/// The place of a font in the list; none for any other name.
pub fn katex_font(name: &str) -> (r: Option<usize>)
    ensures
        match r {
            Some(i) => i < font_names().len() && font_names()[i as int] == name@,
            None => !font_names().contains(name@),
        },
{
    let fonts = katex_fonts();
    let mut i: usize = 0;
    while i < fonts.len()
        invariant
            i <= fonts.len(),
            text::slices(fonts@) == font_names(),
            forall|j: int| 0 <= j < i ==> font_names()[j] != name@,
        decreases fonts.len() - i,
    {
        assert(font_names()[i as int] == fonts@[i as int]@);
        if same_text(fonts[i], name) {
            return Some(i);
        }
        i += 1;
    }
    None
}

/// A year starts as many days after 1970 as there are in the years between: 365 in each, and
/// one more for every fourth, but not for every hundredth, but for every four hundredth.
pub proof fn years_start_by_the_calendar(y: int)
    requires
        1970 <= y,
    ensures
        year_start(y) == 365 * (y - 1970) + ((y - 1) / 4 - (y - 1) / 100 + (y - 1) / 400) - 477,
    decreases y,
{
    if y > 1970 {
        years_start_by_the_calendar(y - 1);
        let z = y - 1;
        assert(z / 4 == (z - 1) / 4 + (if z % 4 == 0 {
            1int
        } else {
            0int
        }));
        assert(z / 100 == (z - 1) / 100 + (if z % 100 == 0 {
            1int
        } else {
            0int
        }));
        assert(z / 400 == (z - 1) / 400 + (if z % 400 == 0 {
            1int
        } else {
            0int
        }));
    }
}

/// A text is written in a page character by character, as it is but for three of them.
pub proof fn three_characters_are_escaped(t: Seq<char>, c: char)
    ensures
        html_text(Seq::empty()) == Seq::<char>::empty(),
        html_text(t.push('&')) == html_text(t) + "&amp;"@,
        html_text(t.push('<')) == html_text(t) + "&lt;"@,
        html_text(t.push('>')) == html_text(t) + "&gt;"@,
        c != '&' && c != '<' && c != '>' ==> html_text(t.push(c)) == html_text(t).push(c),
{
    assert(t.push('&').drop_last() =~= t);
    assert(t.push('<').drop_last() =~= t);
    assert(t.push('>').drop_last() =~= t);
    assert(t.push(c).drop_last() =~= t);
    assert(html_text(t) + seq![c] =~= html_text(t).push(c));
}

} // verus!
