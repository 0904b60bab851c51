use vstd::prelude::*;
use vstd::string::*;
use vstd::utf8::*;
use regex::{Regex, RegexBuilder};

verus! {

/// The characters that carry meaning in a pattern and are escaped by a backslash.
pub open spec fn is_meta(c: char) -> bool {
    c == '\\' || c == '.' || c == '+' || c == '*' || c == '?' || c == '(' || c == ')' || c == '|'
        || c == '[' || c == ']' || c == '{' || c == '}' || c == '^' || c == '$' || c == '#'
        || c == '&' || c == '-' || c == '~'
}

/// `s` with a backslash put before each meta character, so that it matches literally.
pub open spec fn escaped(s: Seq<char>) -> Seq<char>
    decreases s.len(),
{
    if s.len() == 0 {
        Seq::empty()
    } else {
        let head = if is_meta(s[0]) {
            seq!['\\', s[0]]
        } else {
            seq![s[0]]
        };
        head + escaped(s.drop_first())
    }
}

/// Relies on regex::escape: each meta character is preceded by a backslash.
#[verifier::external_body]
pub(crate) fn escape(s: &str) -> (r: String)
    ensures
        r@ == escaped(s@),
{
    regex::escape(s)
}


#[verifier::external_type_specification]
#[verifier::external_body]
pub struct ExRegex(regex::Regex);

#[verifier::external_type_specification]
#[verifier::external_body]
pub struct ExRegexError(regex::Error);

/// Whether `pattern` compiles, with the given case sensitivity, under the
/// default limits of the `regex` crate.
pub uninterp spec fn regex_builds(pattern: Seq<char>, case_insensitive: bool) -> bool;

/// The outcome of one leftmost-first search of a compiled pattern in a text:
/// `None` when nothing matches, else one entry per capturing group (entry 0
/// is the whole match), each with its byte range and the text it covers.
pub uninterp spec fn regex_captures(
    pattern: Seq<char>,
    case_insensitive: bool,
    text: Seq<char>,
) -> Option<Seq<Option<(usize, usize, Seq<char>)>>>;

/// The mathematical value of one capturing group as the search hands it out.
pub open spec fn group_view(g: Option<(usize, usize, String)>) -> Option<(usize, usize, Seq<char>)> {
    match g {
        Some(m) => Some((m.0, m.1, m.2@)),
        None => None,
    }
}

/// The mathematical value of the groups of a search outcome.
pub open spec fn groups_view(v: Seq<Option<(usize, usize, String)>>) -> Seq<Option<(usize, usize, Seq<char>)>> {
    v.map_values(|g: Option<(usize, usize, String)>| group_view(g))
}

/// The mathematical value of a search outcome.
pub open spec fn captures_view(c: Option<Vec<Option<(usize, usize, String)>>>) -> Option<
    Seq<Option<(usize, usize, Seq<char>)>>,
> {
    match c {
        Some(v) => Some(groups_view(v@)),
        None => None,
    }
}

/// A compiled pattern together with the source text and flag it was built from.
///
/// Only [`compile`] builds one, so `regex` is always the compilation of
/// `pattern` under `case_insensitive`.
pub struct Matcher {
    regex: Regex,
    pattern: String,
    case_insensitive: bool,
}

impl Matcher {
    pub closed spec fn pattern(&self) -> Seq<char> {
        self.pattern@
    }

    pub closed spec fn case_insensitive(&self) -> bool {
        self.case_insensitive
    }
}

/// Relies on regex::RegexBuilder (new, case_insensitive, build): the pattern
/// is compiled with the given case sensitivity, or rejected with an error.
#[verifier::external_body]
pub(crate) fn compile(pattern: &String, case_insensitive: bool) -> (r: Result<Matcher, regex::Error>)
    ensures
        r is Ok <==> regex_builds(pattern@, case_insensitive),
        r is Ok ==> r->Ok_0.pattern() == pattern@ && r->Ok_0.case_insensitive() == case_insensitive,
{
    let regex = RegexBuilder::new(pattern).case_insensitive(case_insensitive).build()?;
    Ok(Matcher { regex, pattern: pattern.clone(), case_insensitive })
}

/// Relies on regex::Regex::captures, Captures::iter and Match (start, end,
/// as_str): the leftmost-first match of the pattern in `text`. A group's
/// range is a half-open byte range of `text`, and its text is that slice.
#[verifier::external_body]
pub(crate) fn captures(m: &Matcher, text: &str) -> (r: Option<Vec<Option<(usize, usize, String)>>>)
    ensures
        captures_view(r) == regex_captures(m.pattern(), m.case_insensitive(), text@),
        r is Some ==> forall|i: int|
            0 <= i < r->0@.len() && (#[trigger] r->0@[i]) is Some ==> {
                let g = r->0@[i]->0;
                &&& g.0 <= g.1 <= text.spec_bytes().len()
                &&& encode_utf8(g.2@) == text.spec_bytes().subrange(g.0 as int, g.1 as int)
            },
{
    m.regex.captures(text).map(
        |c| c.iter().map(|g| g.map(|x| (x.start(), x.end(), x.as_str().to_string()))).collect(),
    )
}

} // verus!
