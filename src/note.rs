use vstd::prelude::*;
use vstd::string::*;

verus! {

/// A text region of a note that is eligible for linking.
///
/// `start` and `end` are byte offsets into the note's raw content. `text` is
/// `None` when the region could not be read as plain text; such a span is
/// skipped when scanning.
pub struct Span {
    pub start: u32,
    pub end: u32,
    pub text: Option<String>,
}

/// A successfully parsed note.
///
/// `aliases` is `None` when the aliases could not be extracted; the note then
/// counts as having none.
pub struct Note {
    pub path: String,
    pub title: String,
    pub aliases: Option<Vec<String>>,
    pub spans: Vec<Span>,
}

/// What parsing one input file produced.
pub enum ParseOutcome {
    Parsed(Note),
    Failed { path: String, cause: String },
}

/// The mathematical value of a [`JsLink`].
pub struct LinkView {
    pub source: Seq<char>,
    pub target: Seq<char>,
    pub link_text: Seq<char>,
    pub start: u32,
    pub end: u32,
}

/// The decimal digit `d`, for `d < 10`.
pub open spec fn digit_char(d: nat) -> char {
    seq!['0', '1', '2', '3', '4', '5', '6', '7', '8', '9'][d as int]
}

/// The decimal notation of `n`, without leading zeros.
pub open spec fn decimal(n: nat) -> Seq<char>
    decreases n,
{
    if n < 10 {
        seq![digit_char(n)]
    } else {
        decimal(n / 10).push(digit_char(n % 10))
    }
}

/// The one-character text of the digit `d`.
fn digit_str(d: u32) -> (r: &'static str)
    requires
        d < 10,
    ensures
        r@ == seq![digit_char(d as nat)],
{
    proof {
        reveal_strlit("0");
        reveal_strlit("1");
        reveal_strlit("2");
        reveal_strlit("3");
        reveal_strlit("4");
        reveal_strlit("5");
        reveal_strlit("6");
        reveal_strlit("7");
        reveal_strlit("8");
        reveal_strlit("9");
    }
    if d == 0 {
        "0"
    } else if d == 1 {
        "1"
    } else if d == 2 {
        "2"
    } else if d == 3 {
        "3"
    } else if d == 4 {
        "4"
    } else if d == 5 {
        "5"
    } else if d == 6 {
        "6"
    } else if d == 7 {
        "7"
    } else if d == 8 {
        "8"
    } else {
        "9"
    }
}

/// The decimal notation of `n`.
fn decimal_string(n: u32) -> (r: String)
    ensures
        r@ == decimal(n as nat),
    decreases n,
{
    if n < 10 {
        String::from_str(digit_str(n))
    } else {
        let mut r = decimal_string(n / 10);
        r.append(digit_str(n % 10));
        r
    }
}

/// The one-line description of a link.
pub open spec fn debug_text(l: LinkView) -> Seq<char> {
    "Source: "@ + l.source + ", Target: "@ + l.target + ", Link Text: "@ + l.link_text + ", Start: "@
        + decimal(l.start as nat) + ", End: "@ + decimal(l.end as nat)
}

/// One mention of a note's identity inside a note's text.
pub struct JsLink {
    source: String,
    target: String,
    link_text: String,
    start: u32,
    end: u32,
}

impl View for JsLink {
    type V = LinkView;

    closed spec fn view(&self) -> LinkView {
        LinkView {
            source: self.source@,
            target: self.target@,
            link_text: self.link_text@,
            start: self.start,
            end: self.end,
        }
    }
}

impl JsLink {
    pub fn new(source: String, target: String, link_text: String, start: u32, end: u32) -> (r:
        JsLink)
        ensures
            r@ == (LinkView { source: source@, target: target@, link_text: link_text@, start, end }),
    {
        JsLink { source, target, link_text, start, end }
    }

    /// Describes every field of the link on one line.
    pub fn debug(&self) -> (r: String)
        ensures
            r@ == debug_text(self@),
    {
        proof {
            reveal_strlit("Source: ");
            reveal_strlit(", Target: ");
            reveal_strlit(", Link Text: ");
            reveal_strlit(", Start: ");
            reveal_strlit(", End: ");
        }
        let mut r = String::from_str("Source: ");
        r.append(self.source.as_str());
        r.append(", Target: ");
        r.append(self.target.as_str());
        r.append(", Link Text: ");
        r.append(self.link_text.as_str());
        r.append(", Start: ");
        let start = decimal_string(self.start);
        r.append(start.as_str());
        r.append(", End: ");
        let end = decimal_string(self.end);
        r.append(end.as_str());
        r
    }

    /// Whether this link points back at the note it was found in.
    pub fn is_self_link(&self) -> (r: bool)
        ensures
            r == (self@.source == self@.target),
    {
        self.source == self.target
    }

    pub fn get_source(&self) -> (r: String)
        ensures
            r@ == self@.source,
    {
        self.source.clone()
    }

    pub fn get_target(&self) -> (r: String)
        ensures
            r@ == self@.target,
    {
        self.target.clone()
    }

    pub fn get_link_text(&self) -> (r: String)
        ensures
            r@ == self@.link_text,
    {
        self.link_text.clone()
    }

    pub fn get_start(&self) -> (r: u32)
        ensures
            r == self@.start,
    {
        self.start
    }

    pub fn get_end(&self) -> (r: u32)
        ensures
            r == self@.end,
    {
        self.end
    }
}

} // verus!
