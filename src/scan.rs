use vstd::prelude::*;
use vstd::utf8::*;

use crate::laws::lemma_lowest_group_wins;
use crate::matcher::{captures, captures_view, group_view, groups_view, regex_captures, Matcher};
use crate::note::{JsLink, LinkView, Note, ParseOutcome, Span};
use crate::pattern::{corpus_pattern, parsed_notes};

verus! {

/// The lowest group index in `i ..= n` that took part in the match.
pub open spec fn first_group_from(groups: Seq<Option<(usize, usize, Seq<char>)>>, i: nat, n: nat) -> Option<nat>
    decreases n + 1 - i,
{
    if i > n || i >= groups.len() {
        None
    } else if groups[i as int] is Some {
        Some(i)
    } else {
        first_group_from(groups, i + 1, n)
    }
}

/// The capturing group among `1 ..= n` with the lowest index that took part in
/// the match, as (start, end, text, group index).
pub open spec fn first_capture(caps: Option<Seq<Option<(usize, usize, Seq<char>)>>>, n: nat) -> Option<
    (usize, usize, Seq<char>, nat),
> {
    match caps {
        None => None,
        Some(groups) => match first_group_from(groups, 1, n) {
            None => None,
            Some(i) => {
                let g = groups[i as int]->0;
                Some((g.0, g.1, g.2, i))
            },
        },
    }
}

/// Picks, from the outcome of a search, the group with the lowest index among
/// `1 ..= caps_len` that matched.
pub fn get_first_capture(caps: &Option<Vec<Option<(usize, usize, String)>>>, caps_len: usize) -> (r:
    Option<(usize, usize, String, usize)>)
    ensures
        match r {
            Some(m) => first_capture(captures_view(*caps), caps_len as nat) == Some(
                (m.0, m.1, m.2@, m.3 as nat),
            ),
            None => first_capture(captures_view(*caps), caps_len as nat) is None,
        },
{
    match caps {
        None => None,
        Some(groups) => {
            let ghost gv = groups_view(groups@);
            let mut i: usize = 1;
            while i <= caps_len && i < groups.len()
                invariant
                    1 <= i,
                    *caps == Some(*groups),
                    gv == groups_view(groups@),
                    first_group_from(gv, 1, caps_len as nat) == first_group_from(gv, i as nat, caps_len as nat),
                decreases caps_len + 1 - i,
            {
                match &groups[i] {
                    Some(g) => {
                        assert(gv[i as int] == group_view(groups@[i as int]));
                        let t = g.2.clone();
                        assert(t@ == g.2@);
                        assert(first_group_from(gv, i as nat, caps_len as nat) == Some(i as nat));
                        return Some((g.0, g.1, t, i));
                    },
                    None => {},
                }
                i = i + 1;
            }
            None
        },
    }
}


/// The byte length of the UTF-8 encoding of `s`.
pub open spec fn byte_len(s: Seq<char>) -> nat {
    encode_utf8(s).len()
}

/// The offsets of a span stay within `u32` wherever a match in it may end.
/// Its end is where its text ends.
pub open spec fn span_fits(span: Span) -> bool {
    span.text is Some ==> {
        &&& span.start + byte_len(span.text->0@) <= u32::MAX
        &&& span.end == span.start + byte_len(span.text->0@)
    }
}

/// `l` was found in span `sp` of `source`: its range lies inside the span,
/// and its text is the bytes of the span's text at that range.
pub open spec fn link_in_span(l: LinkView, source: Note, sp: Span) -> bool {
    &&& l.source == source.path@
    &&& sp.text is Some
    &&& sp.start <= l.start <= l.end <= sp.end
    &&& l.end <= sp.start + byte_len(sp.text->0@)
    &&& encode_utf8(l.link_text) == encode_utf8(sp.text->0@).subrange(
        l.start - sp.start,
        l.end - sp.start,
    )
}

/// `l` was found in some span of some parsed note among `files`.
pub open spec fn link_from(l: LinkView, files: Seq<ParseOutcome>) -> bool {
    exists|i: int, j: int|
        0 <= i < files.len() && files[i] is Parsed && 0 <= j < files[i]->Parsed_0.spans@.len()
            && #[trigger] link_in_span(l, files[i]->Parsed_0, files[i]->Parsed_0.spans@[j])
}

/// `l` has the shape of a reference found in `files`: it lies in a span of
/// its source, covers exactly its text, and points at a parsed note.
pub open spec fn well_placed(l: LinkView, files: Seq<ParseOutcome>) -> bool {
    &&& offsets_agree(l)
    &&& link_from(l, files)
    &&& targets_one_of(l, parsed_notes(files))
}

/// `l` points at a note of `notes`.
pub open spec fn targets_one_of(l: LinkView, notes: Seq<Note>) -> bool {
    exists|m: int| 0 <= m < notes.len() && #[trigger] notes[m].path@ == l.target
}

/// A link's range covers exactly the bytes of its text.
pub open spec fn offsets_agree(l: LinkView) -> bool {
    l.start <= l.end && l.end - l.start == byte_len(l.link_text)
}

/// Every span of every parsed note fits.
pub open spec fn offsets_fit(files: Seq<ParseOutcome>) -> bool {
    forall|i: int, j: int|
        0 <= i < files.len() && #[trigger] files[i] is Parsed && 0 <= j
            < files[i]->Parsed_0.spans@.len() ==> span_fits(
            #[trigger] files[i]->Parsed_0.spans@[j],
        )
}

/// The reference found in one span of `source`, if any: the leftmost match of
/// the corpus pattern, resolved to the note of its lowest matching group.
pub open spec fn span_link(source: Note, notes: Seq<Note>, case_insensitive: bool, span: Span) -> Option<
    LinkView,
> {
    match span.text {
        None => None,
        Some(t) => match first_capture(
            regex_captures(corpus_pattern(notes), case_insensitive, t@),
            notes.len(),
        ) {
            None => None,
            Some(m) => Some(
                LinkView {
                    source: source.path@,
                    target: notes[m.3 - 1].path@,
                    link_text: m.2,
                    start: (span.start + m.0) as u32,
                    end: (span.start + m.1) as u32,
                },
            ),
        },
    }
}

/// The link, if any, as a sequence of at most one.
pub open spec fn option_seq(o: Option<LinkView>) -> Seq<LinkView> {
    match o {
        Some(l) => seq![l],
        None => Seq::empty(),
    }
}

/// The references found in `spans` of `source`, in span order.
pub open spec fn span_links(source: Note, spans: Seq<Span>, notes: Seq<Note>, case_insensitive: bool) -> Seq<
    LinkView,
>
    decreases spans.len(),
{
    if spans.len() == 0 {
        Seq::empty()
    } else {
        span_links(source, spans.drop_last(), notes, case_insensitive) + option_seq(
            span_link(source, notes, case_insensitive, spans.last()),
        )
    }
}

/// The references found in the parsed notes among `files`, in corpus order.
pub open spec fn file_links(files: Seq<ParseOutcome>, notes: Seq<Note>, case_insensitive: bool) -> Seq<
    LinkView,
>
    decreases files.len(),
{
    if files.len() == 0 {
        Seq::empty()
    } else {
        file_links(files.drop_last(), notes, case_insensitive) + match files.last() {
            ParseOutcome::Parsed(n) => span_links(n, n.spans@, notes, case_insensitive),
            ParseOutcome::Failed { .. } => Seq::empty(),
        }
    }
}

/// The paths of the parsed notes, in corpus order: group `k + 1` resolves to entry `k`.
pub(crate) fn note_paths(files: &Vec<ParseOutcome>) -> (r: Vec<String>)
    ensures
        r@.len() == parsed_notes(files@).len(),
        forall|k: int| 0 <= k < r@.len() ==> #[trigger] r@[k]@ == parsed_notes(files@)[k].path@,
{
    let mut r: Vec<String> = Vec::new();
    let mut i: usize = 0;
    while i < files.len()
        invariant
            i <= files.len(),
            r@.len() == parsed_notes(files@.take(i as int)).len(),
            forall|k: int| 0 <= k < r@.len() ==> #[trigger] r@[k]@ == parsed_notes(files@.take(i as int))[k].path@,
        decreases files.len() - i,
    {
        assert(files@.take(i + 1).drop_last() =~= files@.take(i as int));
        match &files[i] {
            ParseOutcome::Parsed(n) => {
                r.push(n.path.clone());
            },
            ParseOutcome::Failed { .. } => {},
        }
        i = i + 1;
    }
    assert(files@.take(i as int) =~= files@);
    r
}

/// Scans one span of `source` for its leftmost reference.
pub(crate) fn scan_span(
    matcher: &Matcher,
    targets: &Vec<String>,
    source: &Note,
    span: &Span,
    case_insensitive: bool,
    notes: Ghost<Seq<Note>>,
) -> (r: Option<JsLink>)
    requires
        matcher.pattern() == corpus_pattern(notes@),
        matcher.case_insensitive() == case_insensitive,
        targets@.len() == notes@.len(),
        forall|k: int| 0 <= k < targets@.len() ==> #[trigger] targets@[k]@ == notes@[k].path@,
        span_fits(*span),
    ensures
        match r {
            Some(l) => span_link(*source, notes@, case_insensitive, *span) == Some(l@),
            None => span_link(*source, notes@, case_insensitive, *span) is None,
        },
        r matches Some(l) ==> offsets_agree(l@),
        r matches Some(l) ==> link_in_span(l@, *source, *span),
        r matches Some(l) ==> targets_one_of(l@, notes@),
{
    match &span.text {
        None => None,
        Some(t) => {
            let caps = captures(matcher, t.as_str());
            match get_first_capture(&caps, targets.len()) {
                None => None,
                Some((s, e, text, g)) => {
                    proof {
                        let groups = caps->0@;
                        lemma_lowest_group_wins(captures_view(caps), targets.len() as nat);
                        assert(groups_view(groups)[g as int] == group_view(groups[g as int]));
                        assert(encode_utf8(text@).len() == e - s);
                        assert(targets@[g - 1]@ == notes@[g - 1].path@);
                    }
                    let start = span.start + s as u32;
                    let end = span.start + e as u32;
                    Some(JsLink::new(source.path.clone(), targets[g - 1].clone(), text, start, end))
                },
            }
        },
    }
}

} // verus!
