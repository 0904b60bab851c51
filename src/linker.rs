use vstd::prelude::*;

use crate::matcher::{compile, regex_builds};
use crate::note::{JsLink, LinkView, ParseOutcome};
use crate::pattern::{combined_regex, corpus_pattern, parsed_notes};
use crate::scan::{
    file_links, link_from, link_in_span, note_paths, well_placed, offsets_fit, option_seq, scan_span, span_fits, span_link,
    span_links,
};

verus! {

/// Why a resolution run could not take place.
#[derive(Debug, PartialEq, Eq, Structural)]
pub enum LinkError {
    /// The combined pattern of the corpus did not compile.
    InvalidPattern,
}

/// `links` without those whose source is their target.
pub open spec fn without_self(links: Seq<LinkView>) -> Seq<LinkView> {
    links.filter(|l: LinkView| l.source != l.target)
}

/// The outcome of a resolution run over `files`.
pub open spec fn resolved(files: Seq<ParseOutcome>, case_insensitive: bool, link_to_self: bool) -> Result<
    Seq<LinkView>,
    LinkError,
> {
    let notes = parsed_notes(files);
    if !regex_builds(corpus_pattern(notes), case_insensitive) {
        Err(LinkError::InvalidPattern)
    } else {
        let all = file_links(files, notes, case_insensitive);
        Ok(
            if link_to_self {
                all
            } else {
                without_self(all)
            },
        )
    }
}

/// The paths of the files that failed to parse, in corpus order.
pub open spec fn failed_paths(files: Seq<ParseOutcome>) -> Seq<Seq<char>>
    decreases files.len(),
{
    if files.len() == 0 {
        Seq::empty()
    } else {
        let rest = failed_paths(files.drop_last());
        match files.last() {
            ParseOutcome::Parsed(_) => rest,
            ParseOutcome::Failed { path, .. } => rest.push(path@),
        }
    }
}

/// The mathematical values of `v`'s links.
pub open spec fn links_view(v: Seq<JsLink>) -> Seq<LinkView> {
    v.map_values(|l: JsLink| l@)
}

/// Keeps the links whose source differs from their target, in order.
pub fn drop_self_links(links: Vec<JsLink>) -> (r: Vec<JsLink>)
    ensures
        links_view(r@) == without_self(links_view(links@)),
        forall|k: int| 0 <= k < r@.len() ==> links_view(links@).contains(#[trigger] r@[k]@),
{
    let ghost all = links_view(links@);
    let mut r: Vec<JsLink> = Vec::new();
    let mut i: usize = 0;
    while i < links.len()
        invariant
            i <= links@.len(),
            all == links_view(links@),
            links_view(r@) == without_self(all.take(i as int)),
        decreases links@.len() - i,
    {
        let l = &links[i];
        proof {
            reveal(Seq::filter);
            assert(all.take(i + 1).drop_last() =~= all.take(i as int));
        }
        if !l.is_self_link() {
            let kept = JsLink::new(l.get_source(), l.get_target(), l.get_link_text(), l.get_start(), l.get_end());
            r.push(kept);
            assert(links_view(r@) =~= links_view(r@.drop_last()).push(l@));
        }
        i = i + 1;
    }
    assert(all.take(i as int) =~= all);
    assert forall|k: int| 0 <= k < r@.len() implies all.contains(#[trigger] r@[k]@) by {
        assert(links_view(r@)[k] == r@[k]@);
        all.lemma_filter_contains_rev(|l: LinkView| l.source != l.target, r@[k]@);
    }
    r
}

/// The notes of a workspace, as parsed, from which cross-references are resolved.
pub struct JsLinker {
    files: Vec<ParseOutcome>,
}

impl JsLinker {
    /// The parse outcomes, one per input file, in corpus order.
    pub closed spec fn files(&self) -> Seq<ParseOutcome> {
        self.files@
    }

    pub fn new(files: Vec<ParseOutcome>) -> (r: JsLinker)
        ensures
            r.files() == files@,
    {
        JsLinker { files }
    }

    /// The paths of the files that failed to parse, in corpus order.
    pub fn get_bad_parse_files(&self) -> (r: Vec<String>)
        ensures
            r@.map_values(|s: String| s@) == failed_paths(self.files()),
    {
        let mut r: Vec<String> = Vec::new();
        let mut i: usize = 0;
        while i < self.files.len()
            invariant
                i <= self.files@.len(),
                r@.map_values(|s: String| s@) == failed_paths(self.files@.take(i as int)),
            decreases self.files@.len() - i,
        {
            assert(self.files@.take(i + 1).drop_last() =~= self.files@.take(i as int));
            match &self.files[i] {
                ParseOutcome::Parsed(_) => {},
                ParseOutcome::Failed { path, .. } => {
                    r.push(path.clone());
                    assert(r@.map_values(|s: String| s@) =~= failed_paths(self.files@.take(i as int)).push(path@));
                },
            }
            i = i + 1;
        }
        assert(self.files@.take(i as int) =~= self.files@);
        r
    }

    /// Every reference between the parsed notes: for each span, in corpus and
    /// document order, the leftmost mention of a note's title or alias. Links
    /// from a note to itself are kept only when `link_to_self` holds.
    pub fn get_links(&self, case_insensitive: bool, link_to_self: bool) -> (r: Result<
        Vec<JsLink>,
        LinkError,
    >)
        requires
            offsets_fit(self.files()),
        ensures
            match r {
                Ok(v) => resolved(self.files(), case_insensitive, link_to_self) == Ok::<
                    Seq<LinkView>,
                    LinkError,
                >(links_view(v@)),
                Err(e) => resolved(self.files(), case_insensitive, link_to_self) == Err::<
                    Seq<LinkView>,
                    LinkError,
                >(e),
            },
            r matches Ok(v) ==> forall|k: int|
                0 <= k < v@.len() ==> well_placed(#[trigger] v@[k]@, self.files()),
    {
        let ghost notes = parsed_notes(self.files@);
        let pattern = combined_regex(&self.files);
        let matcher = match compile(&pattern, case_insensitive) {
            Ok(m) => m,
            Err(_) => {
                return Err(LinkError::InvalidPattern);
            },
        };
        let targets = note_paths(&self.files);
        let mut links: Vec<JsLink> = Vec::new();
        let mut i: usize = 0;
        while i < self.files.len()
            invariant
                i <= self.files@.len(),
                notes == parsed_notes(self.files@),
                offsets_fit(self.files@),
                matcher.pattern() == corpus_pattern(notes),
                matcher.case_insensitive() == case_insensitive,
                targets@.len() == notes.len(),
                forall|k: int| 0 <= k < targets@.len() ==> #[trigger] targets@[k]@ == notes[k].path@,
                links_view(links@) == file_links(self.files@.take(i as int), notes, case_insensitive),
                forall|k: int| 0 <= k < links@.len() ==> well_placed(#[trigger] links@[k]@, self.files@),
            decreases self.files@.len() - i,
        {
            assert(self.files@.take(i + 1).drop_last() =~= self.files@.take(i as int));
            match &self.files[i] {
                ParseOutcome::Parsed(n) => {
                    let ghost before = links_view(links@);
                    let mut j: usize = 0;
                    while j < n.spans.len()
                        invariant
                            j <= n.spans@.len(),
                            self.files@[i as int] == ParseOutcome::Parsed(*n),
                            notes == parsed_notes(self.files@),
                            0 <= i < self.files@.len(),
                            offsets_fit(self.files@),
                            matcher.pattern() == corpus_pattern(notes),
                            matcher.case_insensitive() == case_insensitive,
                            targets@.len() == notes.len(),
                            forall|k: int| 0 <= k < targets@.len() ==> #[trigger] targets@[k]@ == notes[k].path@,
                            links_view(links@) == before + span_links(*n, n.spans@.take(j as int), notes, case_insensitive),
                            forall|k: int| 0 <= k < links@.len() ==> well_placed(#[trigger] links@[k]@, self.files@),
                        decreases n.spans@.len() - j,
                    {
                        assert(n.spans@.take(j + 1).drop_last() =~= n.spans@.take(j as int));
                        assert(span_fits(self.files@[i as int]->Parsed_0.spans@[j as int]));
                        let ghost prev = links_view(links@);
                        let ghost found_here = span_link(*n, notes, case_insensitive, n.spans@[j as int]);
                        assert(n.spans@.take(j + 1).last() == n.spans@[j as int]);
                        assert(span_links(*n, n.spans@.take(j + 1), notes, case_insensitive)
                            == span_links(*n, n.spans@.take(j as int), notes, case_insensitive) + option_seq(found_here));
                        let found = scan_span(&matcher, &targets, n, &n.spans[j], case_insensitive, Ghost(notes));
                        match found {
                            Some(l) => {
                                proof {
                                    let f = self.files@;
                                    assert(link_in_span(l@, f[i as int]->Parsed_0, f[i as int]->Parsed_0.spans@[j as int]));
                                    assert(link_from(l@, f));
                                }
                                let ghost old_links = links@;
                                links.push(l);
                                assert forall|k: int| 0 <= k < links@.len() implies well_placed(#[trigger] links@[k]@, self.files@) by {
                                    if k < old_links.len() {
                                        assert(links@[k] == old_links[k]);
                                    }
                                }
                                assert(links_view(links@) =~= prev + option_seq(found_here));
                            },
                            None => {
                                assert(option_seq(found_here) =~= Seq::<LinkView>::empty());
                            },
                        }
                        assert(links_view(links@) =~= before + span_links(*n, n.spans@.take(j + 1), notes, case_insensitive));
                        j = j + 1;
                    }
                    assert(n.spans@.take(j as int) =~= n.spans@);
                },
                ParseOutcome::Failed { .. } => {
                    assert(file_links(self.files@.take(i + 1), notes, case_insensitive) =~= file_links(self.files@.take(i as int), notes, case_insensitive));
                },
            }
            i = i + 1;
        }
        assert(self.files@.take(i as int) =~= self.files@);
        if link_to_self {
            Ok(links)
        } else {
            let kept = drop_self_links(links);
            assert forall|k: int| 0 <= k < kept@.len() implies well_placed(#[trigger] kept@[k]@, self.files@) by {
                let m = choose|m: int| 0 <= m < links@.len() && links_view(links@)[m] == kept@[k]@;
                assert(links_view(links@)[m] == links@[m]@);
                assert(well_placed(links@[m]@, self.files@));
            }
            Ok(kept)
        }
    }
}

} // verus!
