use vstd::prelude::*;

use crate::linker::{failed_paths, resolved, without_self, LinkError};
use crate::scan::{file_links, first_capture, first_group_from};
use crate::note::{LinkView, ParseOutcome};
use crate::pattern::parsed_notes;

verus! {

broadcast use vstd::seq_lib::group_seq_properties;

proof fn lemma_parsed_notes_append(a: Seq<ParseOutcome>, b: Seq<ParseOutcome>)
    ensures
        parsed_notes(a + b) == parsed_notes(a) + parsed_notes(b),
    decreases b.len(),
{
    if b.len() == 0 {
        assert(a + b =~= a);
        assert(parsed_notes(b) =~= Seq::empty());
        assert(parsed_notes(a) + parsed_notes(b) =~= parsed_notes(a));
    } else {
        assert((a + b).drop_last() =~= a + b.drop_last());
        lemma_parsed_notes_append(a, b.drop_last());
        assert(parsed_notes(a + b) =~= parsed_notes(a) + parsed_notes(b));
    }
}

proof fn lemma_failed_paths_append(a: Seq<ParseOutcome>, b: Seq<ParseOutcome>)
    ensures
        failed_paths(a + b) == failed_paths(a) + failed_paths(b),
    decreases b.len(),
{
    if b.len() == 0 {
        assert(a + b =~= a);
        assert(failed_paths(a) + failed_paths(b) =~= failed_paths(a));
    } else {
        assert((a + b).drop_last() =~= a + b.drop_last());
        lemma_failed_paths_append(a, b.drop_last());
        assert(failed_paths(a + b) =~= failed_paths(a) + failed_paths(b));
    }
}

proof fn lemma_file_links_append(
    a: Seq<ParseOutcome>,
    b: Seq<ParseOutcome>,
    notes: Seq<crate::note::Note>,
    case_insensitive: bool,
)
    ensures
        file_links(a + b, notes, case_insensitive) == file_links(a, notes, case_insensitive)
            + file_links(b, notes, case_insensitive),
    decreases b.len(),
{
    if b.len() == 0 {
        assert(a + b =~= a);
        assert(file_links(a, notes, case_insensitive) + file_links(b, notes, case_insensitive)
            =~= file_links(a, notes, case_insensitive));
    } else {
        assert((a + b).drop_last() =~= a + b.drop_last());
        lemma_file_links_append(a, b.drop_last(), notes, case_insensitive);
        assert(file_links(a + b, notes, case_insensitive) =~= file_links(a, notes, case_insensitive)
            + file_links(b, notes, case_insensitive));
    }
}

/// Without self-links, a run yields exactly the links of the run with them
/// whose source differs from their target, in the same order; both runs fail
/// alike when the pattern does not compile.
pub proof fn lemma_self_link_filter(files: Seq<ParseOutcome>, case_insensitive: bool)
    ensures
        match (resolved(files, case_insensitive, true), resolved(files, case_insensitive, false)) {
            (Ok(all), Ok(kept)) => {
                &&& kept == without_self(all)
                &&& forall|k: int| 0 <= k < kept.len() ==> (#[trigger] kept[k]).source != kept[k].target
                &&& forall|l: LinkView| #[trigger]
                    all.contains(l) && l.source != l.target ==> kept.contains(l)
            },
            (Err(a), Err(b)) => a == b,
            _ => false,
        },
{
    if let Ok(all) = resolved(files, case_insensitive, true) {
        let pred = |l: LinkView| l.source != l.target;
        let kept = all.filter(pred);
        assert forall|k: int| 0 <= k < kept.len() implies (#[trigger] kept[k]).source != kept[k].target by {
            all.lemma_filter_pred(pred, k);
        }
        assert forall|l: LinkView| #[trigger] all.contains(l) && l.source != l.target implies kept.contains(l) by {
            all.lemma_filter_contains_rev(pred, l);
        }
    }
}

/// A file that failed to parse changes no link: the corpus without it gives
/// the same outcome, and its path is the one it adds to the failed paths, at
/// its place in corpus order.
pub proof fn lemma_failure_isolated(
    files: Seq<ParseOutcome>,
    i: int,
    case_insensitive: bool,
    link_to_self: bool,
)
    requires
        0 <= i < files.len(),
        files[i] is Failed,
    ensures
        resolved(files.remove(i), case_insensitive, link_to_self) == resolved(
            files,
            case_insensitive,
            link_to_self,
        ),
        failed_paths(files) == failed_paths(files.take(i)) + seq![files[i]->Failed_path@]
            + failed_paths(files.skip(i + 1)),
{
    let a = files.take(i);
    let b = files.skip(i + 1);
    let one = seq![files[i]];
    assert(files =~= a + one + b);
    assert(files.remove(i) =~= a + b);
    assert(one.drop_last() =~= Seq::<ParseOutcome>::empty());
    assert(one.last() == files[i]);
    assert(parsed_notes(Seq::<ParseOutcome>::empty()) =~= Seq::empty());
    assert(failed_paths(Seq::<ParseOutcome>::empty()) =~= Seq::empty());
    assert(parsed_notes(one) =~= Seq::empty());
    assert(failed_paths(one) =~= seq![files[i]->Failed_path@]);
    lemma_parsed_notes_append(a + one, b);
    lemma_parsed_notes_append(a, one);
    lemma_parsed_notes_append(a, b);
    assert(parsed_notes(a) + parsed_notes(one) =~= parsed_notes(a));
    lemma_failed_paths_append(a + one, b);
    lemma_failed_paths_append(a, one);
    let notes = parsed_notes(files);
    lemma_file_links_append(a + one, b, notes, case_insensitive);
    lemma_file_links_append(a, one, notes, case_insensitive);
    lemma_file_links_append(a, b, notes, case_insensitive);
    assert(file_links(one, notes, case_insensitive) =~= Seq::empty());
    assert(file_links(a, notes, case_insensitive) + file_links(one, notes, case_insensitive)
        =~= file_links(a, notes, case_insensitive));
}

/// Two runs over the same corpus with the same flags give the same outcome.
pub proof fn lemma_deterministic(
    files: Seq<ParseOutcome>,
    again: Seq<ParseOutcome>,
    case_insensitive: bool,
    link_to_self: bool,
)
    requires
        files == again,
    ensures
        resolved(files, case_insensitive, link_to_self) == resolved(again, case_insensitive, link_to_self),
{
}

/// When several groups take part in a match, the one with the lowest index is
/// picked: it matched, and no group before it did.
pub proof fn lemma_lowest_group_wins(
    caps: Option<Seq<Option<(usize, usize, Seq<char>)>>>,
    n: nat,
)
    ensures
        first_capture(caps, n) matches Some(m) ==> {
            let groups = caps->0;
            &&& 1 <= m.3 <= n
            &&& m.3 < groups.len()
            &&& groups[m.3 as int] == Some((m.0, m.1, m.2))
            &&& forall|k: int| 1 <= k < m.3 ==> (#[trigger] groups[k]) is None
        },
{
    if let Some(groups) = caps {
        lemma_first_group_from(groups, 1, n);
    }
}

proof fn lemma_first_group_from(groups: Seq<Option<(usize, usize, Seq<char>)>>, i: nat, n: nat)
    requires
        i >= 1,
    ensures
        first_group_from(groups, i, n) matches Some(k) ==> {
            &&& i <= k <= n
            &&& k < groups.len()
            &&& groups[k as int] is Some
            &&& forall|j: int| i <= j < k ==> (#[trigger] groups[j]) is None
        },
    decreases n + 1 - i,
{
    if i <= n && i < groups.len() && groups[i as int] is None {
        lemma_first_group_from(groups, i + 1, n);
    }
}

} // verus!
