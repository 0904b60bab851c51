use vstd::prelude::*;
use vstd::string::*;

use crate::matcher::{escape, escaped};
use crate::note::{Note, ParseOutcome};

verus! {

/// The identity strings of a note: its title, then its aliases in order.
pub open spec fn identities(n: Note) -> Seq<Seq<char>> {
    seq![n.title@] + match n.aliases {
        Some(a) => a@.map_values(|s: String| s@),
        None => Seq::empty(),
    }
}

/// The notes that parsed, in corpus order.
pub open spec fn parsed_notes(files: Seq<ParseOutcome>) -> Seq<Note>
    decreases files.len(),
{
    if files.len() == 0 {
        Seq::empty()
    } else {
        let rest = parsed_notes(files.drop_last());
        match files.last() {
            ParseOutcome::Parsed(n) => rest.push(n),
            ParseOutcome::Failed { .. } => rest,
        }
    }
}

/// The parts separated by `|`.
pub open spec fn alternatives(parts: Seq<Seq<char>>) -> Seq<char>
    decreases parts.len(),
{
    if parts.len() == 0 {
        Seq::empty()
    } else if parts.len() == 1 {
        parts[0]
    } else {
        alternatives(parts.drop_last()) + seq!['|'] + parts.last()
    }
}

/// One identity, escaped and held between word boundaries: `(?:\b<id>\b)`.
pub open spec fn identity_pattern(id: Seq<char>) -> Seq<char> {
    seq!['(', '?', ':', '\\', 'b'] + escaped(id) + seq!['\\', 'b', ')']
}

/// The capturing group of one note: the alternation of its identities.
pub open spec fn note_group(n: Note) -> Seq<char> {
    seq!['('] + alternatives(identities(n).map_values(|id: Seq<char>| identity_pattern(id)))
        + seq![')']
}

/// The pattern of a whole corpus: one group per parsed note, in corpus order.
pub open spec fn corpus_pattern(notes: Seq<Note>) -> Seq<char> {
    alternatives(notes.map_values(|n: Note| note_group(n)))
}

proof fn lemma_alternatives_step(parts: Seq<Seq<char>>, i: int)
    requires
        0 <= i < parts.len(),
    ensures
        alternatives(parts.take(i + 1)) == if i == 0 {
            parts[0]
        } else {
            alternatives(parts.take(i)) + seq!['|'] + parts[i]
        },
{
    assert(parts.take(i + 1).drop_last() =~= parts.take(i));
}

/// Appends `part` to `out` as the alternative after `count` earlier ones.
fn push_alternative(out: &mut String, count: usize, part: &str)
    ensures
        final(out)@ == if count == 0 {
            old(out)@ + part@
        } else {
            old(out)@ + seq!['|'] + part@
        },
{
    if count > 0 {
        proof {
            reveal_strlit("|");
        }
        out.append("|");
    }
    out.append(part);
}

/// Builds `(?:\b<id>\b)` with `id` escaped.
pub fn identity_regex(id: &str) -> (r: String)
    ensures
        r@ == identity_pattern(id@),
{
    let e = escape(id);
    proof {
        reveal_strlit("(?:\\b");
        reveal_strlit("\\b)");
    }
    let mut r = String::from_str("(?:\\b");
    r.append(e.as_str());
    r.append("\\b)");
    r
}

/// Builds the capturing group of one note.
pub fn note_regex(note: &Note) -> (r: String)
    ensures
        r@ == note_group(*note),
{
    let ghost parts = identities(*note).map_values(|id: Seq<char>| identity_pattern(id));
    proof {
        reveal_strlit("(");
        reveal_strlit(")");
    }
    let mut r = String::from_str("(");
    let t = identity_regex(note.title.as_str());
    push_alternative(&mut r, 0, t.as_str());
    proof {
        lemma_alternatives_step(parts, 0);
    }
    match &note.aliases {
        Some(aliases) => {
            let mut i: usize = 0;
            while i < aliases.len()
                invariant
                    parts == identities(*note).map_values(|id: Seq<char>| identity_pattern(id)),
                    note.aliases == Some(*aliases),
                    i <= aliases.len(),
                    r@ == seq!['('] + alternatives(parts.take(i + 1)),
                decreases aliases.len() - i,
            {
                let a = identity_regex(aliases[i].as_str());
                proof {
                    lemma_alternatives_step(parts, i + 1);
                    assert(parts[i + 1] == identity_pattern(aliases@[i as int]@));
                }
                push_alternative(&mut r, i + 1, a.as_str());
                i = i + 1;
            }
            assert(parts.take(i + 1) =~= parts);
        },
        None => {
            assert(parts.take(1) =~= parts);
        },
    }
    r.append(")");
    r
}

/// Builds the pattern of the whole corpus from the notes that parsed.
pub fn combined_regex(files: &Vec<ParseOutcome>) -> (r: String)
    ensures
        r@ == corpus_pattern(parsed_notes(files@)),
{
    let mut r = String::new();
    let mut count: usize = 0;
    let mut i: usize = 0;
    while i < files.len()
        invariant
            i <= files.len(),
            count == parsed_notes(files@.take(i as int)).len(),
            count <= i,
            r@ == corpus_pattern(parsed_notes(files@.take(i as int))),
        decreases files.len() - i,
    {
        let ghost before = parsed_notes(files@.take(i as int));
        assert(files@.take(i + 1).drop_last() =~= files@.take(i as int));
        match &files[i] {
            ParseOutcome::Parsed(n) => {
                let g = note_regex(n);
                push_alternative(&mut r, count, g.as_str());
                proof {
                    let now = parsed_notes(files@.take(i + 1));
                    let parts = now.map_values(|n: Note| note_group(n));
                    assert(now == before.push(*n));
                    lemma_alternatives_step(parts, count as int);
                    assert(parts.take(count + 1) =~= parts);
                    assert(parts.take(count as int) =~= before.map_values(|n: Note| note_group(n)));
                }
                count = count + 1;
            },
            ParseOutcome::Failed { .. } => {},
        }
        i = i + 1;
    }
    assert(files@.take(i as int) =~= files@);
    r
}

} // verus!
