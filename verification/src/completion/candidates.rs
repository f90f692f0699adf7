//! The entries of a directory, their order, and the candidates among them.

use crate::text::{
    case_key, chars_of, fold_case, has_prefix_ignoring_case, starts_with_ignoring_case,
    string_of,
};
use vstd::prelude::*;

verus! {

/// One entry of a directory: its name, without the directory, and whether
/// it is a directory itself.
#[derive(Clone, PartialEq, Eq, Debug)]
pub struct DirEntry {
    pub name: String,
    pub is_dir: bool,
}

/// An entry, as specifications see it.
pub struct EntryView {
    pub name: Seq<char>,
    pub is_dir: bool,
}

impl View for DirEntry {
    type V = EntryView;

    open spec fn view(&self) -> EntryView {
        EntryView { name: self.name@, is_dir: self.is_dir }
    }
}

impl DeepView for DirEntry {
    type V = EntryView;

    open spec fn deep_view(&self) -> EntryView {
        self@
    }
}

/// An entry with its name as characters.
pub struct Candidate {
    pub name: Vec<char>,
    pub is_dir: bool,
}

impl View for Candidate {
    type V = EntryView;

    open spec fn view(&self) -> EntryView {
        EntryView { name: self.name@, is_dir: self.is_dir }
    }
}

impl DeepView for Candidate {
    type V = EntryView;

    open spec fn deep_view(&self) -> EntryView {
        self@
    }
}

/// The names of `entries`, in their order.
pub open spec fn names_of(entries: Seq<EntryView>) -> Seq<Seq<char>> {
    Seq::new(entries.len(), |i: int| entries[i].name)
}

/// `a` comes before `b`, or with it, in the order of the dictionary, case
/// ignored.
pub open spec fn name_le(a: Seq<char>, b: Seq<char>) -> bool
    decreases a.len(),
{
    if a.len() == 0 {
        true
    } else if b.len() == 0 {
        false
    } else if fold_case(a[0]) != fold_case(b[0]) {
        fold_case(a[0]) < fold_case(b[0])
    } else {
        name_le(a.drop_first(), b.drop_first())
    }
}

/// No entry comes before one that precedes it in the order of the names.
pub open spec fn sorted_by_name(entries: Seq<EntryView>) -> bool {
    forall|i: int, j: int|
        0 <= i < j < entries.len() ==> name_le(
            (#[trigger] entries[i]).name,
            (#[trigger] entries[j]).name,
        )
}

/// Of two names one comes before the other, or with it.
pub proof fn lemma_name_le_total(a: Seq<char>, b: Seq<char>)
    ensures
        name_le(a, b) || name_le(b, a),
    decreases a.len(),
{
    if a.len() > 0 && b.len() > 0 && fold_case(a[0]) == fold_case(b[0]) {
        lemma_name_le_total(a.drop_first(), b.drop_first());
    }
}

/// What comes before a name comes before all that the name comes before.
pub proof fn lemma_name_le_transitive(a: Seq<char>, b: Seq<char>, c: Seq<char>)
    requires
        name_le(a, b),
        name_le(b, c),
    ensures
        name_le(a, c),
    decreases a.len(),
{
    if a.len() > 0 && b.len() > 0 && c.len() > 0 {
        if fold_case(a[0]) == fold_case(b[0]) && fold_case(b[0]) == fold_case(c[0]) {
            lemma_name_le_transitive(a.drop_first(), b.drop_first(), c.drop_first());
        }
    }
}

/// Where an entry called `name` goes into `sorted`: behind the last entry
/// that does not come after it.
pub open spec fn insertion_point(sorted: Seq<EntryView>, name: Seq<char>) -> int
    decreases sorted.len(),
{
    if sorted.len() == 0 || name_le(sorted.last().name, name) {
        sorted.len() as int
    } else {
        insertion_point(sorted.drop_last(), name)
    }
}

/// The candidates for `prefix` among `entries`: the entries whose names
/// begin with `prefix`, case ignored, in the order of their names. They are
/// taken one after another, each to its insertion point among those taken
/// before it.
pub open spec fn candidates(entries: Seq<EntryView>, prefix: Seq<char>) -> Seq<EntryView>
    decreases entries.len(),
{
    if entries.len() == 0 {
        Seq::empty()
    } else {
        let before = candidates(entries.drop_last(), prefix);
        let entry = entries.last();
        if starts_with_ignoring_case(entry.name, prefix) {
            before.insert(insertion_point(before, entry.name), entry)
        } else {
            before
        }
    }
}

/// The insertion point lies in `sorted`, behind an entry that does not
/// come after `name` and before all entries that do.
pub proof fn lemma_insertion_point(sorted: Seq<EntryView>, name: Seq<char>)
    ensures
        0 <= insertion_point(sorted, name) <= sorted.len(),
        insertion_point(sorted, name) > 0 ==> name_le(
            sorted[insertion_point(sorted, name) - 1].name,
            name,
        ),
        forall|j: int|
            insertion_point(sorted, name) <= j < sorted.len() ==> !name_le(
                (#[trigger] sorted[j]).name,
                name,
            ),
    decreases sorted.len(),
{
    if sorted.len() > 0 && !name_le(sorted.last().name, name) {
        let t = sorted.drop_last();
        lemma_insertion_point(t, name);
        let p = insertion_point(sorted, name);
        assert forall|j: int| p <= j < sorted.len() implies !name_le(
            (#[trigger] sorted[j]).name,
            name,
        ) by {
            if j < t.len() {
                assert(sorted[j] == t[j]);
            }
        }
        if p > 0 {
            assert(sorted[p - 1] == t[p - 1]);
        }
    }
}

/// An entry that goes in at its insertion point leaves the order intact.
pub proof fn lemma_insert_keeps_order(sorted: Seq<EntryView>, entry: EntryView)
    requires
        sorted_by_name(sorted),
    ensures
        sorted_by_name(sorted.insert(insertion_point(sorted, entry.name), entry)),
{
    let p = insertion_point(sorted, entry.name);
    let after = sorted.insert(p, entry);
    lemma_insertion_point(sorted, entry.name);
    assert forall|i: int, j: int| 0 <= i < j < after.len() implies name_le(
        (#[trigger] after[i]).name,
        (#[trigger] after[j]).name,
    ) by {
        if i < p && j == p {
            assert(after[i] == sorted[i]);
            if i < p - 1 {
                assert(name_le(sorted[i].name, sorted[p - 1].name));
                lemma_name_le_transitive(sorted[i].name, sorted[p - 1].name, entry.name);
            }
        } else if i == p {
            assert(after[j] == sorted[j - 1]);
            assert(!name_le(sorted[j - 1].name, entry.name));
            lemma_name_le_total(entry.name, sorted[j - 1].name);
        } else if j < p {
            assert(after[i] == sorted[i] && after[j] == sorted[j]);
        } else if i < p {
            assert(after[i] == sorted[i] && after[j] == sorted[j - 1]);
        } else {
            assert(after[i] == sorted[i - 1] && after[j] == sorted[j - 1]);
        }
    }
}

/// The candidates stand in the order of their names.
pub proof fn lemma_candidates_sorted(entries: Seq<EntryView>, prefix: Seq<char>)
    ensures
        sorted_by_name(candidates(entries, prefix)),
    decreases entries.len(),
{
    if entries.len() > 0 {
        lemma_candidates_sorted(entries.drop_last(), prefix);
        if starts_with_ignoring_case(entries.last().name, prefix) {
            lemma_insert_keeps_order(candidates(entries.drop_last(), prefix), entries.last());
        }
    }
}

/// The candidates are the entries that match, each as often as it was
/// given, and nothing else.
pub proof fn lemma_candidates_are_the_matches(
    entries: Seq<EntryView>,
    prefix: Seq<char>,
    entry: EntryView,
)
    ensures
        candidates(entries, prefix).to_multiset().count(entry) == if starts_with_ignoring_case(
            entry.name,
            prefix,
        ) {
            entries.to_multiset().count(entry)
        } else {
            0
        },
    decreases entries.len(),
{
    broadcast use vstd::seq_lib::group_to_multiset_ensures;

    if entries.len() == 0 {
        assert(candidates(entries, prefix) == Seq::<EntryView>::empty());
        assert(entries == Seq::<EntryView>::empty());
    } else {
        let before = entries.drop_last();
        lemma_candidates_are_the_matches(before, prefix, entry);
        assert(entries == before.push(entries.last()));
        let sorted = candidates(before, prefix);
        lemma_insertion_point(sorted, entries.last().name);
    }
}

/// Every candidate begins with the prefix, and there are no more candidates
/// than entries.
pub proof fn lemma_candidates_match(entries: Seq<EntryView>, prefix: Seq<char>)
    ensures
        candidates(entries, prefix).len() <= entries.len(),
        forall|i: int|
            0 <= i < candidates(entries, prefix).len() ==> starts_with_ignoring_case(
                (#[trigger] candidates(entries, prefix)[i]).name,
                prefix,
            ),
    decreases entries.len(),
{
    if entries.len() > 0 {
        let before = candidates(entries.drop_last(), prefix);
        lemma_candidates_match(entries.drop_last(), prefix);
        if starts_with_ignoring_case(entries.last().name, prefix) {
            lemma_insertion_point(before, entries.last().name);
            let p = insertion_point(before, entries.last().name);
            let after = before.insert(p, entries.last());
            assert forall|i: int| 0 <= i < after.len() implies starts_with_ignoring_case(
                (#[trigger] after[i]).name,
                prefix,
            ) by {
                if i < p {
                    assert(after[i] == before[i]);
                } else if i > p {
                    assert(after[i] == before[i - 1]);
                }
            }
        }
    }
}

/// Every entry that matches is among the candidates.
pub proof fn lemma_match_is_candidate(entries: Seq<EntryView>, prefix: Seq<char>, i: int)
    requires
        0 <= i < entries.len(),
        starts_with_ignoring_case(entries[i].name, prefix),
    ensures
        candidates(entries, prefix).contains(entries[i]),
{
    broadcast use vstd::seq_lib::group_to_multiset_ensures;

    lemma_candidates_are_the_matches(entries, prefix, entries[i]);
    assert(entries.contains(entries[i]));
}

/// Two prefixes that the same entries begin with have the same candidates.
pub proof fn lemma_candidates_depend_on_the_matches(
    entries: Seq<EntryView>,
    prefix: Seq<char>,
    other: Seq<char>,
)
    requires
        forall|i: int|
            0 <= i < entries.len() ==> starts_with_ignoring_case(
                (#[trigger] entries[i]).name,
                prefix,
            ) == starts_with_ignoring_case(entries[i].name, other),
    ensures
        candidates(entries, prefix) == candidates(entries, other),
    decreases entries.len(),
{
    if entries.len() > 0 {
        let before = entries.drop_last();
        assert forall|i: int| 0 <= i < before.len() implies starts_with_ignoring_case(
            (#[trigger] before[i]).name,
            prefix,
        ) == starts_with_ignoring_case(before[i].name, other) by {
            assert(before[i] == entries[i]);
        }
        lemma_candidates_depend_on_the_matches(before, prefix, other);
        assert(entries.last() == entries[entries.len() - 1]);
    }
}

/// Whether `a` comes before `b`, or with it, in the order of the names.
pub fn name_precedes(a: &Vec<char>, b: &Vec<char>) -> (r: bool)
    ensures
        r == name_le(a@, b@),
{
    let mut i: usize = 0;
    assert(a@.skip(0) == a@ && b@.skip(0) == b@);
    loop
        invariant
            i <= a.len(),
            i <= b.len(),
            name_le(a@, b@) == name_le(a@.skip(i as int), b@.skip(i as int)),
        decreases a.len() - i,
    {
        if i == a.len() {
            return true;
        }
        if i == b.len() {
            return false;
        }
        proof {
            assert(a@.skip(i as int)[0] == a@[i as int]);
            assert(b@.skip(i as int)[0] == b@[i as int]);
            assert(a@.skip(i as int).drop_first() == a@.skip(i + 1));
            assert(b@.skip(i as int).drop_first() == b@.skip(i + 1));
        }
        let ka = case_key(a[i]);
        let kb = case_key(b[i]);
        if ka != kb {
            return ka < kb;
        }
        i += 1;
    }
}

/// The candidates for `prefix` among `entries`.
pub fn gather(entries: &Vec<DirEntry>, prefix: &Vec<char>) -> (r: Vec<Candidate>)
    ensures
        r.deep_view() == candidates(entries.deep_view(), prefix@),
{
    let mut out: Vec<Candidate> = Vec::new();
    let ghost all = entries.deep_view();
    let mut i: usize = 0;
    assert(all.take(0) == Seq::<EntryView>::empty());
    assert(out.deep_view() == Seq::<EntryView>::empty());
    while i < entries.len()
        invariant
            i <= entries.len(),
            all == entries.deep_view(),
            out.deep_view() == candidates(all.take(i as int), prefix@),
        decreases entries.len() - i,
    {
        let ghost before = out.deep_view();
        proof {
            assert(all.take(i + 1).drop_last() == all.take(i as int));
            assert(all.take(i + 1).last() == entries@[i as int]@);
        }
        let name = chars_of(entries[i].name.as_str());
        if has_prefix_ignoring_case(&name, prefix) {
            let mut p: usize = out.len();
            assert(before.take(p as int) == before);
            while p > 0 && !name_precedes(&out[p - 1].name, &name)
                invariant
                    p <= out.len(),
                    before == out.deep_view(),
                    insertion_point(before, name@) == insertion_point(
                        before.take(p as int),
                        name@,
                    ),
                decreases p,
            {
                proof {
                    assert(before.take(p as int).last() == out@[p - 1]@);
                    assert(before.take(p as int).drop_last() == before.take(p - 1));
                }
                p -= 1;
            }
            proof {
                if p > 0 {
                    assert(before.take(p as int).last() == out@[p - 1]@);
                }
            }
            let candidate = Candidate { name, is_dir: entries[i].is_dir };
            out.insert(p, candidate);
            assert(out.deep_view() == before.insert(p as int, entries@[i as int]@));
        }
        i += 1;
    }
    assert(all.take(i as int) == all);
    out
}

/// The names of `found`, as strings.
pub fn names_as_strings(found: &Vec<Candidate>) -> (r: Vec<String>)
    ensures
        r.deep_view() == names_of(found.deep_view()),
{
    let mut out: Vec<String> = Vec::new();
    let mut i: usize = 0;
    while i < found.len()
        invariant
            i <= found.len(),
            out.len() == i,
            forall|j: int| 0 <= j < i ==> (#[trigger] out@[j])@ == found@[j].name@,
        decreases found.len() - i,
    {
        out.push(string_of(&found[i].name));
        i += 1;
    }
    assert(out.deep_view() == names_of(found.deep_view())) by {
        let want = names_of(found.deep_view());
        assert(out.deep_view().len() == want.len());
        assert forall|j: int| 0 <= j < want.len() implies out.deep_view()[j] == want[j] by {
            assert(out.deep_view()[j] == out@[j]@);
            assert(found.deep_view()[j] == found@[j]@);
        }
    }
    out
}

} // verus!
