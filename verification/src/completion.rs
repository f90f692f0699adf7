//! Tab completion: the segment under the cursor, where its candidates come
//! from, and what becomes of it once they are known.
//!
//! Completion goes in three steps, with the file system asked in between.
//! `locate_segment` cuts the segment out of the line. `completion_source`
//! says where the entries for it are to be read: in a directory, or on the
//! search path. `complete` takes the entries found there and extends the
//! segment, or names the candidates to be shown.

pub mod candidates;
pub mod prefix;
pub mod segment;

use crate::completion::candidates::{
    candidates, gather, lemma_candidates_are_the_matches, lemma_candidates_depend_on_the_matches,
    lemma_candidates_match, lemma_candidates_sorted, lemma_insertion_point,
    lemma_match_is_candidate, names_as_strings, names_of, sorted_by_name, DirEntry, EntryView,
};
use crate::completion::prefix::{
    agree_at, common_prefix_len, lemma_agreement_below_common_prefix,
    lemma_common_prefix_is_shared, lemma_common_prefix_stops, longest_common_prefix,
};
use crate::completion::segment::{
    dir_len, dir_part, lemma_dir_len_bounds, lemma_dir_len_of_joined, name_part, split_point,
    Segment, SPACE,
};
use crate::text::{
    append_range, chars_of, fold_case, has_separator, starts_with_ignoring_case, string_of,
    string_of_range, SEPARATOR,
};
use vstd::prelude::*;
use vstd::string::*;

verus! {

/// Where the entries for a completion are to be read.
#[derive(Clone, PartialEq, Eq, Debug)]
pub enum Source {
    /// In every directory of the search path.
    SearchPath,
    /// In this directory.
    Directory(String),
}

/// A source, as specifications see it.
pub enum SourceView {
    SearchPath,
    Directory(Seq<char>),
}

impl View for Source {
    type V = SourceView;

    open spec fn view(&self) -> SourceView {
        match self {
            Source::SearchPath => SourceView::SearchPath,
            Source::Directory(path) => SourceView::Directory(path@),
        }
    }
}

/// The name of the current directory.
pub open spec fn current_directory() -> Seq<char> {
    seq!['.']
}

/// Where the entries for `segment` are to be read. An empty segment lists
/// the current directory, and one that names a directory lists that
/// directory. A command name, which is a first token without a separator, is
/// looked for on the search path. Anything else is looked for in the
/// directory that the segment holds before its name, or in the current
/// directory where it holds none.
pub open spec fn completion_source_spec(
    text: Seq<char>,
    first_token: bool,
    names_directory: bool,
) -> SourceView {
    if text.len() == 0 {
        SourceView::Directory(current_directory())
    } else if names_directory {
        SourceView::Directory(text)
    } else if !has_separator(text) {
        if first_token {
            SourceView::SearchPath
        } else {
            SourceView::Directory(current_directory())
        }
    } else {
        SourceView::Directory(dir_part(text))
    }
}

/// Where the entries for `segment` are to be read. `names_directory` says
/// whether the text of the segment is the path of an existing directory.
pub fn completion_source(segment: &Segment, names_directory: bool) -> (r: Source)
    ensures
        r@ == completion_source_spec(segment.text@, segment.first_token, names_directory),
{
    let v = chars_of(segment.text.as_str());
    if v.len() == 0 {
        let dot = String::from_str(".");
        proof {
            reveal_strlit(".");
            assert(dot@ == current_directory());
        }
        return Source::Directory(dot);
    }
    if names_directory {
        return Source::Directory(string_of(&v));
    }
    let cut = split_point(&v);
    proof {
        lemma_dir_len_bounds(v@);
    }
    if cut == 0 {
        if segment.first_token {
            Source::SearchPath
        } else {
            let dot = String::from_str(".");
            proof {
                reveal_strlit(".");
                assert(dot@ == current_directory());
            }
            Source::Directory(dot)
        }
    } else {
        let dir = string_of_range(&v, 0, cut);
        Source::Directory(dir)
    }
}

/// What completion makes of a segment.
#[derive(Clone, PartialEq, Eq, Debug)]
pub enum Completion {
    /// Nothing: no entry matches.
    Unchanged,
    /// The segment becomes this text.
    Extended(String),
    /// The segment stays as it is, and these names are shown.
    Listed(Vec<String>),
}

/// A completion, as specifications see it.
pub enum CompletionView {
    Unchanged,
    Extended(Seq<char>),
    Listed(Seq<Seq<char>>),
}

impl View for Completion {
    type V = CompletionView;

    open spec fn view(&self) -> CompletionView {
        match self {
            Completion::Unchanged => CompletionView::Unchanged,
            Completion::Extended(text) => CompletionView::Extended(text@),
            Completion::Listed(names) => CompletionView::Listed(names.deep_view()),
        }
    }
}

/// What follows the name of a single candidate: a separator behind a
/// directory, a space behind a file.
pub open spec fn closing_mark(entry: EntryView) -> char {
    if entry.is_dir {
        SEPARATOR
    } else {
        SPACE
    }
}

/// What completion makes of the segment `text`, given whether it names an
/// existing directory and the entries read for it.
///
/// An empty segment, and one that names a directory, list all the entries.
/// Otherwise the candidates are the entries that begin with the name in the
/// segment. Without a candidate nothing happens. A single candidate
/// replaces the name, followed by its closing mark. Of several candidates
/// the common prefix replaces the name where it is longer than the name,
/// written as the first candidate has it; where it is not, the candidates
/// are listed.
pub open spec fn complete_spec(
    text: Seq<char>,
    names_directory: bool,
    entries: Seq<EntryView>,
) -> CompletionView {
    if text.len() == 0 || names_directory {
        CompletionView::Listed(names_of(candidates(entries, Seq::empty())))
    } else {
        let found = candidates(entries, name_part(text));
        if found.len() == 0 {
            CompletionView::Unchanged
        } else if found.len() == 1 {
            CompletionView::Extended(
                dir_part(text) + found[0].name + seq![closing_mark(found[0])],
            )
        } else {
            let k = common_prefix_len(names_of(found)) as int;
            if k > name_part(text).len() {
                CompletionView::Extended(dir_part(text) + found[0].name.take(k))
            } else {
                CompletionView::Listed(names_of(found))
            }
        }
    }
}

/// The segment after completion.
pub open spec fn segment_after(text: Seq<char>, completion: CompletionView) -> Seq<char> {
    match completion {
        CompletionView::Extended(extended) => extended,
        _ => text,
    }
}

/// What completion makes of the segment `text`. `names_directory` says
/// whether `text` is the path of an existing directory; `entries` are the
/// entries read where `completion_source` said.
pub fn complete(text: &str, names_directory: bool, entries: &Vec<DirEntry>) -> (r: Completion)
    ensures
        r@ == complete_spec(text@, names_directory, entries.deep_view()),
{
    let v = chars_of(text);
    if v.len() == 0 || names_directory {
        let all: Vec<char> = Vec::new();
        assert(all@ == Seq::<char>::empty());
        let found = gather(entries, &all);
        return Completion::Listed(names_as_strings(&found));
    }
    let cut = split_point(&v);
    let mut prefix: Vec<char> = Vec::new();
    let mut i: usize = cut;
    while i < v.len()
        invariant
            cut <= i <= v.len(),
            prefix@ == v@.subrange(cut as int, i as int),
        decreases v.len() - i,
    {
        prefix.push(v[i]);
        i += 1;
    }
    assert(prefix@ == name_part(v@));
    let found = gather(entries, &prefix);
    let ghost seen = candidates(entries.deep_view(), name_part(text@));
    if found.len() == 0 {
        return Completion::Unchanged;
    }
    assert(seen[0] == found@[0]@);
    let mut extended = string_of_range(&v, 0, cut);
    assert(extended@ == dir_part(text@));
    if found.len() == 1 {
        append_range(&mut extended, &found[0].name, 0, found[0].name.len());
        assert(found@[0].name@.subrange(0, found@[0].name@.len() as int) == found@[0].name@);
        if found[0].is_dir {
            extended.push(SEPARATOR);
        } else {
            extended.push(SPACE);
        }
        assert(extended@ == dir_part(text@) + seen[0].name + seq![closing_mark(seen[0])]);
        return Completion::Extended(extended);
    }
    let k = longest_common_prefix(&found);
    if k > prefix.len() {
        append_range(&mut extended, &found[0].name, 0, k);
        assert(extended@ == dir_part(text@) + seen[0].name.take(k as int));
        Completion::Extended(extended)
    } else {
        Completion::Listed(names_as_strings(&found))
    }
}

// ---------------------------------------------------------------------------
// What holds of every completion
// ---------------------------------------------------------------------------

/// Completion on a segment that names a directory lists the entries of that
/// directory, all of them, in the order of their names, and leaves the
/// segment as it is.
pub proof fn lemma_directory_is_listed(text: Seq<char>, entries: Seq<EntryView>, entry: EntryView)
    ensures
        complete_spec(text, true, entries) == CompletionView::Listed(
            names_of(candidates(entries, Seq::empty())),
        ),
        segment_after(text, complete_spec(text, true, entries)) == text,
        sorted_by_name(candidates(entries, Seq::empty())),
        candidates(entries, Seq::empty()).to_multiset().count(entry) == entries.to_multiset().count(
            entry,
        ),
        candidates(entries, Seq::empty()).len() == entries.len(),
{
    lemma_candidates_sorted(entries, Seq::empty());
    lemma_candidates_are_the_matches(entries, Seq::empty(), entry);
    lemma_empty_prefix_keeps_all(entries);
}

/// Every entry is a candidate for the empty prefix.
pub proof fn lemma_empty_prefix_keeps_all(entries: Seq<EntryView>)
    ensures
        candidates(entries, Seq::empty()).len() == entries.len(),
    decreases entries.len(),
{
    if entries.len() > 0 {
        lemma_empty_prefix_keeps_all(entries.drop_last());
        lemma_insertion_point(candidates(entries.drop_last(), Seq::empty()), entries.last().name);
    }
}

/// Where no entry matches, there is no candidate.
pub proof fn lemma_no_match_no_candidate(entries: Seq<EntryView>, prefix: Seq<char>)
    requires
        forall|j: int|
            0 <= j < entries.len() ==> !starts_with_ignoring_case(
                (#[trigger] entries[j]).name,
                prefix,
            ),
    ensures
        candidates(entries, prefix).len() == 0,
    decreases entries.len(),
{
    if entries.len() > 0 {
        let before = entries.drop_last();
        assert forall|j: int| 0 <= j < before.len() implies !starts_with_ignoring_case(
            (#[trigger] before[j]).name,
            prefix,
        ) by {
            assert(before[j] == entries[j]);
        }
        lemma_no_match_no_candidate(before, prefix);
        assert(entries.last() == entries[entries.len() - 1]);
    }
}

/// Where one entry matches and no other, it is the one candidate.
pub proof fn lemma_single_match_single_candidate(
    entries: Seq<EntryView>,
    prefix: Seq<char>,
    i: int,
)
    requires
        0 <= i < entries.len(),
        starts_with_ignoring_case(entries[i].name, prefix),
        forall|j: int|
            0 <= j < entries.len() && j != i ==> !starts_with_ignoring_case(
                (#[trigger] entries[j]).name,
                prefix,
            ),
    ensures
        candidates(entries, prefix) == seq![entries[i]],
    decreases entries.len(),
{
    let before = entries.drop_last();
    assert(entries.last() == entries[entries.len() - 1]);
    if i == entries.len() - 1 {
        assert forall|j: int| 0 <= j < before.len() implies !starts_with_ignoring_case(
            (#[trigger] before[j]).name,
            prefix,
        ) by {
            assert(before[j] == entries[j]);
        }
        lemma_no_match_no_candidate(before, prefix);
        assert(candidates(before, prefix) == Seq::<EntryView>::empty());
        assert(Seq::<EntryView>::empty().insert(0, entries[i]) == seq![entries[i]]);
    } else {
        assert(before[i] == entries[i]);
        assert forall|j: int| 0 <= j < before.len() && j != i implies !starts_with_ignoring_case(
            (#[trigger] before[j]).name,
            prefix,
        ) by {
            assert(before[j] == entries[j]);
        }
        lemma_single_match_single_candidate(before, prefix, i);
    }
}

/// Completion on a segment that matches one entry and no other gives the
/// directory of the segment, the name of the entry, and a separator behind
/// a directory or a space behind a file.
pub proof fn lemma_single_match_is_completed(text: Seq<char>, entries: Seq<EntryView>, i: int)
    requires
        text.len() > 0,
        0 <= i < entries.len(),
        starts_with_ignoring_case(entries[i].name, name_part(text)),
        forall|j: int|
            0 <= j < entries.len() && j != i ==> !starts_with_ignoring_case(
                (#[trigger] entries[j]).name,
                name_part(text),
            ),
    ensures
        complete_spec(text, false, entries) == CompletionView::Extended(
            dir_part(text) + entries[i].name + seq![
                if entries[i].is_dir {
                    SEPARATOR
                } else {
                    SPACE
                },
            ],
        ),
{
    lemma_single_match_single_candidate(entries, name_part(text), i);
}

/// Where there are candidates, their common prefix is at least as long as
/// the name that was typed.
pub proof fn lemma_common_prefix_covers_the_name(entries: Seq<EntryView>, prefix: Seq<char>)
    requires
        candidates(entries, prefix).len() > 0,
    ensures
        common_prefix_len(names_of(candidates(entries, prefix))) >= prefix.len(),
{
    let found = candidates(entries, prefix);
    let names = names_of(found);
    lemma_candidates_match(entries, prefix);
    let k = common_prefix_len(names) as int;
    if k < prefix.len() {
        assert forall|p: int| 0 <= p < k implies agree_at(names, p) by {
            lemma_agreement_below_common_prefix(names, 0, p);
        }
        assert(agree_at(names, k)) by {
            assert forall|j: int| 0 <= j < names.len() implies k < (#[trigger] names[j]).len()
                && fold_case(names[j][k]) == fold_case(names[0][k]) by {
                assert(starts_with_ignoring_case(found[j].name, prefix));
                assert(starts_with_ignoring_case(found[0].name, prefix));
                assert(names[j] == found[j].name);
                assert(names[0] == found[0].name);
            }
        }
        lemma_common_prefix_stops(names, 0);
    }
}

/// Completion takes nothing away: a segment that is extended grows, keeps
/// its directory, and begins as it began before, case ignored.
pub proof fn lemma_extension_extends(text: Seq<char>, entries: Seq<EntryView>)
    requires
        complete_spec(text, false, entries) is Extended,
    ensures
        ({
            let extended = complete_spec(text, false, entries)->Extended_0;
            &&& extended.len() > text.len()
            &&& starts_with_ignoring_case(extended, text)
            &&& extended.take(dir_len(text)) == dir_part(text)
        }),
{
    let extended = complete_spec(text, false, entries)->Extended_0;
    let prefix = name_part(text);
    let found = candidates(entries, prefix);
    let cut = dir_len(text);
    lemma_dir_len_bounds(text);
    lemma_candidates_match(entries, prefix);
    assert(starts_with_ignoring_case(found[0].name, prefix));
    assert(names_of(found)[0] == found[0].name);
    lemma_common_prefix_is_shared(names_of(found), 0);
    assert(extended.take(cut) == dir_part(text));
    assert forall|i: int| 0 <= i < text.len() implies fold_case(#[trigger] extended[i])
        == fold_case(text[i]) by {
        if i < cut {
            assert(extended[i] == dir_part(text)[i]);
        } else {
            assert(extended[i] == found[0].name[i - cut]);
            assert(text[i] == prefix[i - cut]);
        }
    }
}

/// A segment that names no directory and is not empty has its candidates
/// listed in one case only: there are several, and their common prefix is
/// the name that was typed, so that nothing can be added. The segment then
/// stays as it is.
pub proof fn lemma_listing_means_no_progress(text: Seq<char>, entries: Seq<EntryView>)
    requires
        text.len() > 0,
    ensures
        complete_spec(text, false, entries) is Listed <==> candidates(
            entries,
            name_part(text),
        ).len() > 1 && common_prefix_len(names_of(candidates(entries, name_part(text))))
            == name_part(text).len(),
        complete_spec(text, false, entries) is Listed ==> complete_spec(text, false, entries)
            == CompletionView::Listed(names_of(candidates(entries, name_part(text))))
            && segment_after(text, complete_spec(text, false, entries)) == text,
{
    if candidates(entries, name_part(text)).len() > 1 {
        lemma_common_prefix_covers_the_name(entries, name_part(text));
    }
}

/// Completion comes to rest: a segment that several candidates have
/// extended to their common prefix is not extended again. Completed once
/// more over the same entries, it has the same candidates listed and stays as
/// it is. This holds where the first candidate's name holds no separator, as
/// the names of directory entries do.
pub proof fn lemma_second_completion_lists(text: Seq<char>, entries: Seq<EntryView>)
    requires
        text.len() > 0,
        candidates(entries, name_part(text)).len() > 1,
        complete_spec(text, false, entries) is Extended,
        !candidates(entries, name_part(text))[0].name.contains(SEPARATOR),
    ensures
        complete_spec(complete_spec(text, false, entries)->Extended_0, false, entries)
            == CompletionView::Listed(names_of(candidates(entries, name_part(text)))),
{
    let typed = name_part(text);
    let found = candidates(entries, typed);
    let names = names_of(found);
    let k = common_prefix_len(names) as int;
    let grown = found[0].name.take(k);
    let extended = complete_spec(text, false, entries)->Extended_0;
    let dir = dir_part(text);
    assert(extended == dir + grown);
    lemma_dir_len_bounds(text);
    lemma_candidates_match(entries, typed);
    assert(names[0] == found[0].name);
    lemma_common_prefix_is_shared(names, 0);
    assert(starts_with_ignoring_case(found[0].name, typed));
    if dir.len() > 0 {
        assert(dir.last() == text[dir_len(text) - 1]);
    }
    if grown.contains(SEPARATOR) {
        let at = choose|at: int| 0 <= at < grown.len() && grown[at] == SEPARATOR;
        assert(found[0].name[at] == SEPARATOR);
    }
    lemma_dir_len_of_joined(dir, grown);
    assert forall|i: int| 0 <= i < entries.len() implies starts_with_ignoring_case(
        (#[trigger] entries[i]).name,
        typed,
    ) == starts_with_ignoring_case(entries[i].name, grown) by {
        let name = entries[i].name;
        if starts_with_ignoring_case(name, typed) {
            lemma_match_is_candidate(entries, typed, i);
            let j = choose|j: int| 0 <= j < found.len() && found[j] == entries[i];
            assert(names[j] == name);
            lemma_common_prefix_is_shared(names, j);
            assert forall|p: int| 0 <= p < grown.len() implies fold_case(#[trigger] name[p])
                == fold_case(grown[p]) by {
                assert(grown[p] == names[0][p]);
            }
        }
        if starts_with_ignoring_case(name, grown) {
            assert forall|p: int| 0 <= p < typed.len() implies fold_case(#[trigger] name[p])
                == fold_case(typed[p]) by {
                assert(grown[p] == found[0].name[p]);
                assert(fold_case(found[0].name[p]) == fold_case(typed[p]));
            }
        }
    }
    lemma_candidates_depend_on_the_matches(entries, typed, grown);
}

} // verus!
