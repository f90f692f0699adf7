use ptyshell::completion::candidates::{
    gather, name_precedes, names_as_strings, Candidate, DirEntry,
};
use ptyshell::completion::prefix::{all_agree_at, longest_common_prefix};
use ptyshell::completion::segment::{locate_segment, split_point, Segment};
use ptyshell::completion::{complete, completion_source, Completion, Source};

fn file(name: &str) -> DirEntry {
    DirEntry { name: name.to_string(), is_dir: false }
}

fn dir(name: &str) -> DirEntry {
    DirEntry { name: name.to_string(), is_dir: true }
}

fn chars(s: &str) -> Vec<char> {
    s.chars().collect()
}

fn candidate(name: &str) -> Candidate {
    Candidate { name: chars(name), is_dir: false }
}

fn names(list: &[&str]) -> Vec<String> {
    list.iter().map(|n| n.to_string()).collect()
}

fn segment(text: &str, first_token: bool) -> Segment {
    Segment { start: 0, end: text.chars().count(), text: text.to_string(), first_token }
}

#[test]
fn the_segment_starts_behind_the_nearest_space() {
    assert_eq!(
        locate_segment("ls fo", 5),
        Segment { start: 3, end: 5, text: "fo".to_string(), first_token: false }
    );
    assert_eq!(
        locate_segment("ls src/ma in", 9),
        Segment { start: 3, end: 9, text: "src/ma".to_string(), first_token: false }
    );
    assert_eq!(
        locate_segment("a b c", 5),
        Segment { start: 4, end: 5, text: "c".to_string(), first_token: false }
    );
}

#[test]
fn the_segment_starts_with_the_line_where_no_space_comes_before() {
    assert_eq!(
        locate_segment("fo", 2),
        Segment { start: 0, end: 2, text: "fo".to_string(), first_token: true }
    );
    assert_eq!(
        locate_segment("foo bar", 2),
        Segment { start: 0, end: 2, text: "fo".to_string(), first_token: true }
    );
}

#[test]
fn the_segment_of_an_empty_line_is_empty() {
    assert_eq!(
        locate_segment("", 0),
        Segment { start: 0, end: 0, text: String::new(), first_token: true }
    );
}

#[test]
fn the_segment_behind_a_space_is_empty() {
    assert_eq!(
        locate_segment("ls ", 3),
        Segment { start: 3, end: 3, text: String::new(), first_token: false }
    );
}

#[test]
fn a_command_behind_spaces_is_still_the_first_token() {
    assert_eq!(
        locate_segment("  l", 3),
        Segment { start: 2, end: 3, text: "l".to_string(), first_token: true }
    );
}

#[test]
fn a_cursor_behind_the_end_counts_as_one_at_the_end() {
    assert_eq!(locate_segment("ab", 10), locate_segment("ab", 2));
    assert_eq!(locate_segment("", 3), locate_segment("", 0));
}

#[test]
fn the_cursor_counts_characters() {
    assert_eq!(
        locate_segment("é ñö", 4),
        Segment { start: 2, end: 4, text: "ñö".to_string(), first_token: false }
    );
}

#[test]
fn the_directory_of_a_segment_ends_with_its_last_separator() {
    assert_eq!(split_point(&chars("src/ma")), 4);
    assert_eq!(split_point(&chars("a/b/c")), 4);
    assert_eq!(split_point(&chars("src/")), 4);
    assert_eq!(split_point(&chars("/")), 1);
    assert_eq!(split_point(&chars("ma")), 0);
    assert_eq!(split_point(&chars("")), 0);
}

#[test]
fn an_empty_segment_lists_the_current_directory() {
    assert_eq!(completion_source(&segment("", true), false), Source::Directory(".".to_string()));
    assert_eq!(completion_source(&segment("", false), false), Source::Directory(".".to_string()));
}

#[test]
fn a_directory_is_listed_itself() {
    assert_eq!(
        completion_source(&segment("src", false), true),
        Source::Directory("src".to_string())
    );
    assert_eq!(
        completion_source(&segment("src/", true), true),
        Source::Directory("src/".to_string())
    );
}

#[test]
fn a_command_name_is_looked_for_on_the_search_path() {
    assert_eq!(completion_source(&segment("ec", true), false), Source::SearchPath);
}

#[test]
fn a_command_with_a_separator_is_looked_for_in_its_directory() {
    assert_eq!(
        completion_source(&segment("./fo", true), false),
        Source::Directory("./".to_string())
    );
    assert_eq!(
        completion_source(&segment("/us", true), false),
        Source::Directory("/".to_string())
    );
}

#[test]
fn an_argument_is_looked_for_in_its_directory() {
    assert_eq!(completion_source(&segment("fo", false), false), Source::Directory(".".to_string()));
    assert_eq!(
        completion_source(&segment("src/ma", false), false),
        Source::Directory("src/".to_string())
    );
    assert_eq!(
        completion_source(&segment("a/b/c", false), false),
        Source::Directory("a/b/".to_string())
    );
}

#[test]
fn names_are_ordered_without_regard_to_case() {
    assert!(name_precedes(&chars("apple"), &chars("Banana")));
    assert!(!name_precedes(&chars("Banana"), &chars("apple")));
    assert!(name_precedes(&chars("foo"), &chars("foobar")));
    assert!(!name_precedes(&chars("foobar"), &chars("foo")));
    assert!(name_precedes(&chars("Foo"), &chars("foo")));
    assert!(name_precedes(&chars("foo"), &chars("Foo")));
    assert!(name_precedes(&chars(""), &chars("a")));
    assert!(name_precedes(&chars(""), &chars("")));
    assert!(!name_precedes(&chars("a"), &chars("")));
}

#[test]
fn candidates_are_the_matching_entries_in_order() {
    let entries = vec![file("fox"), file("bar"), dir("Foobar"), file("foo"), file("f")];
    let found = gather(&entries, &chars("fo"));
    assert_eq!(names_as_strings(&found), names(&["foo", "Foobar", "fox"]));
    assert_eq!(found[1].is_dir, true);
    assert_eq!(found[0].is_dir, false);
}

#[test]
fn names_that_differ_in_case_alone_keep_their_order() {
    let entries = vec![file("Readme"), file("README"), file("readme"), file("a")];
    let found = gather(&entries, &chars(""));
    assert_eq!(names_as_strings(&found), names(&["a", "Readme", "README", "readme"]));
}

#[test]
fn every_entry_is_a_candidate_for_the_empty_prefix() {
    let entries = vec![file("b"), file("a"), file("b")];
    let found = gather(&entries, &chars(""));
    assert_eq!(names_as_strings(&found), names(&["a", "b", "b"]));
}

#[test]
fn the_common_prefix_ends_where_two_names_differ() {
    let found = vec![candidate("foo"), candidate("foobar"), candidate("fox")];
    assert_eq!(longest_common_prefix(&found), 2);
    let found = vec![candidate("abcX"), candidate("abcY"), candidate("abcZ1")];
    assert_eq!(longest_common_prefix(&found), 3);
    let found = vec![candidate("same"), candidate("same")];
    assert_eq!(longest_common_prefix(&found), 4);
    let found = vec![candidate("x"), candidate("y")];
    assert_eq!(longest_common_prefix(&found), 0);
}

#[test]
fn the_common_prefix_ignores_case() {
    let found = vec![candidate("Foo"), candidate("fOobar"), candidate("FOX")];
    assert_eq!(longest_common_prefix(&found), 2);
    let found = vec![candidate("MAKEFILE"), candidate("makefile.am")];
    assert_eq!(longest_common_prefix(&found), 8);
}

#[test]
fn the_common_prefix_never_passes_the_shortest_name() {
    let found = vec![candidate("foobar"), candidate("foo")];
    assert_eq!(longest_common_prefix(&found), 3);
    let found = vec![candidate(""), candidate("foo")];
    assert_eq!(longest_common_prefix(&found), 0);
}

#[test]
fn the_common_prefix_of_one_name_is_the_name() {
    assert_eq!(longest_common_prefix(&vec![candidate("main.rs")]), 7);
    assert_eq!(longest_common_prefix(&vec![]), 0);
}

#[test]
fn names_agree_where_all_hold_the_same_character() {
    let found = vec![candidate("foo"), candidate("fOx"), candidate("fo")];
    assert!(all_agree_at(&found, 0));
    assert!(all_agree_at(&found, 1));
    assert!(!all_agree_at(&found, 2));
    assert!(!all_agree_at(&found, 3));
}

#[test]
fn fo_among_foo_foobar_fox_is_listed() {
    let entries = vec![file("foo"), file("foobar"), file("fox")];
    assert_eq!(
        complete("fo", false, &entries),
        Completion::Listed(names(&["foo", "foobar", "fox"]))
    );
}

#[test]
fn the_listing_is_in_order_whatever_the_directory_gave() {
    let entries = vec![file("fox"), file("other"), file("foobar"), file("foo")];
    assert_eq!(
        complete("fo", false, &entries),
        Completion::Listed(names(&["foo", "foobar", "fox"]))
    );
}

#[test]
fn a_single_file_is_completed_with_a_space() {
    let entries = vec![file("main.rs"), file("lib.rs")];
    assert_eq!(complete("ma", false, &entries), Completion::Extended("main.rs ".to_string()));
    assert_eq!(complete("main.rs", false, &entries), Completion::Extended("main.rs ".to_string()));
}

#[test]
fn a_single_directory_is_completed_with_a_separator() {
    let entries = vec![dir("src"), dir("target"), file("Cargo.toml")];
    assert_eq!(complete("sr", false, &entries), Completion::Extended("src/".to_string()));
}

#[test]
fn the_directory_of_the_segment_is_kept() {
    let entries = vec![file("main.rs"), file("lib.rs")];
    assert_eq!(
        complete("src/ma", false, &entries),
        Completion::Extended("src/main.rs ".to_string())
    );
    assert_eq!(
        complete("/usr/li", false, &vec![dir("lib"), dir("lib64"), dir("bin")]),
        Completion::Extended("/usr/lib".to_string())
    );
}

#[test]
fn several_candidates_extend_to_their_common_prefix() {
    let entries = vec![file("foobar"), file("foobaz"), file("fun")];
    assert_eq!(complete("fo", false, &entries), Completion::Extended("fooba".to_string()));
    assert_eq!(complete("f", false, &entries), Completion::Listed(names(&["foobar", "foobaz", "fun"])));
}

#[test]
fn repeated_completion_comes_to_rest_at_the_common_prefix() {
    let entries = vec![file("foobar"), file("foobaz")];
    let first = complete("f", false, &entries);
    assert_eq!(first, Completion::Extended("fooba".to_string()));
    let second = complete("fooba", false, &entries);
    assert_eq!(second, Completion::Listed(names(&["foobar", "foobaz"])));
}

#[test]
fn a_name_that_others_extend_is_listed_with_them() {
    let entries = vec![file("foo"), file("foobar")];
    assert_eq!(complete("foo", false, &entries), Completion::Listed(names(&["foo", "foobar"])));
    assert_eq!(complete("f", false, &entries), Completion::Extended("foo".to_string()));
}

#[test]
fn completion_ignores_case_and_writes_as_the_entry_does() {
    assert_eq!(
        complete("MA", false, &vec![file("Makefile"), file("other")]),
        Completion::Extended("Makefile ".to_string())
    );
    assert_eq!(
        complete("FO", false, &vec![file("Foobaz"), file("foobar")]),
        Completion::Extended("fooba".to_string())
    );
}

#[test]
fn no_candidate_changes_nothing() {
    assert_eq!(complete("zz", false, &vec![file("foo"), file("bar")]), Completion::Unchanged);
    assert_eq!(complete("zz", false, &vec![]), Completion::Unchanged);
    assert_eq!(complete("src/zz", false, &vec![file("zebra")]), Completion::Unchanged);
}

#[test]
fn a_segment_that_names_a_directory_lists_it() {
    let entries = vec![file("main.rs"), dir("bin"), file("lib.rs")];
    assert_eq!(
        complete("src", true, &entries),
        Completion::Listed(names(&["bin", "lib.rs", "main.rs"]))
    );
    assert_eq!(
        complete("src/", true, &entries),
        Completion::Listed(names(&["bin", "lib.rs", "main.rs"]))
    );
}

#[test]
fn an_empty_directory_lists_nothing() {
    assert_eq!(complete("empty/", true, &vec![]), Completion::Listed(vec![]));
}

#[test]
fn an_empty_segment_lists_everything() {
    let entries = vec![file("b"), dir("a")];
    assert_eq!(complete("", false, &entries), Completion::Listed(names(&["a", "b"])));
}

#[test]
fn a_command_found_twice_on_the_search_path_is_listed_twice() {
    let entries = vec![file("ls"), file("lsblk"), file("ls")];
    assert_eq!(complete("l", false, &entries), Completion::Extended("ls".to_string()));
    assert_eq!(complete("ls", false, &entries), Completion::Listed(names(&["ls", "ls", "lsblk"])));
}
