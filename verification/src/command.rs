//! The command line: from a committed line to a command and the text of
//! its arguments.

use crate::text::{
    char_is_whitespace, chars_of, is_whitespace, lemma_leading_whitespace_bound,
    lemma_leading_whitespace_stops, lemma_token_len_bound, lemma_token_len_stops,
    lemma_trim_is_tight, skip_token, skip_whitespace, string_of_range, token_len, trim,
    trim_bounds, trim_start, words,
};
use vstd::prelude::*;

verus! {

/// A command that the shell carries out itself.
#[derive(Clone, Copy, PartialEq, Eq, Debug, Structural)]
pub enum Builtin {
    ChangeDirectory,
}

/// A command token and the text that followed it.
#[derive(Clone, PartialEq, Eq, Debug)]
pub struct Invocation {
    /// The first word of the line.
    pub command: String,
    /// What followed the first word and the whitespace after it, as typed.
    pub arguments: String,
}

/// An invocation, as specifications see it.
pub struct InvocationView {
    pub command: Seq<char>,
    pub arguments: Seq<char>,
}

impl View for Invocation {
    type V = InvocationView;

    open spec fn view(&self) -> InvocationView {
        InvocationView { command: self.command@, arguments: self.arguments@ }
    }
}

/// What a committed line asks for.
#[derive(Clone, PartialEq, Eq, Debug)]
pub enum Parsed {
    /// Leave the shell.
    Quit,
    /// Nothing: the line holds whitespace only.
    Blank,
    /// Run a command.
    Command(Invocation),
}

/// A parsed line, as specifications see it.
pub enum ParsedView {
    Quit,
    Blank,
    Command(InvocationView),
}

impl View for Parsed {
    type V = ParsedView;

    open spec fn view(&self) -> ParsedView {
        match self {
            Parsed::Quit => ParsedView::Quit,
            Parsed::Blank => ParsedView::Blank,
            Parsed::Command(invocation) => ParsedView::Command(invocation@),
        }
    }
}

/// The words that end the shell: `q`, `exit` and `quit`, in small letters.
pub open spec fn is_quit_word(line: Seq<char>) -> bool {
    ||| line == seq!['q']
    ||| line == seq!['e', 'x', 'i', 't']
    ||| line == seq!['q', 'u', 'i', 't']
}

/// What `input` asks for. The line is trimmed first. A quit word, alone on
/// the line, ends the shell. Otherwise the line divides at its first run of
/// whitespace into the command and the text of its arguments.
pub open spec fn parse_spec(input: Seq<char>) -> ParsedView {
    let line = trim(input);
    if is_quit_word(line) {
        ParsedView::Quit
    } else if line.len() == 0 {
        ParsedView::Blank
    } else {
        let k = token_len(line) as int;
        ParsedView::Command(
            InvocationView { command: line.take(k), arguments: trim_start(line.skip(k)) },
        )
    }
}

/// The built-in command of this name, if there is one.
pub open spec fn builtin_spec(command: Seq<char>) -> Option<Builtin> {
    if command == seq!['c', 'd'] {
        Some(Builtin::ChangeDirectory)
    } else {
        None
    }
}

/// The command of a line is one word: it is not empty and holds no
/// whitespace. The text of the arguments has no whitespace at either end.
/// Both are parts of the trimmed line, the command at its start and the
/// arguments at its end, with nothing but whitespace between them.
pub proof fn lemma_command_is_one_word(input: Seq<char>)
    requires
        parse_spec(input) is Command,
    ensures
        ({
            let invocation = parse_spec(input)->Command_0;
            let line = trim(input);
            let gap = line.len() - invocation.command.len() - invocation.arguments.len();
            &&& invocation.command.len() > 0
            &&& forall|i: int|
                0 <= i < invocation.command.len() ==> !is_whitespace(
                    #[trigger] invocation.command[i],
                )
            &&& invocation.arguments.len() > 0 ==> !is_whitespace(invocation.arguments[0])
                && !is_whitespace(invocation.arguments.last())
            &&& gap >= 0
            &&& line.take(invocation.command.len() as int) == invocation.command
            &&& line.skip(line.len() - invocation.arguments.len()) == invocation.arguments
            &&& forall|i: int|
                invocation.command.len() <= i < invocation.command.len() + gap ==> is_whitespace(
                    #[trigger] line[i],
                )
        }),
{
    let line = trim(input);
    let k = token_len(line) as int;
    let rest = line.skip(k);
    let invocation = parse_spec(input)->Command_0;
    lemma_trim_is_tight(input);
    lemma_token_len_stops(line);
    lemma_token_len_bound(line);
    lemma_leading_whitespace_bound(rest);
    lemma_leading_whitespace_stops(rest);
    let lead = crate::text::leading_whitespace(rest) as int;
    assert(invocation.arguments == rest.skip(lead));
    assert(rest.skip(lead) == line.skip(k + lead));
    assert forall|i: int| 0 <= i < invocation.command.len() implies !is_whitespace(
        #[trigger] invocation.command[i],
    ) by {
        assert(invocation.command[i] == line[i]);
    }
    if invocation.arguments.len() > 0 {
        assert(invocation.arguments[0] == rest[lead]);
        assert(invocation.arguments.last() == line.last());
    }
    assert forall|i: int| k <= i < k + lead implies is_whitespace(#[trigger] line[i]) by {
        assert(line[i] == rest[i - k]);
    }
}

/// What `input` asks for.
pub fn parse(input: &str) -> (r: Parsed)
    ensures
        r@ == parse_spec(input@),
{
    let v = chars_of(input);
    let (start, end) = trim_bounds(&v);
    let ghost line = trim(v@);
    let n = end - start;
    if n == 1 && v[start] == 'q' {
        assert(line == seq!['q']);
        return Parsed::Quit;
    }
    if n == 4 && v[start] == 'e' && v[start + 1] == 'x' && v[start + 2] == 'i' && v[start + 3]
        == 't' {
        assert(line == seq!['e', 'x', 'i', 't']);
        return Parsed::Quit;
    }
    if n == 4 && v[start] == 'q' && v[start + 1] == 'u' && v[start + 2] == 'i' && v[start + 3]
        == 't' {
        assert(line == seq!['q', 'u', 'i', 't']);
        return Parsed::Quit;
    }
    proof {
        assert(line.len() == n);
        if n == 1 {
            assert(line[0] == v@[start as int]);
            assert(seq!['q'][0] == 'q');
        }
        if n == 4 {
            assert(line[0] == v@[start as int]);
            assert(line[1] == v@[start + 1]);
            assert(line[2] == v@[start + 2]);
            assert(line[3] == v@[start + 3]);
            let exit = seq!['e', 'x', 'i', 't'];
            let quit = seq!['q', 'u', 'i', 't'];
            assert(exit[0] == 'e' && exit[1] == 'x' && exit[2] == 'i' && exit[3] == 't');
            assert(quit[0] == 'q' && quit[1] == 'u' && quit[2] == 'i' && quit[3] == 't');
        }
        assert(seq!['q'].len() == 1);
        assert(seq!['e', 'x', 'i', 't'].len() == 4);
        assert(seq!['q', 'u', 'i', 't'].len() == 4);
        assert(!is_quit_word(line));
    }
    if n == 0 {
        return Parsed::Blank;
    }
    let word_end = skip_token(&v, start, end);
    let rest = skip_whitespace(&v, word_end, end);
    let command = string_of_range(&v, start, word_end);
    let arguments = string_of_range(&v, rest, end);
    proof {
        let k = token_len(line) as int;
        assert(line.take(k) == v@.subrange(start as int, word_end as int));
        assert(line.skip(k) == v@.subrange(word_end as int, end as int));
        assert(trim_start(line.skip(k)) == v@.subrange(rest as int, end as int));
    }
    Parsed::Command(Invocation { command, arguments })
}

/// The arguments of an external program: the words of `arguments`.
pub fn split_arguments(arguments: &str) -> (r: Vec<String>)
    ensures
        r.deep_view() == words(arguments@),
{
    let v = chars_of(arguments);
    let mut out: Vec<String> = Vec::new();
    let mut i: usize = 0;
    proof {
        assert(v@.skip(0) == v@);
        assert(out.deep_view() == Seq::<Seq<char>>::empty());
        assert(Seq::<Seq<char>>::empty() + words(v@) == words(v@));
    }
    while i < v.len()
        invariant
            i <= v.len(),
            out.deep_view() + words(v@.skip(i as int)) == words(v@),
        decreases v.len() - i,
    {
        let ghost rest = v@.skip(i as int);
        let ghost before = out.deep_view();
        if char_is_whitespace(v[i]) {
            proof {
                assert(rest.drop_first() == v@.skip(i + 1));
            }
            i += 1;
        } else {
            let word_end = skip_token(&v, i, v.len());
            let word = string_of_range(&v, i, word_end);
            proof {
                assert(v@.subrange(i as int, v.len() as int) == rest);
                lemma_token_len_bound(rest);
                let k = token_len(rest) as int;
                assert(rest.take(k) == v@.subrange(i as int, word_end as int));
                assert(rest.skip(k) == v@.skip(word_end as int));
            }
            out.push(word);
            proof {
                assert(out.deep_view() == before + seq![word@]);
                assert(before + seq![word@] + words(v@.skip(word_end as int)) == before + (
                seq![word@] + words(v@.skip(word_end as int))));
            }
            i = word_end;
        }
    }
    proof {
        assert(v@.skip(v.len() as int).len() == 0);
        assert(out.deep_view() + Seq::<Seq<char>>::empty() == out.deep_view());
    }
    out
}

/// The built-in command called `command`, if there is one.
pub fn builtin_of(command: &str) -> (r: Option<Builtin>)
    ensures
        r == builtin_spec(command@),
{
    let v = chars_of(command);
    if v.len() == 2 && v[0] == 'c' && v[1] == 'd' {
        assert(v@ == seq!['c', 'd']);
        Some(Builtin::ChangeDirectory)
    } else {
        proof {
            if v@ == seq!['c', 'd'] {
                assert(v@[0] == 'c' && v@[1] == 'd');
            }
        }
        None
    }
}

} // verus!
