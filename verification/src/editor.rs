//! The line editor: one line of text, changed key by key.
//!
//! The editor holds the line and says, for every key, what is to be written
//! to the screen and what the shell is to do. It reads no key and writes
//! nothing itself.

use crate::command::{parse, parse_spec, Invocation, InvocationView, Parsed, ParsedView};
use crate::completion::candidates::{DirEntry, EntryView};
use crate::completion::segment::{locate_segment, locate_segment_spec, Segment};
use crate::completion::{complete, complete_spec, segment_after, Completion, CompletionView};
use crate::listing::{format_listing, listing};
use crate::text::{append_range, chars_of, string_of};
use vstd::prelude::*;
use vstd::string::*;

verus! {

/// A key, as the editor tells keys apart.
#[derive(Clone, Copy, PartialEq, Eq, Debug, Structural)]
pub enum KeyEvent {
    /// A character to be put into the line.
    Printable(char),
    /// Commit the line.
    Enter,
    /// Take the last character away.
    Backspace,
    /// Give the line up.
    Cancel,
    /// Clear the screen and draw the line again.
    Redraw,
    /// Complete the segment under the cursor.
    Tab,
    /// A key that the editor has no use for.
    Other,
}

impl KeyEvent {
    /// The key that sends the character `c`.
    pub open spec fn of_char_spec(c: char) -> KeyEvent {
        if c == '\t' {
            KeyEvent::Tab
        } else if c == '\n' {
            KeyEvent::Enter
        } else {
            KeyEvent::Printable(c)
        }
    }

    /// The key `c` pressed together with the control key.
    pub open spec fn of_control_spec(c: char) -> KeyEvent {
        if c == 'c' {
            KeyEvent::Cancel
        } else if c == 'l' {
            KeyEvent::Redraw
        } else {
            KeyEvent::Other
        }
    }

    /// The key that sends the character `c`: the tabulator completes, the
    /// line feed commits, any other character goes into the line.
    pub fn of_char(c: char) -> (k: KeyEvent)
        ensures
            k == Self::of_char_spec(c),
    {
        if c == '\t' {
            KeyEvent::Tab
        } else if c == '\n' {
            KeyEvent::Enter
        } else {
            KeyEvent::Printable(c)
        }
    }

    /// The key `c` pressed together with the control key: `c` cancels, `l`
    /// redraws, no other chord means anything.
    pub fn of_control(c: char) -> (k: KeyEvent)
        ensures
            k == Self::of_control_spec(c),
    {
        if c == 'c' {
            KeyEvent::Cancel
        } else if c == 'l' {
            KeyEvent::Redraw
        } else {
            KeyEvent::Other
        }
    }
}

/// What the shell is to do after a key.
#[derive(Clone, PartialEq, Eq, Debug)]
pub enum Request {
    /// Read the next key.
    Continue,
    /// Complete the segment under the cursor, with `LineEditor::complete`.
    Complete,
    /// Dispatch this command, then write `after_command` and read on.
    Run(Invocation),
    /// Leave the shell.
    Exit,
}

/// A request, as specifications see it.
pub enum RequestView {
    Continue,
    Complete,
    Run(InvocationView),
    Exit,
}

impl View for Request {
    type V = RequestView;

    open spec fn view(&self) -> RequestView {
        match self {
            Request::Continue => RequestView::Continue,
            Request::Complete => RequestView::Complete,
            Request::Run(invocation) => RequestView::Run(invocation@),
            Request::Exit => RequestView::Exit,
        }
    }
}

/// What a key leads to: text for the screen, and a request to the shell.
#[derive(Clone, PartialEq, Eq, Debug)]
pub struct Reaction {
    pub output: String,
    pub request: Request,
}

/// The line, the text for the screen and the request after a key.
pub struct Step {
    pub buffer: Seq<char>,
    pub output: Seq<char>,
    pub request: RequestView,
}

/// The prompt.
pub open spec fn prompt_text() -> Seq<char> {
    "? "@
}

/// The number of columns that the prompt takes.
pub const PROMPT_WIDTH: u16 = 2;

/// The offset in the line at which the cursor stands when the terminal has
/// it in `column`. The terminal counts its columns from one, and the line
/// begins behind the prompt; a cursor that stands in the prompt counts as
/// one at the start of the line.
pub open spec fn cursor_offset_spec(column: u16) -> int {
    if column > PROMPT_WIDTH {
        column - PROMPT_WIDTH - 1
    } else {
        0
    }
}

/// What takes the cursor to the start of the next line.
pub open spec fn new_line() -> Seq<char> {
    "\r\n"@
}

/// What draws the prompt at the start of the present line.
pub open spec fn fresh_prompt() -> Seq<char> {
    "\r? "@
}

/// What rubs out the character before the cursor.
pub open spec fn rub_out() -> Seq<char> {
    "\x08 \x08"@
}

/// What clears the screen and takes the cursor to its first position.
pub open spec fn clear_screen() -> Seq<char> {
    "\x1b[2J\x1b[H"@
}

/// What clears the present line and takes the cursor to its start.
pub open spec fn clear_line() -> Seq<char> {
    "\x1b[2K\r"@
}

/// What the key `key` leads to when the line is `buffer`.
///
/// A character goes to the end of the line and is echoed. Backspace takes
/// the last character away, if there is one. Enter on an empty line draws a
/// new prompt. Enter on any other line clears it, and asks for what the line
/// says: to leave the shell, to run a command, or, the line being blank, for
/// nothing but a new prompt. Cancel clears the line and draws a new prompt.
/// Redraw clears the screen and draws the prompt and the line again. Tab
/// asks for completion and changes nothing by itself.
pub open spec fn key_step(buffer: Seq<char>, key: KeyEvent) -> Step {
    match key {
        KeyEvent::Printable(c) => Step {
            buffer: buffer.push(c),
            output: seq![c],
            request: RequestView::Continue,
        },
        KeyEvent::Backspace => if buffer.len() > 0 {
            Step { buffer: buffer.drop_last(), output: rub_out(), request: RequestView::Continue }
        } else {
            Step { buffer, output: Seq::empty(), request: RequestView::Continue }
        },
        KeyEvent::Enter => if buffer.len() == 0 {
            Step { buffer, output: new_line() + fresh_prompt(), request: RequestView::Continue }
        } else {
            match parse_spec(buffer) {
                ParsedView::Quit => Step {
                    buffer: Seq::empty(),
                    output: new_line(),
                    request: RequestView::Exit,
                },
                ParsedView::Blank => Step {
                    buffer: Seq::empty(),
                    output: new_line() + fresh_prompt(),
                    request: RequestView::Continue,
                },
                ParsedView::Command(invocation) => Step {
                    buffer: Seq::empty(),
                    output: new_line(),
                    request: RequestView::Run(invocation),
                },
            }
        },
        KeyEvent::Cancel => Step {
            buffer: Seq::empty(),
            output: new_line() + fresh_prompt(),
            request: RequestView::Continue,
        },
        KeyEvent::Redraw => Step {
            buffer,
            output: clear_screen() + prompt_text() + buffer,
            request: RequestView::Continue,
        },
        KeyEvent::Tab => Step { buffer, output: Seq::empty(), request: RequestView::Complete },
        KeyEvent::Other => Step { buffer, output: Seq::empty(), request: RequestView::Continue },
    }
}

/// The line after completion at `cursor`: the segment gives way to what
/// completion made of it, and what stands around it stays.
pub open spec fn completed_line(
    buffer: Seq<char>,
    cursor: int,
    names_directory: bool,
    entries: Seq<EntryView>,
) -> Seq<char> {
    let segment = locate_segment_spec(buffer, cursor);
    let completion = complete_spec(segment.text, names_directory, entries);
    buffer.take(segment.start) + segment_after(segment.text, completion) + buffer.skip(
        segment.end,
    )
}

/// The text for the screen after completion at `cursor`: the listing,
/// where the candidates are listed, and then the prompt and the line, drawn
/// again.
pub open spec fn completion_output(
    buffer: Seq<char>,
    cursor: int,
    names_directory: bool,
    entries: Seq<EntryView>,
    terminal_width: nat,
) -> Seq<char> {
    let segment = locate_segment_spec(buffer, cursor);
    let shown = match complete_spec(segment.text, names_directory, entries) {
        CompletionView::Listed(names) => listing(names, terminal_width),
        _ => Seq::empty(),
    };
    shown + clear_line() + prompt_text() + completed_line(
        buffer,
        cursor,
        names_directory,
        entries,
    )
}

/// The line editor.
pub struct LineEditor {
    buffer: Vec<char>,
}

impl View for LineEditor {
    type V = Seq<char>;

    closed spec fn view(&self) -> Seq<char> {
        self.buffer@
    }
}

impl LineEditor {
    /// An editor with an empty line.
    pub fn new() -> (r: LineEditor)
        ensures
            r@ == Seq::<char>::empty(),
    {
        LineEditor { buffer: Vec::new() }
    }

    /// An editor that holds `line`.
    pub fn with_line(line: &str) -> (r: LineEditor)
        ensures
            r@ == line@,
    {
        LineEditor { buffer: chars_of(line) }
    }

    /// The line.
    pub fn line(&self) -> (r: String)
        ensures
            r@ == self@,
    {
        string_of(&self.buffer)
    }

    /// The number of characters in the line.
    pub fn len(&self) -> (r: usize)
        ensures
            r == self@.len(),
    {
        self.buffer.len()
    }

    /// The prompt, as it is written when the shell starts.
    pub fn prompt() -> (r: String)
        ensures
            r@ == prompt_text(),
    {
        String::from_str("? ")
    }

    /// What is written when a command has run: a new prompt.
    pub fn after_command() -> (r: String)
        ensures
            r@ == fresh_prompt(),
    {
        String::from_str("\r? ")
    }

    /// The offset in the line at which the cursor stands when the terminal
    /// has it in `column`.
    pub fn cursor_offset(column: u16) -> (r: usize)
        ensures
            r == cursor_offset_spec(column),
    {
        if column > PROMPT_WIDTH {
            (column - PROMPT_WIDTH - 1) as usize
        } else {
            0
        }
    }

    /// Takes the key `key`.
    pub fn handle_key(&mut self, key: KeyEvent) -> (r: Reaction)
        ensures
            final(self)@ == key_step(old(self)@, key).buffer,
            r.output@ == key_step(old(self)@, key).output,
            r.request@ == key_step(old(self)@, key).request,
    {
        match key {
            KeyEvent::Printable(c) => {
                self.buffer.push(c);
                let mut output = String::new();
                output.push(c);
                assert(output@ == seq![c]);
                Reaction { output, request: Request::Continue }
            },
            KeyEvent::Backspace => {
                if self.buffer.len() > 0 {
                    self.buffer.pop();
                    Reaction { output: String::from_str("\x08 \x08"), request: Request::Continue }
                } else {
                    Reaction { output: String::new(), request: Request::Continue }
                }
            },
            KeyEvent::Enter => {
                let mut output = String::from_str("\r\n");
                if self.buffer.len() == 0 {
                    output.append("\r? ");
                    return Reaction { output, request: Request::Continue };
                }
                let line = string_of(&self.buffer);
                self.buffer = Vec::new();
                match parse(line.as_str()) {
                    Parsed::Quit => Reaction { output, request: Request::Exit },
                    Parsed::Blank => {
                        output.append("\r? ");
                        Reaction { output, request: Request::Continue }
                    },
                    Parsed::Command(invocation) => Reaction {
                        output,
                        request: Request::Run(invocation),
                    },
                }
            },
            KeyEvent::Cancel => {
                self.buffer = Vec::new();
                let mut output = String::from_str("\r\n");
                output.append("\r? ");
                Reaction { output, request: Request::Continue }
            },
            KeyEvent::Redraw => {
                let mut output = String::from_str("\x1b[2J\x1b[H");
                output.append("? ");
                append_range(&mut output, &self.buffer, 0, self.buffer.len());
                assert(self.buffer@.subrange(0, self.buffer@.len() as int) == self.buffer@);
                Reaction { output, request: Request::Continue }
            },
            KeyEvent::Tab => Reaction { output: String::new(), request: Request::Complete },
            KeyEvent::Other => Reaction { output: String::new(), request: Request::Continue },
        }
    }

    /// The segment that completion at `cursor` works on. The cursor is
    /// counted in characters from the start of the line.
    pub fn segment(&self, cursor: usize) -> (r: Segment)
        ensures
            r@ == locate_segment_spec(self@, cursor as int),
    {
        let line = string_of(&self.buffer);
        locate_segment(line.as_str(), cursor)
    }

    /// Completes the segment at `cursor` and returns the text for the
    /// screen. `names_directory` says whether the text of the segment is the
    /// path of an existing directory; `entries` are the entries read where
    /// `completion_source` said; `terminal_width` is the width of the terminal in
    /// columns.
    pub fn complete(
        &mut self,
        cursor: usize,
        names_directory: bool,
        entries: &Vec<DirEntry>,
        terminal_width: u16,
    ) -> (output: String)
        ensures
            final(self)@ == completed_line(
                old(self)@,
                cursor as int,
                names_directory,
                entries.deep_view(),
            ),
            output@ == completion_output(
                old(self)@,
                cursor as int,
                names_directory,
                entries.deep_view(),
                terminal_width as nat,
            ),
    {
        let line = string_of(&self.buffer);
        let segment = locate_segment(line.as_str(), cursor);
        let completion = complete(segment.text.as_str(), names_directory, entries);
        let ghost before = self.buffer@;
        let mut output = String::new();
        match completion {
            Completion::Unchanged => {
                assert(before.take(segment.start as int) + before.subrange(
                    segment.start as int,
                    segment.end as int,
                ) + before.skip(segment.end as int) == before);
            },
            Completion::Listed(names) => {
                let shown = format_listing(&names, terminal_width);
                output.append(shown.as_str());
                assert(output@ == listing(names.deep_view(), terminal_width as nat));
                assert(before.take(segment.start as int) + before.subrange(
                    segment.start as int,
                    segment.end as int,
                ) + before.skip(segment.end as int) == before);
            },
            Completion::Extended(text) => {
                let extended = chars_of(text.as_str());
                let mut line: Vec<char> = Vec::new();
                let mut i: usize = 0;
                while i < segment.start
                    invariant
                        i <= segment.start <= self.buffer.len(),
                        line@ == self.buffer@.take(i as int),
                    decreases segment.start - i,
                {
                    line.push(self.buffer[i]);
                    i += 1;
                }
                i = 0;
                while i < extended.len()
                    invariant
                        i <= extended.len(),
                        segment.start <= self.buffer.len(),
                        line@ == self.buffer@.take(segment.start as int) + extended@.take(
                            i as int,
                        ),
                    decreases extended.len() - i,
                {
                    line.push(extended[i]);
                    i += 1;
                }
                assert(extended@.take(extended.len() as int) == extended@);
                i = segment.end;
                while i < self.buffer.len()
                    invariant
                        segment.end <= i <= self.buffer.len(),
                        segment.start <= self.buffer.len(),
                        line@ == self.buffer@.take(segment.start as int) + extended@
                            + self.buffer@.subrange(segment.end as int, i as int),
                    decreases self.buffer.len() - i,
                {
                    line.push(self.buffer[i]);
                    i += 1;
                }
                self.buffer = line;
            },
        }
        output.append("\x1b[2K\r");
        output.append("? ");
        append_range(&mut output, &self.buffer, 0, self.buffer.len());
        assert(self.buffer@.subrange(0, self.buffer@.len() as int) == self.buffer@);
        output
    }
}

/// Completion asks for nothing: whatever it makes of the line, no command
/// is dispatched by it. Tab leaves the line as it is and asks for completion
/// only.
pub proof fn lemma_tab_dispatches_nothing(buffer: Seq<char>)
    ensures
        key_step(buffer, KeyEvent::Tab).request == RequestView::Complete,
        key_step(buffer, KeyEvent::Tab).buffer == buffer,
{
}

/// A command is asked for by Enter alone, and only on a line that is not
/// empty. After Enter the line is empty.
pub proof fn lemma_only_enter_commits(buffer: Seq<char>, key: KeyEvent)
    ensures
        key_step(buffer, key).request is Run || key_step(buffer, key).request is Exit ==> key
            == KeyEvent::Enter && buffer.len() > 0,
        key == KeyEvent::Enter ==> key_step(buffer, key).buffer.len() == 0,
{
}

} // verus!
