//! The segment under the cursor, and the directory and the name in it.

use crate::text::{chars_of, string_of_range, SEPARATOR};
use vstd::prelude::*;

verus! {

/// The character that parts the segments of a line.
pub const SPACE: char = ' ';

/// Where the segment that ends at `cursor` begins: behind the nearest space
/// before the cursor, or at the start of the line.
pub open spec fn segment_start(buffer: Seq<char>, cursor: int) -> int
    decreases cursor,
{
    if cursor <= 0 {
        0
    } else if buffer[cursor - 1] == SPACE {
        cursor
    } else {
        segment_start(buffer, cursor - 1)
    }
}

/// The cursor, held to the line: a cursor behind the end counts as one at
/// the end.
pub open spec fn clamp_cursor(buffer: Seq<char>, cursor: int) -> int {
    if cursor > buffer.len() {
        buffer.len() as int
    } else {
        cursor
    }
}

/// Nothing but spaces stands before `start`.
pub open spec fn only_spaces_before(buffer: Seq<char>, start: int) -> bool {
    forall|i: int| 0 <= i < start ==> buffer[i] == SPACE
}

/// The part of a line that completion works on.
#[derive(Clone, PartialEq, Eq, Debug)]
pub struct Segment {
    /// The offset of its first character in the line.
    pub start: usize,
    /// The offset behind its last character: the cursor.
    pub end: usize,
    /// Its characters.
    pub text: String,
    /// Whether it stands where the command stands: nothing but spaces
    /// comes before it.
    pub first_token: bool,
}

/// A segment, as specifications see it.
pub struct SegmentView {
    pub start: int,
    pub end: int,
    pub text: Seq<char>,
    pub first_token: bool,
}

impl View for Segment {
    type V = SegmentView;

    open spec fn view(&self) -> SegmentView {
        SegmentView {
            start: self.start as int,
            end: self.end as int,
            text: self.text@,
            first_token: self.first_token,
        }
    }
}

/// The segment of `buffer` that ends at `cursor`.
pub open spec fn locate_segment_spec(buffer: Seq<char>, cursor: int) -> SegmentView {
    let end = clamp_cursor(buffer, cursor);
    let start = segment_start(buffer, end);
    SegmentView {
        start,
        end,
        text: buffer.subrange(start, end),
        first_token: only_spaces_before(buffer, start),
    }
}

/// The segment lies before the cursor, holds no space, and begins at the
/// start of the line or behind a space.
pub proof fn lemma_segment_start_bounds(buffer: Seq<char>, cursor: int)
    requires
        0 <= cursor <= buffer.len(),
    ensures
        0 <= segment_start(buffer, cursor) <= cursor,
        forall|i: int| segment_start(buffer, cursor) <= i < cursor ==> buffer[i] != SPACE,
        segment_start(buffer, cursor) > 0 ==> buffer[segment_start(buffer, cursor) - 1] == SPACE,
    decreases cursor,
{
    if cursor > 0 && buffer[cursor - 1] != SPACE {
        lemma_segment_start_bounds(buffer, cursor - 1);
    }
}

/// The segment of `buffer` that ends at `cursor`, both counted in characters.
pub fn locate_segment(buffer: &str, cursor: usize) -> (r: Segment)
    ensures
        r@ == locate_segment_spec(buffer@, cursor as int),
        r.start <= r.end <= buffer@.len(),
        !r.text@.contains(SPACE),
{
    let v = chars_of(buffer);
    let end = if cursor > v.len() {
        v.len()
    } else {
        cursor
    };
    let mut start: usize = end;
    while start > 0 && v[start - 1] != SPACE
        invariant
            start <= end <= v.len(),
            segment_start(v@, end as int) == segment_start(v@, start as int),
        decreases start,
    {
        start -= 1;
    }
    let mut i: usize = 0;
    while i < start && v[i] == SPACE
        invariant
            i <= start <= v.len(),
            forall|j: int| 0 <= j < i ==> v@[j] == SPACE,
        decreases start - i,
    {
        i += 1;
    }
    let text = string_of_range(&v, start, end);
    proof {
        lemma_segment_start_bounds(v@, end as int);
        if text@.contains(SPACE) {
            let at = choose|at: int| 0 <= at < text@.len() && text@[at] == SPACE;
            assert(text@[at] == v@[start + at]);
        }
    }
    Segment { start, end, text, first_token: i == start }
}

/// The length of the part of `s` that names a directory: all up to its last
/// separator, the separator included; nothing where it holds none.
pub open spec fn dir_len(s: Seq<char>) -> int
    decreases s.len(),
{
    if s.len() == 0 {
        0
    } else if s.last() == SEPARATOR {
        s.len() as int
    } else {
        dir_len(s.drop_last())
    }
}

/// The part of `s` that names a directory.
pub open spec fn dir_part(s: Seq<char>) -> Seq<char> {
    s.take(dir_len(s))
}

/// What `s` holds behind its directory: the beginning of a name.
pub open spec fn name_part(s: Seq<char>) -> Seq<char> {
    s.skip(dir_len(s))
}

/// The directory of `s` ends with a separator, no separator comes after
/// it, and it is empty just when `s` holds no separator.
pub proof fn lemma_dir_len_bounds(s: Seq<char>)
    ensures
        0 <= dir_len(s) <= s.len(),
        dir_len(s) > 0 ==> s[dir_len(s) - 1] == SEPARATOR,
        forall|i: int| dir_len(s) <= i < s.len() ==> s[i] != SEPARATOR,
        dir_len(s) == 0 <==> !s.contains(SEPARATOR),
    decreases s.len(),
{
    if s.len() > 0 && s.last() != SEPARATOR {
        let t = s.drop_last();
        lemma_dir_len_bounds(t);
        assert forall|i: int| dir_len(s) <= i < s.len() implies s[i] != SEPARATOR by {
            if i < t.len() {
                assert(s[i] == t[i]);
            }
        }
        if dir_len(s) > 0 {
            assert(s[dir_len(s) - 1] == t[dir_len(t) - 1]);
        }
        if s.contains(SEPARATOR) {
            let i = choose|i: int| 0 <= i < s.len() && s[i] == SEPARATOR;
            assert(t[i] == SEPARATOR);
        }
        if t.contains(SEPARATOR) {
            let i = choose|i: int| 0 <= i < t.len() && t[i] == SEPARATOR;
            assert(s[i] == SEPARATOR);
        }
    } else if s.len() > 0 {
        assert(s[s.len() - 1] == SEPARATOR);
    }
}

/// A name without a separator, put behind a directory, leaves the
/// directory as it is.
pub proof fn lemma_dir_len_of_joined(dir: Seq<char>, name: Seq<char>)
    requires
        dir.len() == 0 || dir.last() == SEPARATOR,
        !name.contains(SEPARATOR),
    ensures
        dir_len(dir + name) == dir.len(),
        dir_part(dir + name) == dir,
        name_part(dir + name) == name,
    decreases name.len(),
{
    let whole = dir + name;
    if name.len() > 0 {
        let shorter = name.drop_last();
        assert(whole.last() == name.last());
        assert(name[name.len() - 1] != SEPARATOR);
        assert(whole.drop_last() == dir + shorter);
        assert forall|i: int| 0 <= i < shorter.len() implies shorter[i] != SEPARATOR by {
            assert(shorter[i] == name[i]);
        }
        lemma_dir_len_of_joined(dir, shorter);
    } else {
        assert(whole == dir);
        if dir.len() > 0 {
            assert(dir_len(dir) == dir.len());
        }
    }
    assert(whole.take(dir.len() as int) == dir);
    assert(whole.skip(dir.len() as int) == name);
}

/// The length of the part of `v` that names a directory.
pub fn split_point(v: &Vec<char>) -> (r: usize)
    ensures
        r == dir_len(v@),
        r <= v.len(),
{
    let mut i: usize = v.len();
    assert(v@.take(i as int) == v@);
    while i > 0 && v[i - 1] != SEPARATOR
        invariant
            i <= v.len(),
            dir_len(v@) == dir_len(v@.take(i as int)),
        decreases i,
    {
        proof {
            let t = v@.take(i as int);
            assert(t.last() == v@[i - 1]);
            assert(t.drop_last() == v@.take(i - 1));
        }
        i -= 1;
    }
    proof {
        let t = v@.take(i as int);
        if i > 0 {
            assert(t.last() == v@[i - 1]);
        }
    }
    i
}

} // verus!
