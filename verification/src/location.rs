//! Where in a file something stands: a line and a column, counted from the
//! byte offset of a character.

use core::ops::Range;
use vstd::prelude::*;
use vstd::string::*;

verus! {

/// The byte that ends a line.
pub const LINE_FEED: u8 = 0x0a;

/// The byte that may stand before a line feed and then belongs to the line
/// ending.
pub const CARRIAGE_RETURN: u8 = 0x0d;

/// A line and a column of a text, both counted from zero.
#[derive(Debug, Clone, Copy, PartialEq, Eq, Hash, Structural)]
pub struct FileLocation {
    line: usize,
    column: usize,
}

/// The offset of the first line feed at or after `pos`, or the length of
/// `bytes` where there is none.
pub open spec fn line_end(bytes: Seq<u8>, pos: int) -> int
    decreases bytes.len() - pos,
{
    if pos < 0 || pos >= bytes.len() {
        bytes.len() as int
    } else if bytes[pos] == LINE_FEED {
        pos
    } else {
        line_end(bytes, pos + 1)
    }
}

/// The length of the line that starts at `pos` and ends before `end`,
/// without its line ending: a carriage return right before a line feed does
/// not count.
pub open spec fn line_width(bytes: Seq<u8>, pos: int, end: int) -> int {
    if end < bytes.len() && end > pos && bytes[end - 1] == CARRIAGE_RETURN {
        end - pos - 1
    } else {
        end - pos
    }
}

/// Looks for `index` in the lines from byte offset `pos` on. `line` is the
/// number of the line that starts at `pos`, and `counted` what the lines
/// before it count for: the width of each and one more for its ending.
pub open spec fn locate_from(bytes: Seq<u8>, index: int, pos: int, counted: int, line: int) -> Option<
    (int, int),
>
    decreases bytes.len() - pos,
{
    if pos < 0 || pos >= bytes.len() {
        None
    } else {
        let end = line_end(bytes, pos);
        let width = line_width(bytes, pos, end) + 1;
        if index < counted + width {
            Some((line, index - counted))
        } else if end < pos || end >= bytes.len() {
            None
        } else {
            locate_from(bytes, index, end + 1, counted + width, line + 1)
        }
    }
}

/// The line and column of byte offset `index` in a text of these bytes;
/// nothing where the offset is outside the text. Each line counts for its
/// width and one more, so after a line that ends in a carriage return and a
/// line feed the columns fall one short.
pub open spec fn locate(bytes: Seq<u8>, index: int) -> Option<(int, int)> {
    if index < 0 || index >= bytes.len() {
        None
    } else {
        locate_from(bytes, index, 0, 0, 0)
    }
}

/// The location of the start of an optional byte range, and line 0, column
/// 0 where there is no range or its start cannot be located.
pub open spec fn locate_or_zero(bytes: Seq<u8>, start: Option<int>) -> (int, int) {
    let index = match start {
        Some(s) => s,
        None => 0,
    };
    match locate(bytes, index) {
        Some(found) => found,
        None => (0, 0),
    }
}

/// [`line_end`] lies between `pos` and the end of the text.
pub proof fn lemma_line_end_bounds(bytes: Seq<u8>, pos: int)
    requires
        0 <= pos <= bytes.len(),
    ensures
        pos <= line_end(bytes, pos) <= bytes.len(),
    decreases bytes.len() - pos,
{
    if pos < bytes.len() && bytes[pos] != LINE_FEED {
        lemma_line_end_bounds(bytes, pos + 1);
    }
}

impl FileLocation {
    /// The pair of numbers that the location stands for.
    pub closed spec fn pair(self) -> (int, int) {
        (self.line as int, self.column as int)
    }

    /// The location at `line` and `column`.
    pub fn new(line: usize, column: usize) -> (r: Self)
        ensures
            r.pair() == (line as int, column as int),
    {
        Self { line, column }
    }

    /// The first column of the first line.
    pub fn zero() -> (r: Self)
        ensures
            r.pair() == (0int, 0int),
    {
        Self { line: 0, column: 0 }
    }

    /// The line, counted from zero.
    pub fn line(&self) -> (r: usize)
        ensures
            r == self.pair().0,
    {
        self.line
    }

    /// The column, counted from zero.
    pub fn column(&self) -> (r: usize)
        ensures
            r == self.pair().1,
    {
        self.column
    }

    /// The location of byte offset `index` in `text`; nothing where the
    /// offset is outside the text.
    pub fn from_byte_index(text: &str, index: usize) -> (r: Option<Self>)
        ensures
            match locate(text.spec_bytes(), index as int) {
                Some(found) => r matches Some(at) && at.pair() == found,
                None => r is None,
            },
    {
        let bytes = text.as_bytes();
        let n = bytes.len();
        if index >= n {
            return None;
        }
        let mut pos: usize = 0;
        let mut counted: usize = 0;
        let mut line: usize = 0;
        while pos < n
            invariant
                bytes@ == text.spec_bytes(),
                n == bytes@.len(),
                index < n,
                pos <= n,
                counted <= pos,
                line <= pos,
                counted <= index,
                locate(bytes@, index as int) == locate_from(
                    bytes@,
                    index as int,
                    pos as int,
                    counted as int,
                    line as int,
                ),
            decreases n - pos,
        {
            let mut end: usize = pos;
            while end < n && bytes[end] != LINE_FEED
                invariant
                    n == bytes@.len(),
                    pos <= end <= n,
                    line_end(bytes@, pos as int) == line_end(bytes@, end as int),
                decreases n - end,
            {
                end += 1;
            }
            let width: usize = if end < n && end > pos && bytes[end - 1] == CARRIAGE_RETURN {
                end - pos - 1
            } else {
                end - pos
            };
            proof {
                assert(line_end(bytes@, end as int) == end);
            }
            if index - counted <= width {
                return Some(Self { line, column: index - counted });
            }
            if end == n {
                return None;
            }
            counted = counted + width + 1;
            line = line + 1;
            pos = end + 1;
        }
        None
    }

    /// The location of the start of `span` in `text`, and line 0, column 0
    /// where there is no span or its start is outside the text.
    pub fn from_optional_range(text: &str, span: Option<Range<usize>>) -> (r: Self)
        ensures
            r.pair() == locate_or_zero(
                text.spec_bytes(),
                match span {
                    Some(s) => Some(s.start as int),
                    None => None,
                },
            ),
    {
        let index: usize = match span {
            Some(s) => s.start,
            None => 0,
        };
        match Self::from_byte_index(text, index) {
            Some(at) => at,
            None => Self::zero(),
        }
    }
}

} // verus!
