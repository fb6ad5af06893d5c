//! The truncation policy: what is shown of a line that is wider than allowed.

use vstd::prelude::*;
use vstd::slice::{slice_subrange, slice_to_vec};

verus! {

/// The byte of which the truncation marker is made: a full stop.
pub const MARKER_BYTE: u8 = 46;

/// The marker appended to a line that was cut: three full stops.
pub open spec fn marker() -> Seq<u8> {
    seq![MARKER_BYTE, MARKER_BYTE, MARKER_BYTE]
}

/// The text shown for `line`, or `None` where the line is dropped.
///
/// A line within the limit, or any line where no limit is set, is shown as it
/// is. A wider line is cut to the limit and given the marker when previews are
/// on, and dropped when they are off.
pub open spec fn rendered(line: Seq<u8>, max_columns: Option<usize>, preview: bool) -> Option<
    Seq<u8>,
> {
    match max_columns {
        Some(width) => if line.len() > width {
            if preview {
                Some(line.subrange(0, width as int) + marker())
            } else {
                None
            }
        } else {
            Some(line)
        },
        None => Some(line),
    }
}

/// The span reported for a match from `start` to `end` in a line of `line_len`
/// bytes, or `None` where the match is not visible.
///
/// In a line wider than the limit, a match is visible only if it starts before
/// the limit, and its end is cut to the limit.
pub open spec fn clipped(line_len: int, start: int, end: int, max_columns: Option<usize>) -> Option<
    (int, int),
> {
    match max_columns {
        Some(width) => if line_len > width {
            if start < width {
                Some((start, if end < width { end } else { width as int }))
            } else {
                None
            }
        } else {
            Some((start, end))
        },
        None => Some((start, end)),
    }
}

/// A pair of offsets as mathematical integers.
pub open spec fn as_span(offsets: Option<(usize, usize)>) -> Option<(int, int)> {
    match offsets {
        Some((start, end)) => Some((start as int, end as int)),
        None => None,
    }
}

/// A byte string as its bytes.
pub open spec fn as_text(text: Option<Vec<u8>>) -> Option<Seq<u8>> {
    match text {
        Some(bytes) => Some(bytes@),
        None => None,
    }
}

/// Computes the text shown for `line` under the truncation policy.
pub fn render_line(line: &[u8], max_columns: Option<usize>, preview: bool) -> (text: Option<Vec<u8>>)
    ensures
        as_text(text) == rendered(line@, max_columns, preview),
{
    match max_columns {
        Some(width) => {
            if line.len() > width {
                if preview {
                    let mut text = slice_to_vec(slice_subrange(line, 0, width));
                    text.push(MARKER_BYTE);
                    text.push(MARKER_BYTE);
                    text.push(MARKER_BYTE);
                    assert(text@ == line@.subrange(0, width as int) + marker());
                    Some(text)
                } else {
                    None
                }
            } else {
                Some(slice_to_vec(line))
            }
        },
        None => Some(slice_to_vec(line)),
    }
}

/// Computes the span reported for a match under the truncation policy.
pub fn clip_span(line_len: usize, start: usize, end: usize, max_columns: Option<usize>) -> (span:
    Option<(usize, usize)>)
    ensures
        as_span(span) == clipped(line_len as int, start as int, end as int, max_columns),
{
    match max_columns {
        Some(width) => {
            if line_len > width {
                if start < width {
                    Some((start, if end < width { end } else { width }))
                } else {
                    None
                }
            } else {
                Some((start, end))
            }
        },
        None => Some((start, end)),
    }
}

} // verus!
