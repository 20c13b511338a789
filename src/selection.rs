use vstd::prelude::*;

use crate::error::FetchError;
use crate::numbers::{parse_numbers, token_value};
use crate::text::{split_at_char, split_on};

verus! {

/// Which lines of a file a link asks for. Line numbers are 1-based and
/// ranges are inclusive.
#[derive(Debug, Clone, Copy, PartialEq, Eq, Structural)]
pub enum LineSelection {
    WholeFile,
    SingleLine(usize),
    Range(usize, usize),
}

impl LineSelection {
    /// Line numbers are positive and a range does not run backwards.
    pub open spec fn wf(self) -> bool {
        match self {
            LineSelection::WholeFile => true,
            LineSelection::SingleLine(n) => n >= 1,
            LineSelection::Range(start, end) => 1 <= start <= end,
        }
    }

    /// Whether line numbers are positive and a range does not run backwards.
    pub fn is_wf(&self) -> (r: bool)
        ensures
            r == self.wf(),
    {
        match self {
            LineSelection::WholeFile => true,
            LineSelection::SingleLine(n) => *n >= 1,
            LineSelection::Range(start, end) => 1 <= *start && *start <= *end,
        }
    }
}

pub open spec fn opt_chars(o: Option<&str>) -> Option<Seq<char>> {
    match o {
        Some(s) => Some(s@),
        None => None,
    }
}

/// The selection that a link fragment (the text after `#`) denotes: none is
/// the whole file; one `-`-separated token is a single line; two are an
/// inclusive range that must not run backwards; anything else is malformed.
pub open spec fn selection_of(fragment: Option<Seq<char>>) -> Result<LineSelection, FetchError> {
    match fragment {
        None => Ok(LineSelection::WholeFile),
        Some(f) => {
            let t = split_on(f, '-');
            if t.len() == 1 {
                match token_value(t[0]) {
                    Some(n) => Ok(LineSelection::SingleLine(n)),
                    None => Err(FetchError::MalformedUrl),
                }
            } else if t.len() == 2 {
                match (token_value(t[0]), token_value(t[1])) {
                    (Some(start), Some(end)) => if start <= end {
                        Ok(LineSelection::Range(start, end))
                    } else {
                        Err(FetchError::MalformedUrl)
                    },
                    _ => Err(FetchError::MalformedUrl),
                }
            } else {
                Err(FetchError::MalformedUrl)
            }
        },
    }
}

/// The lines that `sel` picks out of `lines`, or why it cannot.
pub open spec fn slice_of(lines: Seq<Seq<char>>, sel: LineSelection) -> Result<
    Seq<Seq<char>>,
    FetchError,
> {
    match sel {
        LineSelection::WholeFile => Ok(lines),
        LineSelection::SingleLine(n) => if n <= lines.len() {
            Ok(seq![lines[n - 1]])
        } else {
            Err(FetchError::LineIndexOutOfRange)
        },
        LineSelection::Range(start, end) => if end <= lines.len() {
            Ok(lines.subrange(start - 1, end as int))
        } else {
            Err(FetchError::LineIndexOutOfRange)
        },
    }
}

/// The text of each line of a result.
pub open spec fn lines_result(r: Result<Vec<String>, FetchError>) -> Result<
    Seq<Seq<char>>,
    FetchError,
> {
    match r {
        Ok(v) => Ok(v.deep_view()),
        Err(e) => Err(e),
    }
}

/// Parses the fragment of a file link into a line selection.
pub fn parse_selection(fragment: Option<&str>) -> (r: Result<LineSelection, FetchError>)
    ensures
        r == selection_of(opt_chars(fragment)),
        r matches Ok(sel) ==> sel.wf(),
{
    match fragment {
        None => Ok(LineSelection::WholeFile),
        Some(f) => {
            let tokens = split_at_char(f, '-');
            proof {
                assert(tokens.deep_view().len() == tokens@.len());
            }
            if tokens.len() == 1 {
                assert(tokens[0]@ == split_on(f@, '-')[0]);
                let n = parse_numbers(tokens[0].as_str())?;
                Ok(LineSelection::SingleLine(n))
            } else if tokens.len() == 2 {
                assert(tokens[0]@ == split_on(f@, '-')[0]);
                assert(tokens[1]@ == split_on(f@, '-')[1]);
                let start = parse_numbers(tokens[0].as_str());
                let end = parse_numbers(tokens[1].as_str());
                match (start, end) {
                    (Ok(start), Ok(end)) => if start <= end {
                        Ok(LineSelection::Range(start, end))
                    } else {
                        Err(FetchError::MalformedUrl)
                    },
                    _ => Err(FetchError::MalformedUrl),
                }
            } else {
                Err(FetchError::MalformedUrl)
            }
        },
    }
}

/// Applies a selection to the lines of a fetched file.
pub fn slice_lines(lines: &Vec<String>, sel: LineSelection) -> (r: Result<Vec<String>, FetchError>)
    requires
        sel.wf(),
    ensures
        lines_result(r) == slice_of(lines.deep_view(), sel),
{
    let (first, last) = match sel {
        LineSelection::WholeFile => (0, lines.len()),
        LineSelection::SingleLine(n) => (n - 1, n),
        LineSelection::Range(start, end) => (start - 1, end),
    };
    if last > lines.len() {
        return Err(FetchError::LineIndexOutOfRange);
    }
    let mut out: Vec<String> = Vec::new();
    let mut i: usize = first;
    proof {
        assert(out.deep_view() =~= lines.deep_view().subrange(first as int, first as int));
    }
    while i < last
        invariant
            first <= i <= last <= lines@.len(),
            out.deep_view() == lines.deep_view().subrange(first as int, i as int),
        decreases last - i,
    {
        let ghost before = out.deep_view();
        out.push(lines[i].clone());
        proof {
            assert(out.deep_view() =~= before.push(lines.deep_view()[i as int]));
            assert(out.deep_view() =~= lines.deep_view().subrange(first as int, i + 1));
        }
        i = i + 1;
    }
    proof {
        if sel is SingleLine {
            assert(out.deep_view() =~= seq![lines.deep_view()[first as int]]);
        }
        if sel is WholeFile {
            assert(out.deep_view() =~= lines.deep_view());
        }
    }
    Ok(out)
}

} // verus!
