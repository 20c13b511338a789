use vstd::prelude::*;

use crate::error::FetchError;
use crate::link::url_parts;
use crate::numbers::{
    all_digits, decimal_value, digits_of, is_digit, number_in, pull_number_of, token_value,
};
use crate::pipeline::{code_outcome, pull_outcome};
use crate::reference::{file_reference_of, pull_reference_of, segments_ok, ReferenceView};
use crate::selection::LineSelection;
use crate::text::{lines_of, split_on};

verus! {

proof fn lemma_digits_of_concat(a: Seq<char>, b: Seq<char>)
    ensures
        digits_of(a + b) == digits_of(a) + digits_of(b),
    decreases b.len(),
{
    if b.len() == 0 {
        assert(a + b =~= a);
        assert(digits_of(a) + digits_of(b) =~= digits_of(a));
    } else {
        assert((a + b).drop_last() =~= a + b.drop_last());
        lemma_digits_of_concat(a, b.drop_last());
        if is_digit(b.last()) {
            assert(digits_of(a) + digits_of(b) =~= (digits_of(a) + digits_of(b.drop_last())).push(
                b.last(),
            ));
        }
    }
}

proof fn lemma_digits_of_none(s: Seq<char>)
    requires
        forall|i: int| 0 <= i < s.len() ==> !is_digit(#[trigger] s[i]),
    ensures
        digits_of(s).len() == 0,
    decreases s.len(),
{
    if s.len() > 0 {
        lemma_digits_of_none(s.drop_last());
    }
}

proof fn lemma_digits_of_all(s: Seq<char>)
    requires
        all_digits(s),
    ensures
        digits_of(s) == s,
    decreases s.len(),
{
    if s.len() > 0 {
        lemma_digits_of_all(s.drop_last());
        assert(s.drop_last().push(s.last()) =~= s);
    }
}

/// A token made of a prefix without digits (such as the `L` of a line anchor)
/// followed by decimal digits denotes the number that those digits spell.
pub proof fn marker_then_digits(prefix: Seq<char>, digits: Seq<char>)
    requires
        forall|i: int| 0 <= i < prefix.len() ==> !is_digit(#[trigger] prefix[i]),
        digits.len() > 0,
        all_digits(digits),
    ensures
        digits_of(prefix + digits).len() > 0,
        number_in(prefix + digits) == decimal_value(digits),
        token_value(prefix + digits) == (if 0 < decimal_value(digits) <= usize::MAX {
            Some(decimal_value(digits) as usize)
        } else {
            None
        }),
{
    lemma_digits_of_concat(prefix, digits);
    lemma_digits_of_none(prefix);
    lemma_digits_of_all(digits);
    assert(digits_of(prefix) + digits_of(digits) =~= digits);
}

/// A token without digits denotes no line.
pub proof fn no_digits_no_line(token: Seq<char>)
    requires
        forall|i: int| 0 <= i < token.len() ==> !is_digit(#[trigger] token[i]),
    ensures
        token_value(token) is None,
{
    lemma_digits_of_none(token);
}

/// Two tokens with the same digits, in the same order, denote the same line
/// (or both none), whatever other characters surround them.
pub proof fn same_digits_same_line(a: Seq<char>, b: Seq<char>)
    requires
        digits_of(a) == digits_of(b),
    ensures
        token_value(a) == token_value(b),
{
}

/// A file link without a fragment selects the whole file, and yields every
/// fetched line in order.
pub proof fn no_fragment_whole_file(link: Seq<char>, body: Seq<char>, segs: Seq<Seq<char>>)
    requires
        url_parts(link) == Some((Some(segs), None::<Seq<char>>)),
        segments_ok(segs),
    ensures
        file_reference_of(link) matches Ok(ReferenceView::File { selection, .. })
            && selection == LineSelection::WholeFile,
        code_outcome(link, body) == Ok::<Seq<Seq<char>>, FetchError>(lines_of(body)),
{
}

/// A file link whose fragment names a single line `n` yields exactly the
/// fetched line at 1-based position `n`, when there is one.
pub proof fn single_line_fragment(
    link: Seq<char>,
    body: Seq<char>,
    segs: Seq<Seq<char>>,
    fragment: Seq<char>,
    n: usize,
)
    requires
        url_parts(link) == Some((Some(segs), Some(fragment))),
        segments_ok(segs),
        split_on(fragment, '-').len() == 1,
        token_value(split_on(fragment, '-')[0]) == Some(n),
        n <= lines_of(body).len(),
    ensures
        1 <= n,
        code_outcome(link, body) == Ok::<Seq<Seq<char>>, FetchError>(seq![lines_of(body)[n - 1]]),
{
}

/// A file link whose fragment names a range `start-end` with
/// `start <= end <= lineCount` yields `end - start + 1` lines: the fetched
/// lines at 1-based positions `start` through `end`.
pub proof fn range_fragment(
    link: Seq<char>,
    body: Seq<char>,
    segs: Seq<Seq<char>>,
    fragment: Seq<char>,
    start: usize,
    end: usize,
)
    requires
        url_parts(link) == Some((Some(segs), Some(fragment))),
        segments_ok(segs),
        split_on(fragment, '-').len() == 2,
        token_value(split_on(fragment, '-')[0]) == Some(start),
        token_value(split_on(fragment, '-')[1]) == Some(end),
        start <= end <= lines_of(body).len(),
    ensures
        code_outcome(link, body) matches Ok(v) && v.len() == end - start + 1 && v == lines_of(
            body,
        ).subrange(start - 1, end as int),
{
}

/// A range fragment that runs backwards is malformed; it is never swapped or
/// clamped.
pub proof fn backwards_range_malformed(
    link: Seq<char>,
    body: Seq<char>,
    segs: Seq<Seq<char>>,
    fragment: Seq<char>,
    start: usize,
    end: usize,
)
    requires
        url_parts(link) == Some((Some(segs), Some(fragment))),
        segments_ok(segs),
        split_on(fragment, '-').len() == 2,
        token_value(split_on(fragment, '-')[0]) == Some(start),
        token_value(split_on(fragment, '-')[1]) == Some(end),
        start > end,
    ensures
        file_reference_of(link) == Err::<ReferenceView, FetchError>(FetchError::MalformedUrl),
        code_outcome(link, body) == Err::<Seq<Seq<char>>, FetchError>(FetchError::MalformedUrl),
{
}

/// A single line or a range end past the last fetched line fails with
/// `LineIndexOutOfRange`, never with a shorter result.
pub proof fn past_the_end_out_of_range(link: Seq<char>, body: Seq<char>)
    requires
        match file_reference_of(link) {
            Ok(ReferenceView::File { selection: LineSelection::SingleLine(n), .. }) => n > lines_of(
                body,
            ).len(),
            Ok(ReferenceView::File { selection: LineSelection::Range(_, end), .. }) => end
                > lines_of(body).len(),
            _ => false,
        },
    ensures
        code_outcome(link, body) == Err::<Seq<Seq<char>>, FetchError>(
            FetchError::LineIndexOutOfRange,
        ),
{
}

/// A well-formed pull-request link yields every line of the fetched patch, in
/// order, whatever fragment it carries.
pub proof fn pull_request_whole_patch(
    link: Seq<char>,
    body: Seq<char>,
    segs: Seq<Seq<char>>,
    fragment: Option<Seq<char>>,
)
    requires
        url_parts(link) == Some((Some(segs), fragment)),
        segments_ok(segs),
        pull_number_of(segs[3]) is Some,
    ensures
        pull_outcome(link, body) == Ok::<Seq<Seq<char>>, FetchError>(lines_of(body)),
{
}

/// A pull-request link yields the whole fetched patch, whatever fragment it
/// carries: two links that differ only in their fragment yield the same.
pub proof fn pull_request_ignores_fragment(
    link: Seq<char>,
    other: Seq<char>,
    body: Seq<char>,
    segs: Seq<Seq<char>>,
    fragment: Option<Seq<char>>,
    other_fragment: Option<Seq<char>>,
)
    requires
        url_parts(link) == Some((Some(segs), fragment)),
        url_parts(other) == Some((Some(segs), other_fragment)),
    ensures
        pull_reference_of(link) == pull_reference_of(other),
        pull_outcome(link, body) == pull_outcome(other, body),
        pull_outcome(link, body) is Ok ==> pull_outcome(link, body) == Ok::<
            Seq<Seq<char>>,
            FetchError,
        >(lines_of(body)),
{
}

} // verus!
