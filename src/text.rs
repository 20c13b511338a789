use vstd::prelude::*;

verus! {

/// The pieces of `s` between occurrences of `sep`, in order; there is always
/// one more piece than there are separators.
pub open spec fn split_on(s: Seq<char>, sep: char) -> Seq<Seq<char>>
    decreases s.len(),
{
    if s.len() == 0 {
        seq![Seq::empty()]
    } else {
        let p = split_on(s.drop_last(), sep);
        if s.last() == sep {
            p.push(Seq::empty())
        } else {
            p.update(p.len() - 1, p.last().push(s.last()))
        }
    }
}

/// A piece that ended at a line feed loses a carriage return just before it.
pub open spec fn strip_cr(l: Seq<char>) -> Seq<char> {
    if l.len() > 0 && l.last() == '\r' {
        l.drop_last()
    } else {
        l
    }
}

/// The lines of `text`: split at `\n` or `\r\n`, the terminator left out, and
/// no empty line after a final terminator.
pub open spec fn lines_of(text: Seq<char>) -> Seq<Seq<char>> {
    let p = split_on(text, '\n');
    let ended = p.drop_last().map_values(|l: Seq<char>| strip_cr(l));
    if p.last().len() == 0 {
        ended
    } else {
        ended.push(p.last())
    }
}

/// Relies on `str::lines`: lines end at `\n` or `\r\n`, which are not kept; the
/// final line ending is optional, and a carriage return not followed by a line
/// feed stays in the last line.
#[verifier::external_body]
pub(crate) fn split_lines(text: &str) -> (r: Vec<String>)
    ensures
        r.deep_view() == lines_of(text@),
{
    text.lines().map(|l| l.to_string()).collect()
}

/// Splits `s` at every occurrence of `sep`.
pub fn split_at_char(s: &str, sep: char) -> (r: Vec<String>)
    ensures
        r.deep_view() == split_on(s@, sep),
{
    let n = s.unicode_len();
    let mut parts: Vec<String> = Vec::new();
    let mut start: usize = 0;
    let mut i: usize = 0;
    proof {
        assert(s@.subrange(0, 0) =~= Seq::<char>::empty());
        assert(parts.deep_view().push(s@.subrange(0, 0)) =~= split_on(s@.subrange(0, 0), sep));
    }
    while i < n
        invariant
            n == s@.len(),
            start <= i <= n,
            parts.deep_view().push(s@.subrange(start as int, i as int)) == split_on(
                s@.subrange(0, i as int),
                sep,
            ),
        decreases n - i,
    {
        let c = s.get_char(i);
        let ghost prev = split_on(s@.subrange(0, i as int), sep);
        let ghost old_parts = parts.deep_view();
        let ghost old_start = start;
        proof {
            let q = s@.subrange(0, i + 1);
            assert(q.drop_last() =~= s@.subrange(0, i as int));
            assert(q.last() == c);
        }
        if c == sep {
            let piece = String::from_str(s.substring_char(start, i));
            parts.push(piece);
            start = i + 1;
            proof {
                assert(parts.deep_view() =~= old_parts.push(s@.subrange(old_start as int, i as int)));
            }
        } else {
            proof {
                assert(s@.subrange(start as int, i + 1) =~= s@.subrange(start as int, i as int).push(c));
            }
        }
        i = i + 1;
        proof {
            if c == sep {
                assert(s@.subrange(start as int, i as int) =~= Seq::<char>::empty());
                assert(parts.deep_view().push(s@.subrange(start as int, i as int)) =~= prev.push(Seq::empty()));
            } else {
                assert(parts.deep_view().push(s@.subrange(start as int, i as int)) =~= prev.update(
                    prev.len() - 1,
                    prev.last().push(c),
                ));
            }
        }
    }
    proof {
        assert(s@.subrange(0, n as int) =~= s@);
    }
    let piece = String::from_str(s.substring_char(start, n));
    parts.push(piece);
    proof {
        assert(parts.deep_view() =~= split_on(s@, sep));
    }
    parts
}

} // verus!
