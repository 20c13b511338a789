use vstd::prelude::*;

use crate::error::FetchError;
use crate::link::{split_link, url_parts, LinkParts};
use crate::numbers::{decimal_text, parse_pull_number, pull_number_of, push_decimal};
use crate::selection::{parse_selection, selection_of, LineSelection};

verus! {

/// A resolved GitHub link: a file (at a ref, with the lines asked for) or a
/// pull request.
pub enum GithubReference {
    File { owner: String, repo: String, ref_and_path: Vec<String>, selection: LineSelection },
    PullRequest { owner: String, repo: String, pull_number: u64 },
}

/// The plain content of a `GithubReference`.
pub enum ReferenceView {
    File {
        owner: Seq<char>,
        repo: Seq<char>,
        ref_and_path: Seq<Seq<char>>,
        selection: LineSelection,
    },
    PullRequest { owner: Seq<char>, repo: Seq<char>, pull_number: u64 },
}

impl View for GithubReference {
    type V = ReferenceView;

    open spec fn view(&self) -> ReferenceView {
        match self {
            GithubReference::File { owner, repo, ref_and_path, selection } => ReferenceView::File {
                owner: owner@,
                repo: repo@,
                ref_and_path: ref_and_path.deep_view(),
                selection: *selection,
            },
            GithubReference::PullRequest { owner, repo, pull_number } =>
                ReferenceView::PullRequest { owner: owner@, repo: repo@, pull_number: *pull_number },
        }
    }
}

/// Enough path segments for owner, repository, a marker such as `blob` or
/// `pull` (which is not checked), and one more; owner and repository
/// non-empty.
pub open spec fn segments_ok(segs: Seq<Seq<char>>) -> bool {
    segs.len() >= 4 && segs[0].len() > 0 && segs[1].len() > 0
}

/// `link` read as a file view: `owner/repo/<marker>/<ref>/<path...>`, with the
/// lines to return taken from its fragment.
pub open spec fn file_reference_of(link: Seq<char>) -> Result<ReferenceView, FetchError> {
    match url_parts(link) {
        Some((Some(segs), fragment)) => if !segments_ok(segs) {
            Err(FetchError::MalformedUrl)
        } else {
            match selection_of(fragment) {
                Ok(sel) => Ok(
                    ReferenceView::File {
                        owner: segs[0],
                        repo: segs[1],
                        ref_and_path: segs.subrange(3, segs.len() as int),
                        selection: sel,
                    },
                ),
                Err(e) => Err(e),
            }
        },
        _ => Err(FetchError::MalformedUrl),
    }
}

/// `link` read as a pull request: `owner/repo/<marker>/<number>`; any
/// fragment is ignored.
pub open spec fn pull_reference_of(link: Seq<char>) -> Result<ReferenceView, FetchError> {
    match url_parts(link) {
        Some((Some(segs), _)) => if !segments_ok(segs) {
            Err(FetchError::MalformedUrl)
        } else {
            match pull_number_of(segs[3]) {
                Some(n) => Ok(ReferenceView::PullRequest { owner: segs[0], repo: segs[1], pull_number: n }),
                None => Err(FetchError::MalformedUrl),
            }
        },
        _ => Err(FetchError::MalformedUrl),
    }
}

/// Segments joined with `/` between them.
pub open spec fn join_path(segs: Seq<Seq<char>>) -> Seq<char>
    decreases segs.len(),
{
    if segs.len() == 0 {
        Seq::empty()
    } else if segs.len() == 1 {
        segs[0]
    } else {
        join_path(segs.drop_last()) + seq!['/'] + segs.last()
    }
}

/// Where the raw text of a reference is served: the raw-content endpoint for
/// a file, the patch endpoint for a pull request.
pub open spec fn upstream_url_of(r: ReferenceView) -> Seq<char> {
    match r {
        ReferenceView::File { owner, repo, ref_and_path, .. } => "https://raw.githubusercontent.com/"@
            + owner + seq!['/'] + repo + seq!['/'] + join_path(ref_and_path),
        ReferenceView::PullRequest { owner, repo, pull_number } =>
            "https://patch-diff.githubusercontent.com/raw/"@ + owner + seq!['/'] + repo + "/pull/"@
                + decimal_text(pull_number as nat) + ".patch"@,
    }
}

fn take_segments(parts: LinkParts) -> (r: Result<(Vec<String>, Option<String>), FetchError>)
    ensures
        match r {
            Ok((segs, frag)) => parts@.0 == Some(segs.deep_view()) && segments_ok(segs.deep_view())
                && parts@.1 == match frag {
                Some(f) => Some(f@),
                None => None,
            },
            Err(e) => e == FetchError::MalformedUrl && !(parts@.0 matches Some(s) && segments_ok(s)),
        },
{
    match parts.segments {
        Some(segs) => {
            proof {
                assert(segs.deep_view().len() == segs@.len());
            }
            if segs.len() < 4 || segs[0].as_str().is_empty() || segs[1].as_str().is_empty() {
                assert(segs.len() >= 4 ==> segs.deep_view()[0] == segs[0]@ && segs.deep_view()[1]
                    == segs[1]@);
                Err(FetchError::MalformedUrl)
            } else {
                Ok((segs, parts.fragment))
            }
        },
        None => Err(FetchError::MalformedUrl),
    }
}

/// Resolves a file link.
pub fn parse_file_reference(link: &str) -> (r: Result<GithubReference, FetchError>)
    ensures
        match file_reference_of(link@) {
            Ok(v) => r matches Ok(g) && g@ == v,
            Err(e) => r == Err::<GithubReference, FetchError>(e),
        },
        r matches Ok(g) ==> g is File && g->File_selection.wf(),
{
    let parts = split_link(link)?;
    let (mut segs, fragment) = take_segments(parts)?;
    let selection = match fragment {
        Some(f) => parse_selection(Some(f.as_str()))?,
        None => parse_selection(None)?,
    };
    let ghost all = segs.deep_view();
    let ref_and_path = segs.split_off(3);
    let _marker = segs.pop().unwrap();
    let repo = segs.pop().unwrap();
    let owner = segs.pop().unwrap();
    proof {
        assert(ref_and_path.deep_view() =~= all.subrange(3, all.len() as int));
    }
    Ok(GithubReference::File { owner, repo, ref_and_path, selection })
}

/// Resolves a pull-request link.
pub fn parse_pull_reference(link: &str) -> (r: Result<GithubReference, FetchError>)
    ensures
        match pull_reference_of(link@) {
            Ok(v) => r matches Ok(g) && g@ == v,
            Err(e) => r == Err::<GithubReference, FetchError>(e),
        },
        r matches Ok(g) ==> g is PullRequest,
{
    let parts = split_link(link)?;
    let (mut segs, _fragment) = take_segments(parts)?;
    let ghost all = segs.deep_view();
    assert(segs[3]@ == all[3]);
    let pull_number = match parse_pull_number(segs[3].as_str()) {
        Some(n) => n,
        None => return Err(FetchError::MalformedUrl),
    };
    segs.truncate(2);
    let repo = segs.pop().unwrap();
    let owner = segs.pop().unwrap();
    Ok(GithubReference::PullRequest { owner, repo, pull_number })
}

fn push_joined(out: &mut String, segs: &Vec<String>)
    ensures
        final(out)@ == old(out)@ + join_path(segs.deep_view()),
{
    let ghost start = out@;
    let mut k: usize = 0;
    proof {
        assert(segs.deep_view().subrange(0, 0) =~= Seq::<Seq<char>>::empty());
        assert(out@ =~= start + join_path(segs.deep_view().subrange(0, 0)));
    }
    while k < segs.len()
        invariant
            k <= segs@.len(),
            out@ == start + join_path(segs.deep_view().subrange(0, k as int)),
        decreases segs@.len() - k,
    {
        let ghost before = out@;
        let ghost next = segs.deep_view().subrange(0, k + 1);
        proof {
            assert(next.drop_last() =~= segs.deep_view().subrange(0, k as int));
            assert(next.last() == segs[k as int]@);
        }
        if k > 0 {
            out.append("/");
            proof {
                reveal_strlit("/");
            }
        }
        out.append(segs[k].as_str());
        assert(out@ =~= start + join_path(next));
        k = k + 1;
    }
    proof {
        assert(segs.deep_view().subrange(0, k as int) =~= segs.deep_view());
    }
}

/// The URL from which the raw text of `reference` is fetched.
pub fn upstream_url(reference: &GithubReference) -> (r: String)
    ensures
        r@ == upstream_url_of(reference@),
{
    match reference {
        GithubReference::File { owner, repo, ref_and_path, .. } => {
            let mut out = String::from_str("https://raw.githubusercontent.com/");
            out.append(owner.as_str());
            out.append("/");
            out.append(repo.as_str());
            out.append("/");
            push_joined(&mut out, ref_and_path);
            proof {
                reveal_strlit("/");
                assert(out@ =~= upstream_url_of(reference@));
            }
            out
        },
        GithubReference::PullRequest { owner, repo, pull_number } => {
            let mut out = String::from_str("https://patch-diff.githubusercontent.com/raw/");
            out.append(owner.as_str());
            out.append("/");
            out.append(repo.as_str());
            out.append("/pull/");
            push_decimal(&mut out, *pull_number);
            out.append(".patch");
            proof {
                reveal_strlit("/");
                assert(out@ =~= upstream_url_of(reference@));
            }
            out
        },
    }
}

} // verus!
