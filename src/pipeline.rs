use vstd::prelude::*;

use crate::error::FetchError;
use crate::reference::{
    GithubReference,
    file_reference_of, parse_file_reference, parse_pull_reference, pull_reference_of,
    upstream_url, upstream_url_of, ReferenceView,
};
use crate::selection::{lines_result, slice_lines, slice_of, LineSelection};
use crate::text::{lines_of, split_lines};

verus! {

/// What fetching the code behind a file link takes: where to fetch the raw
/// text, and which of its lines to return.
pub struct CodeRequest {
    pub upstream_url: String,
    pub selection: LineSelection,
}

/// The lines that a file link yields once `body` has been fetched for it.
pub open spec fn code_outcome(link: Seq<char>, body: Seq<char>) -> Result<Seq<Seq<char>>, FetchError> {
    match file_reference_of(link) {
        Ok(ReferenceView::File { selection, .. }) => slice_of(lines_of(body), selection),
        Ok(_) => Err(FetchError::MalformedUrl),
        Err(e) => Err(e),
    }
}

/// The lines that a pull-request link yields once `body` has been fetched for it.
pub open spec fn pull_outcome(link: Seq<char>, body: Seq<char>) -> Result<Seq<Seq<char>>, FetchError> {
    match pull_reference_of(link) {
        Ok(_) => Ok(lines_of(body)),
        Err(e) => Err(e),
    }
}

/// Resolves a file link into what must be fetched and which lines to keep.
/// Fails before any fetch when the link is malformed.
pub fn prepare_code_fetch(link: &str) -> (r: Result<CodeRequest, FetchError>)
    ensures
        match file_reference_of(link@) {
            Ok(v) => r matches Ok(req) && req.upstream_url@ == upstream_url_of(v) && v
                is File && req.selection == v->File_selection && req.selection.wf(),
            Err(e) => r == Err::<CodeRequest, FetchError>(e),
        },
{
    let reference = parse_file_reference(link)?;
    let url = upstream_url(&reference);
    match reference {
        GithubReference::File { selection, .. } => Ok(CodeRequest { upstream_url: url, selection }),
        GithubReference::PullRequest { .. } => Err(FetchError::MalformedUrl),
    }
}

/// Splits the fetched text of a file into lines and keeps the selected ones.
pub fn finish_code_fetch(selection: LineSelection, body: &str) -> (r: Result<Vec<String>, FetchError>)
    requires
        selection.wf(),
    ensures
        lines_result(r) == slice_of(lines_of(body@), selection),
{
    let lines = split_lines(body);
    slice_lines(&lines, selection)
}

/// Resolves a pull-request link into the URL of its patch. Fails before any
/// fetch when the link is malformed.
pub fn prepare_pr_fetch(link: &str) -> (r: Result<String, FetchError>)
    ensures
        match pull_reference_of(link@) {
            Ok(v) => r matches Ok(u) && u@ == upstream_url_of(v),
            Err(e) => r == Err::<String, FetchError>(e),
        },
{
    let reference = parse_pull_reference(link)?;
    Ok(upstream_url(&reference))
}

/// Splits a fetched patch into lines; all of them are returned.
pub fn finish_pr_fetch(body: &str) -> (r: Vec<String>)
    ensures
        r.deep_view() == lines_of(body@),
{
    split_lines(body)
}

/// Maps the HTTP status of an upstream answer: success statuses let the body
/// through, every other status means the reference does not exist upstream.
pub fn check_status(status: u16) -> (r: Result<(), FetchError>)
    ensures
        r is Ok <==> 200 <= status < 300,
        r is Err ==> r == Err::<(), FetchError>(FetchError::UpstreamNotFound),
{
    if 200 <= status && status < 300 {
        Ok(())
    } else {
        Err(FetchError::UpstreamNotFound)
    }
}

/// The whole file-link pipeline on text already fetched: resolves `link` and
/// returns the lines of `body` that it selects.
pub fn code_lines(link: &str, body: &str) -> (r: Result<Vec<String>, FetchError>)
    ensures
        lines_result(r) == code_outcome(link@, body@),
{
    let request = prepare_code_fetch(link)?;
    finish_code_fetch(request.selection, body)
}

/// The whole pull-request pipeline on text already fetched: checks `link` and
/// returns every line of `body`.
pub fn pull_lines(link: &str, body: &str) -> (r: Result<Vec<String>, FetchError>)
    ensures
        lines_result(r) == pull_outcome(link@, body@),
{
    let _url = prepare_pr_fetch(link)?;
    Ok(finish_pr_fetch(body))
}

} // verus!
