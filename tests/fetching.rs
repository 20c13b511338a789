use gh_snippets::error::FetchError;
use gh_snippets::numbers::{parse_digits, parse_numbers, parse_pull_number, push_decimal};
use gh_snippets::pipeline::{
    check_status, code_lines, finish_code_fetch, finish_pr_fetch, prepare_code_fetch,
    prepare_pr_fetch, pull_lines,
};
use gh_snippets::reference::{parse_file_reference, parse_pull_reference, upstream_url, GithubReference};
use gh_snippets::selection::{parse_selection, slice_lines, LineSelection};
use gh_snippets::text::split_at_char;
use gh_snippets::link::split_link;

fn strings(v: &[&str]) -> Vec<String> {
    v.iter().map(|s| s.to_string()).collect()
}

const BLOB: &str = "https://github.com/octocat/hello-world/blob/main/src/lib.rs";

#[test]
fn test_parse_digits() {
    assert_eq!(Ok(111), parse_numbers("L111"));
}

#[test]
fn digits_are_read_past_a_marker() {
    assert_eq!(parse_digits("L42"), Some(42));
    assert_eq!(parse_digits("x1y2"), Some(12));
    assert_eq!(parse_digits("L"), None);
    assert_eq!(parse_digits(""), None);
    assert_eq!(parse_digits("L99999999999999999999999"), None);
    assert_eq!(parse_digits("L18446744073709551615"), Some(18446744073709551615));
}

#[test]
fn line_number_tokens() {
    assert_eq!(parse_numbers("L7"), Ok(7));
    assert_eq!(parse_numbers("L"), Err(FetchError::MalformedUrl));
    assert_eq!(parse_numbers("L0"), Err(FetchError::MalformedUrl));
    assert_eq!(parse_numbers(""), Err(FetchError::MalformedUrl));
    assert_eq!(parse_numbers("abc"), Err(FetchError::MalformedUrl));
    assert_eq!(parse_numbers("a1b2"), Ok(12));
    assert_eq!(parse_numbers("L99999999999999999999999"), Err(FetchError::MalformedUrl));
    assert_eq!(parse_numbers("L12"), parse_numbers("#1x2"));
}

#[test]
fn pull_numbers() {
    assert_eq!(parse_pull_number("42"), Some(42));
    assert_eq!(parse_pull_number(""), None);
    assert_eq!(parse_pull_number("4a"), None);
    assert_eq!(parse_pull_number("+4"), None);
    assert_eq!(parse_pull_number("18446744073709551616"), None);
}

#[test]
fn decimal_text_of_numbers() {
    let mut s = String::from("n=");
    push_decimal(&mut s, 0);
    assert_eq!(s, "n=0");
    let mut s = String::new();
    push_decimal(&mut s, 1234567890);
    assert_eq!(s, "1234567890");
}

#[test]
fn splitting_at_a_separator() {
    assert_eq!(split_at_char("L2-L4", '-'), strings(&["L2", "L4"]));
    assert_eq!(split_at_char("", '-'), strings(&[""]));
    assert_eq!(split_at_char("-a-", '-'), strings(&["", "a", ""]));
}

#[test]
fn single_line_fragment_is_parsed() {
    assert_eq!(parse_selection(Some("L111")), Ok(LineSelection::SingleLine(111)));
}

#[test]
fn fragment_forms() {
    assert_eq!(parse_selection(None), Ok(LineSelection::WholeFile));
    assert_eq!(parse_selection(Some("L2-L4")), Ok(LineSelection::Range(2, 4)));
    assert_eq!(parse_selection(Some("L3-L3")), Ok(LineSelection::Range(3, 3)));
    assert_eq!(parse_selection(Some("L4-L2")), Err(FetchError::MalformedUrl));
    assert_eq!(parse_selection(Some("L1-L2-L3")), Err(FetchError::MalformedUrl));
    assert_eq!(parse_selection(Some("readme")), Err(FetchError::MalformedUrl));
    assert_eq!(parse_selection(Some("L0")), Err(FetchError::MalformedUrl));
    assert_eq!(parse_selection(Some("")), Err(FetchError::MalformedUrl));
}

#[test]
fn slicing_lines() {
    let lines = strings(&["a", "b", "c"]);
    assert_eq!(slice_lines(&lines, LineSelection::WholeFile), Ok(lines.clone()));
    assert_eq!(slice_lines(&lines, LineSelection::SingleLine(3)), Ok(strings(&["c"])));
    assert_eq!(slice_lines(&lines, LineSelection::Range(1, 3)), Ok(lines.clone()));
    assert_eq!(slice_lines(&lines, LineSelection::SingleLine(4)), Err(FetchError::LineIndexOutOfRange));
    assert_eq!(slice_lines(&lines, LineSelection::Range(2, 4)), Err(FetchError::LineIndexOutOfRange));
    assert!(LineSelection::Range(2, 4).is_wf());
    assert!(!LineSelection::Range(4, 2).is_wf());
    assert!(!LineSelection::SingleLine(0).is_wf());
}

#[test]
fn link_is_split_by_the_url_parser() {
    let parts = split_link("https://github.com/o/r/blob/main/a%20b.rs#L3").unwrap();
    assert_eq!(parts.segments, Some(strings(&["o", "r", "blob", "main", "a%20b.rs"])));
    assert_eq!(parts.fragment, Some("L3".to_string()));
    let parts = split_link("https://github.com/o/r/blob/main/x").unwrap();
    assert_eq!(parts.fragment, None);
    assert_eq!(split_link("data:text/plain,hi").unwrap().segments, None);
    assert!(matches!(split_link("github.com/o/r"), Err(FetchError::MalformedUrl)));
}

#[test]
fn file_reference_fields() {
    match parse_file_reference(&format!("{}#L2-L4", BLOB)) {
        Ok(GithubReference::File { owner, repo, ref_and_path, selection }) => {
            assert_eq!(owner, "octocat");
            assert_eq!(repo, "hello-world");
            assert_eq!(ref_and_path, strings(&["main", "src", "lib.rs"]));
            assert_eq!(selection, LineSelection::Range(2, 4));
        }
        _ => panic!("expected a file reference"),
    }
    assert!(matches!(parse_file_reference("https://github.com//r/blob/main/x"), Err(FetchError::MalformedUrl)));
    assert!(matches!(parse_file_reference("https://github.com/o/r/blob"), Err(FetchError::MalformedUrl)));
}

#[test]
fn pull_reference_fields() {
    match parse_pull_reference("https://github.com/octocat/hello-world/pull/42#files") {
        Ok(GithubReference::PullRequest { owner, repo, pull_number }) => {
            assert_eq!(owner, "octocat");
            assert_eq!(repo, "hello-world");
            assert_eq!(pull_number, 42);
        }
        _ => panic!("expected a pull-request reference"),
    }
    assert!(matches!(parse_pull_reference("https://github.com/o/r/pull/abc"), Err(FetchError::MalformedUrl)));
    assert!(matches!(parse_pull_reference("https://github.com/o/r/pull"), Err(FetchError::MalformedUrl)));
}

#[test]
fn upstream_urls() {
    let r = parse_file_reference(BLOB).unwrap();
    assert_eq!(upstream_url(&r), "https://raw.githubusercontent.com/octocat/hello-world/main/src/lib.rs");
    let req = prepare_code_fetch(&format!("{}#L5", BLOB)).unwrap();
    assert_eq!(req.upstream_url, "https://raw.githubusercontent.com/octocat/hello-world/main/src/lib.rs");
    assert_eq!(req.selection, LineSelection::SingleLine(5));
    assert_eq!(
        prepare_pr_fetch("https://github.com/octocat/hello-world/pull/42"),
        Ok("https://patch-diff.githubusercontent.com/raw/octocat/hello-world/pull/42.patch".to_string())
    );
    assert_eq!(
        prepare_pr_fetch("https://github.com/octocat/hello-world/pull/007"),
        Ok("https://patch-diff.githubusercontent.com/raw/octocat/hello-world/pull/7.patch".to_string())
    );
}

#[test]
fn range_scenario() {
    let r = code_lines(&format!("{}#L2-L4", BLOB), "a\nb\nc\nd\ne");
    assert_eq!(r, Ok(strings(&["b", "c", "d"])));
    assert_eq!(finish_code_fetch(LineSelection::Range(2, 4), "a\nb\nc\nd\ne"), Ok(strings(&["b", "c", "d"])));
}

#[test]
fn range_ending_on_last_line() {
    assert_eq!(code_lines(&format!("{}#L2-L3", BLOB), "a\nb\nc\n"), Ok(strings(&["b", "c"])));
}

#[test]
fn single_line_scenario() {
    assert_eq!(code_lines(&format!("{}#L2", BLOB), "a\nb\nc"), Ok(strings(&["b"])));
}

#[test]
fn whole_file_scenario() {
    assert_eq!(code_lines(BLOB, "x\ny"), Ok(strings(&["x", "y"])));
    assert_eq!(code_lines(BLOB, ""), Ok(Vec::new()));
}

#[test]
fn out_of_range_scenario() {
    assert_eq!(code_lines(&format!("{}#L1-L10", BLOB), "a\nb\nc"), Err(FetchError::LineIndexOutOfRange));
    assert_eq!(code_lines(&format!("{}#L4", BLOB), "a\nb\nc"), Err(FetchError::LineIndexOutOfRange));
}

#[test]
fn malformed_scenario() {
    assert!(matches!(prepare_code_fetch("https://github.com/octocat/hello-world"), Err(FetchError::MalformedUrl)));
    assert!(matches!(prepare_code_fetch("not a url"), Err(FetchError::MalformedUrl)));
    assert_eq!(code_lines(&format!("{}#L4-L2", BLOB), "a\nb\nc\nd"), Err(FetchError::MalformedUrl));
}

#[test]
fn pull_request_returns_every_line() {
    let body = "diff --git a/x b/x\r\n+added\n-removed\n";
    let expected = strings(&["diff --git a/x b/x", "+added", "-removed"]);
    assert_eq!(finish_pr_fetch(body), expected);
    assert_eq!(pull_lines("https://github.com/o/r/pull/1#L1-L2", body), Ok(expected.clone()));
    assert_eq!(pull_lines("https://github.com/o/r/pull/1", body), Ok(expected));
    assert_eq!(pull_lines("https://github.com/o/r/pull/x", body), Err(FetchError::MalformedUrl));
}

#[test]
fn line_endings() {
    assert_eq!(finish_pr_fetch("a\r\nb\r"), strings(&["a", "b\r"]));
    assert_eq!(finish_pr_fetch("a\n\nb\n"), strings(&["a", "", "b"]));
}

#[test]
fn upstream_status() {
    assert_eq!(check_status(200), Ok(()));
    assert_eq!(check_status(299), Ok(()));
    assert_eq!(check_status(404), Err(FetchError::UpstreamNotFound));
    assert_eq!(check_status(301), Err(FetchError::UpstreamNotFound));
}
