//! Parsing the commit tool's confirmation report.

use git_commit_staged::errors::CommitError;
use git_commit_staged::commit::commit_outcome;
use git_commit_staged::parse_commit_sha;

#[test]
fn parse_sha_from_commit_output() {
    assert_eq!(
        parse_commit_sha("[main abc1234] Add feature"),
        Some("abc1234".to_string())
    );
    assert_eq!(
        parse_commit_sha("[detached HEAD def5678] Fix bug"),
        Some("HEAD def5678".to_string())
    );
}

#[test]
fn parse_sha_ignores_later_lines() {
    assert_eq!(
        parse_commit_sha("[main abc1234] Add feature\n 1 file changed"),
        Some("abc1234".to_string())
    );
}

#[test]
fn parse_sha_from_degenerate_output() {
    assert_eq!(parse_commit_sha(""), None);
    assert_eq!(parse_commit_sha("no brackets here"), None);
    assert_eq!(parse_commit_sha("nospace]"), None);
}

#[test]
fn commit_outcome_failure_carries_stderr_verbatim() {
    let r = commit_outcome(false, "", String::from("hook rejected"));
    assert!(matches!(
        r,
        Err(CommitError::CommitToolFailed { ref stderr }) if stderr == "hook rejected"
    ));
}

#[test]
fn commit_outcome_success_parses_short_id() {
    let out = commit_outcome(true, "[main abc1234] Add feature", String::new()).unwrap();
    assert_eq!(out.commit_sha, "abc1234");
}

#[test]
fn commit_outcome_unparsable_report_yields_sentinel() {
    let out = commit_outcome(true, "something unexpected", String::new()).unwrap();
    assert_eq!(out.commit_sha, "unknown");
}
