//! Interpreting the external commit tool's report.
//!
//! The commit tool prints a single confirmation line of the shape
//! `[ref-name shorthash] subject`. The short commit id is the text between
//! the first space and the next `]` of the first line. Parsing is
//! best-effort: when the line has another shape, the caller substitutes a
//! sentinel id, since the commit itself already succeeded.

use vstd::prelude::*;

use crate::errors::CommitError;

verus! {

/// Result of a successful commit operation.
pub struct CommitOutput {
    /// The new commit's short id as reported by the commit tool, or
    /// `unknown` when its report could not be parsed.
    pub commit_sha: String,
}

/// Index of the first occurrence of `c` in `s` at or after `from`.
pub open spec fn spec_find_char(s: Seq<char>, c: char, from: int) -> Option<int>
    decreases s.len() - from,
{
    if from < 0 || from >= s.len() {
        None
    } else if s[from] == c {
        Some(from)
    } else {
        spec_find_char(s, c, from + 1)
    }
}

/// The first line of `s`: everything before the first newline, with a
/// trailing carriage return removed.
pub open spec fn spec_first_line(s: Seq<char>) -> Seq<char> {
    let upto = match spec_find_char(s, '\n', 0) {
        Some(i) => s.take(i),
        None => s,
    };
    if upto.len() > 0 && upto.last() == '\r' {
        upto.drop_last()
    } else {
        upto
    }
}

/// The short commit id in a confirmation report: the text of the first
/// line between the first space and the next `]`, if both are present.
pub open spec fn spec_parse_commit_sha(s: Seq<char>) -> Option<Seq<char>> {
    if s.len() == 0 {
        None
    } else {
        let line = spec_first_line(s);
        match spec_find_char(line, ' ', 0) {
            None => None,
            Some(sp) => match spec_find_char(line, ']', sp + 1) {
                None => None,
                Some(end) => Some(line.subrange(sp + 1, end)),
            },
        }
    }
}

/// Find `c` in `s[from..end]`, reported as a position in `s.take(end)`.
fn find_char_upto(s: &str, c: char, from: usize, end: usize) -> (r: Option<usize>)
    requires
        end <= s@.len(),
    ensures
        match r {
            Some(i) => from <= i < end && spec_find_char(s@.take(end as int), c, from as int)
                == Some(i as int),
            None => spec_find_char(s@.take(end as int), c, from as int) is None,
        },
{
    let ghost line = s@.take(end as int);
    if from >= end {
        return None;
    }
    let mut i: usize = from;
    while i < end
        invariant
            end <= s@.len(),
            from <= i <= end,
            line == s@.take(end as int),
            spec_find_char(line, c, from as int) == spec_find_char(line, c, i as int),
        decreases end - i,
    {
        if s.get_char(i) == c {
            proof {
                assert(line[i as int] == s@[i as int]);
            }
            return Some(i);
        }
        proof {
            assert(line[i as int] == s@[i as int]);
        }
        i = i + 1;
    }
    None
}

/// Extract the short commit id from the commit tool's report, e.g.
/// `abc1234` out of `[main abc1234] Add feature`.
pub fn parse_commit_sha(output: &str) -> (r: Option<String>)
    ensures
        r is Some <==> spec_parse_commit_sha(output@) is Some,
        r matches Some(sha) ==> spec_parse_commit_sha(output@) == Some(sha@),
{
    let n = output.unicode_len();
    if n == 0 {
        return None;
    }
    let line_end_raw = match find_char_upto(output, '\n', 0, n) {
        Some(i) => i,
        None => n,
    };
    proof {
        assert(output@.take(n as int) == output@);
    }
    let line_end = if line_end_raw > 0 && output.get_char(line_end_raw - 1) == '\r' {
        line_end_raw - 1
    } else {
        line_end_raw
    };
    let ghost line = spec_first_line(output@);
    proof {
        assert(output@.take(line_end_raw as int).len() == line_end_raw as int);
        if line_end < line_end_raw {
            assert(output@.take(line_end_raw as int).last() == output@[line_end_raw - 1]);
            assert(output@.take(line_end_raw as int).drop_last() =~= output@.take(
                line_end as int,
            ));
        } else if line_end_raw > 0 {
            assert(output@.take(line_end_raw as int).last() == output@[line_end_raw - 1]);
        }
        assert(line == output@.take(line_end as int));
    }
    let sp = match find_char_upto(output, ' ', 0, line_end) {
        Some(i) => i,
        None => {
            return None;
        },
    };
    let end = match find_char_upto(output, ']', sp + 1, line_end) {
        Some(i) => i,
        None => {
            return None;
        },
    };
    let sha = output.substring_char(sp + 1, end).to_owned();
    proof {
        assert(line.subrange(sp + 1, end as int) =~= output@.subrange(sp + 1, end as int));
    }
    Some(sha)
}

/// Turn the commit tool's exit report into the library's result: a failed
/// exit surfaces the tool's diagnostic verbatim; a successful one yields
/// the parsed short id, or the sentinel `unknown` when the report could
/// not be parsed.
pub fn commit_outcome(success: bool, stdout: &str, stderr: String) -> (r: Result<
    CommitOutput,
    CommitError,
>)
    ensures
        r is Ok <==> success,
        !success ==> r == Err::<CommitOutput, CommitError>((CommitError::CommitToolFailed { stderr })),
        r matches Ok(out) ==> match spec_parse_commit_sha(stdout@) {
            Some(sha) => out.commit_sha@ == sha,
            None => out.commit_sha@ == "unknown"@,
        },
{
    if !success {
        return Err(CommitError::CommitToolFailed { stderr });
    }
    let commit_sha = match parse_commit_sha(stdout) {
        Some(sha) => sha,
        None => String::from_str("unknown"),
    };
    Ok(CommitOutput { commit_sha })
}

} // verus!
