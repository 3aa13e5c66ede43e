//! Issue records and process-wide configuration.
//!
//! An issue record comes out of the tabular bug list: an integer id, an
//! optional field listing commit ids, and a free-form options string. The
//! revision an issue resolves to is the first token of the commit-id list
//! (the list is delimited by `", "`); a record whose revision is missing or
//! blank is skipped entirely. The run command is the options string
//! interpolated into a fixed workload-invocation template.

use vstd::prelude::*;
use vstd::string::StrSliceExecFns;
use vstd::string::StringSliceAdditionalSpecFns;

use crate::bytes::push_all;

verus! {

/// One recorded bug report, immutable once read from the bug list.
#[derive(Debug, Clone, PartialEq, Eq)]
pub struct IssueRecord {
    /// Integer id, unique within one batch.
    pub issue_id: u64,
    /// Raw bytes of the commit-id list, absent when the column was empty.
    pub commit_ids: Option<Vec<u8>>,
    /// Free-form option string, empty when the column was empty.
    pub opts: Vec<u8>,
}

/// Whether the two bytes at `i` are the `", "` delimiter of the commit list.
pub open spec fn is_sep_at(s: Seq<u8>, i: int) -> bool {
    0 <= i && i + 1 < s.len() && s[i] == 44 && s[i + 1] == 32
}

/// Length of the prefix of `s` before its first `", "` delimiter, or the
/// whole length when no delimiter occurs.
pub open spec fn first_token_len(s: Seq<u8>) -> nat
    decreases s.len(),
{
    if s.len() < 2 {
        s.len()
    } else if s[0] == 44 && s[1] == 32 {
        0
    } else {
        (1 + first_token_len(s.skip(1))) as nat
    }
}

/// The first token of the commit-id list.
pub open spec fn first_token(s: Seq<u8>) -> Seq<u8> {
    s.take(first_token_len(s) as int)
}

proof fn lemma_first_token_len_shape(s: Seq<u8>)
    ensures
        first_token_len(s) <= s.len(),
        forall|j: int| 0 <= j < first_token_len(s) ==> !is_sep_at(s, j),
        first_token_len(s) == s.len() || is_sep_at(s, first_token_len(s) as int),
    decreases s.len(),
{
    if s.len() < 2 {
    } else if s[0] == 44 && s[1] == 32 {
    } else {
        let s1 = s.skip(1);
        lemma_first_token_len_shape(s1);
        assert forall|j: int| 0 <= j < first_token_len(s) implies !is_sep_at(s, j) by {
            if j == 0 {
                assert(!(s[0] == 44 && s[1] == 32));
            } else {
                assert(!is_sep_at(s1, j - 1));
                assert(s1[j - 1] == s[j]);
                if j + 1 < s.len() {
                    assert(s1[j] == s[j + 1]);
                }
            }
        }
        let f = first_token_len(s) as int;
        if f < s.len() {
            assert(is_sep_at(s1, f - 1));
            assert(s1[f - 1] == s[f]);
            assert(s1[f] == s[f + 1]);
        }
    }
}

proof fn lemma_first_token_len_unique(s: Seq<u8>, i: int)
    requires
        0 <= i <= s.len(),
        forall|j: int| 0 <= j < i ==> !is_sep_at(s, j),
        i == s.len() || is_sep_at(s, i),
    ensures
        i == first_token_len(s),
{
    lemma_first_token_len_shape(s);
    let f = first_token_len(s) as int;
    if i < f {
        assert(!is_sep_at(s, i));
        assert(i < s.len());
    } else if f < i {
        assert(!is_sep_at(s, f));
        assert(f < s.len());
    }
}

/// Index of the first `", "` delimiter, when one occurs.
fn find_sep(s: &Vec<u8>) -> (r: Option<usize>)
    ensures
        match r {
            Some(i) => i == first_token_len(s@) && is_sep_at(s@, i as int),
            None => first_token_len(s@) == s@.len(),
        },
{
    let mut i: usize = 0;
    while i < s.len() && i + 1 < s.len()
        invariant
            i <= s.len(),
            forall|j: int| 0 <= j < i ==> !is_sep_at(s@, j),
        decreases s.len() - i,
    {
        if s[i] == 44 && s[i + 1] == 32 {
            proof {
                lemma_first_token_len_unique(s@, i as int);
            }
            return Some(i);
        }
        i = i + 1;
    }
    proof {
        assert forall|j: int| 0 <= j < s@.len() implies !is_sep_at(s@, j) by {
            if j >= i {
                assert(j + 1 >= s@.len());
            }
        }
        lemma_first_token_len_unique(s@, s@.len() as int);
    }
    None
}

/// Copies the first token of the commit-id list.
pub fn first_token_of(s: &Vec<u8>) -> (t: Vec<u8>)
    ensures
        t@ == first_token(s@),
{
    proof {
        lemma_first_token_len_shape(s@);
    }
    let k: usize = match find_sep(s) {
        Some(i) => i,
        None => s.len(),
    };
    let mut t: Vec<u8> = Vec::new();
    let mut j: usize = 0;
    while j < k
        invariant
            j <= k,
            k <= s@.len(),
            k == first_token_len(s@),
            t@ == s@.take(j as int),
        decreases k - j,
    {
        t.push(s[j]);
        j = j + 1;
        proof {
            assert(t@ =~= s@.take(j as int));
        }
    }
    t
}

/// Whether a byte is ASCII whitespace.
pub open spec fn is_space(b: u8) -> bool {
    b == 32 || (9 <= b && b <= 13)
}

/// Whether every byte is whitespace (an empty sequence is blank).
pub open spec fn is_blank(s: Seq<u8>) -> bool {
    forall|i: int| 0 <= i < s.len() ==> is_space(#[trigger] s[i])
}

/// Reports whether `s` is blank.
pub fn blank(s: &Vec<u8>) -> (r: bool)
    ensures
        r == is_blank(s@),
{
    let mut i: usize = 0;
    while i < s.len()
        invariant
            i <= s.len(),
            forall|j: int| 0 <= j < i ==> is_space(#[trigger] s@[j]),
        decreases s.len() - i,
    {
        let b = s[i];
        if !(b == 32 || (9 <= b && b <= 13)) {
            return false;
        }
        i = i + 1;
    }
    true
}

/// The revision an issue record resolves to: the first token of its
/// commit-id list, or nothing when the list is absent or the token is
/// blank. A record that resolves to nothing is skipped entirely.
pub open spec fn resolved_commit(r: IssueRecord) -> Option<Seq<u8>> {
    match r.commit_ids {
        None => None,
        Some(c) => if is_blank(first_token(c@)) {
            None
        } else {
            Some(first_token(c@))
        },
    }
}

/// Resolves the revision of one record.
pub fn resolve_commit(r: &IssueRecord) -> (c: Option<Vec<u8>>)
    ensures
        match c {
            Some(v) => resolved_commit(*r) == Some(v@),
            None => resolved_commit(*r) is None,
        },
{
    match &r.commit_ids {
        None => None,
        Some(list) => {
            let tok = first_token_of(list);
            if blank(&tok) {
                None
            } else {
                Some(tok)
            }
        },
    }
}

/// Bytes of the fixed workload-invocation template, up to the point where
/// the option string is appended.
pub open spec fn command_prefix() -> Seq<u8> {
    "RUST_LOG=limbo_sim=debug cargo run --bin limbo_sim -- ".spec_bytes()
}

/// The shell command of one run: the template with the options appended.
pub open spec fn run_command_bytes(opts: Seq<u8>) -> Seq<u8> {
    command_prefix() + opts
}

/// Builds the shell command of one run.
pub fn run_command(opts: &Vec<u8>) -> (c: Vec<u8>)
    ensures
        c@ == run_command_bytes(opts@),
{
    let mut c = "RUST_LOG=limbo_sim=debug cargo run --bin limbo_sim -- ".as_bytes_vec();
    push_all(&mut c, opts.as_slice());
    c
}

/// Runs attempted per successfully checked-out issue, unless overridden.
pub const DEFAULT_RUNS_PER_ISSUE: u64 = 100;

/// Wall-clock limit of one run in seconds, unless overridden.
pub const DEFAULT_TIME_LIMIT_SECS: u64 = 600;

/// Process-wide configuration, fixed at startup and threaded through the
/// batch driver.
#[derive(Debug, Clone, Copy, PartialEq, Eq, Structural)]
pub struct HarnessConfig {
    /// How many sequential runs each checked-out issue gets.
    pub runs_per_issue: u64,
    /// Wall-clock limit of one run, in seconds.
    pub time_limit_secs: u64,
}

impl Default for HarnessConfig {
    /// The defaults: one hundred runs per issue, ten minutes per run.
    fn default() -> (c: Self)
        ensures
            c.runs_per_issue == DEFAULT_RUNS_PER_ISSUE,
            c.time_limit_secs == DEFAULT_TIME_LIMIT_SECS,
    {
        HarnessConfig { runs_per_issue: DEFAULT_RUNS_PER_ISSUE, time_limit_secs: DEFAULT_TIME_LIMIT_SECS }
    }
}

/// Whether every byte is an ASCII decimal digit.
pub open spec fn all_digits(s: Seq<u8>) -> bool {
    forall|i: int| 0 <= i < s.len() ==> 48 <= #[trigger] s[i] <= 57
}

/// Numeric value of a digit string, most significant digit first.
pub open spec fn digits_value(s: Seq<u8>) -> int
    decreases s.len(),
{
    if s.len() == 0 {
        0
    } else {
        digits_value(s.drop_last()) * 10 + s.last() - 48
    }
}

/// The digits of a decimal literal: an optional leading `+` sign is not
/// part of the value.
pub open spec fn numeric_body(s: Seq<u8>) -> Seq<u8> {
    if s.len() > 0 && s[0] == 43 {
        s.skip(1)
    } else {
        s
    }
}

/// The configured time limit: the value of the environment override when it
/// is a decimal integer that fits, and the default otherwise.
pub open spec fn time_limit_of(raw: Option<Seq<u8>>) -> int {
    match raw {
        None => DEFAULT_TIME_LIMIT_SECS as int,
        Some(s) => {
            let b = numeric_body(s);
            if b.len() > 0 && all_digits(b) && digits_value(b) <= u64::MAX {
                digits_value(b)
            } else {
                DEFAULT_TIME_LIMIT_SECS as int
            }
        },
    }
}

proof fn lemma_digits_value_nonneg(s: Seq<u8>)
    requires
        all_digits(s),
    ensures
        digits_value(s) >= 0,
    decreases s.len(),
{
    if s.len() > 0 {
        assert(all_digits(s.drop_last()));
        lemma_digits_value_nonneg(s.drop_last());
    }
}

proof fn lemma_digits_value_prefix(s: Seq<u8>, j: int)
    requires
        all_digits(s),
        0 <= j <= s.len(),
    ensures
        digits_value(s.take(j)) <= digits_value(s),
    decreases s.len(),
{
    if j == s.len() {
        assert(s.take(j) =~= s);
    } else {
        let d = s.drop_last();
        assert(all_digits(d));
        assert(d.take(j) =~= s.take(j));
        lemma_digits_value_prefix(d, j);
        lemma_digits_value_nonneg(d);
        assert(digits_value(s) == digits_value(d) * 10 + s.last() - 48);
        assert(digits_value(d) * 10 >= digits_value(d));
    }
}

/// Reads the configured time limit from the raw environment override, when
/// one was present.
pub fn parse_time_limit(raw: &Option<Vec<u8>>) -> (t: u64)
    ensures
        t == time_limit_of(match *raw {
            Some(v) => Some(v@),
            None => None,
        }),
{
    let s = match raw {
        Some(v) => v,
        None => {
            return DEFAULT_TIME_LIMIT_SECS;
        },
    };
    let start: usize = if s.len() > 0 && s[0] == 43 {
        1
    } else {
        0
    };
    proof {
        assert(numeric_body(s@) =~= s@.skip(start as int));
    }
    let ghost body = s@.skip(start as int);
    if start >= s.len() {
        proof {
            assert(body.len() == 0);
        }
        return DEFAULT_TIME_LIMIT_SECS;
    }
    let mut acc: u64 = 0;
    let mut i: usize = start;
    while i < s.len()
        invariant
            *raw == Some(*s),
            start <= i <= s@.len(),
            body == s@.skip(start as int),
            body == numeric_body(s@),
            body.len() > 0,
            body.len() == s@.len() - start,
            forall|j: int| 0 <= j < body.len() ==> body[j] == s@[start + j],
            all_digits(body.take(i - start)),
            acc == digits_value(body.take(i - start)),
        decreases s@.len() - i,
    {
        let b = s[i];
        if b < 48 || b > 57 {
            proof {
                assert(body[i - start] == b);
                assert(!all_digits(body));
            }
            return DEFAULT_TIME_LIMIT_SECS;
        }
        let d: u64 = (b - 48) as u64;
        if acc > (u64::MAX - d) / 10 {
            proof {
                let q = (u64::MAX - d) / 10;
                assert(q * 10 + (u64::MAX - d) % 10 == u64::MAX - d);
                assert(acc * 10 >= (q + 1) * 10);
                let p = body.take(i - start + 1);
                assert(p.drop_last() =~= body.take(i - start));
                assert(p.last() == b);
                assert(digits_value(p) == acc * 10 + b - 48);
                if all_digits(body) {
                    lemma_digits_value_prefix(body, i - start + 1);
                }
            }
            return DEFAULT_TIME_LIMIT_SECS;
        }
        proof {
            let q = (u64::MAX - d) / 10;
            assert(q * 10 + (u64::MAX - d) % 10 == u64::MAX - d);
            assert(acc * 10 <= q * 10);
            let p = body.take(i - start + 1);
            assert(p.drop_last() =~= body.take(i - start));
            assert(p.last() == b);
            assert(all_digits(p));
            assert(digits_value(p) == acc * 10 + b - 48);
        }
        acc = acc * 10 + d;
        i = i + 1;
    }
    proof {
        assert(body.take(i - start) =~= body);
        lemma_digits_value_nonneg(body);
    }
    acc
}

} // verus!
