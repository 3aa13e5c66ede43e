use repro_harness::bytes::u64_to_dec;
use repro_harness::outcome::RunArtifacts;
use repro_harness::record::{
    parse_time_limit, resolve_commit, run_command, HarnessConfig, IssueRecord,
};
use repro_harness::store::{issue_dir, run_dir, run_store_writes};

fn record(issue_id: u64, commit_ids: Option<&str>, opts: &str) -> IssueRecord {
    IssueRecord {
        issue_id,
        commit_ids: commit_ids.map(|s| s.as_bytes().to_vec()),
        opts: opts.as_bytes().to_vec(),
    }
}

#[test]
fn decimal_rendering() {
    assert_eq!(u64_to_dec(0), b"0".to_vec());
    assert_eq!(u64_to_dec(7), b"7".to_vec());
    assert_eq!(u64_to_dec(10), b"10".to_vec());
    assert_eq!(u64_to_dec(100), b"100".to_vec());
    assert_eq!(u64_to_dec(12345), b"12345".to_vec());
    assert_eq!(u64_to_dec(u64::MAX), b"18446744073709551615".to_vec());
}

#[test]
fn missing_commit_resolves_to_nothing() {
    assert_eq!(resolve_commit(&record(1, None, "")), None);
}

#[test]
fn blank_commit_resolves_to_nothing() {
    assert_eq!(resolve_commit(&record(1, Some(""), "")), None);
    assert_eq!(resolve_commit(&record(1, Some("   "), "")), None);
    assert_eq!(resolve_commit(&record(1, Some("\t \n"), "")), None);
}

#[test]
fn first_commit_of_list_is_used() {
    assert_eq!(
        resolve_commit(&record(1, Some("abc123, def456"), "")),
        Some(b"abc123".to_vec())
    );
}

#[test]
fn single_commit_is_used_whole() {
    assert_eq!(resolve_commit(&record(1, Some("abc123"), "")), Some(b"abc123".to_vec()));
}

#[test]
fn commit_list_without_space_is_one_token() {
    assert_eq!(resolve_commit(&record(1, Some("abc,def"), "")), Some(b"abc,def".to_vec()));
}

#[test]
fn empty_first_token_is_blank() {
    assert_eq!(resolve_commit(&record(1, Some(", def456"), "")), None);
}

#[test]
fn run_command_interpolates_options() {
    assert_eq!(
        run_command(&b"--seed 42".to_vec()),
        b"RUST_LOG=limbo_sim=debug cargo run --bin limbo_sim -- --seed 42".to_vec()
    );
    assert_eq!(
        run_command(&Vec::new()),
        b"RUST_LOG=limbo_sim=debug cargo run --bin limbo_sim -- ".to_vec()
    );
}

#[test]
fn store_paths() {
    assert_eq!(issue_dir(12), b"results/12".to_vec());
    assert_eq!(run_dir(12, 3), b"results/12/run_3".to_vec());
    assert_eq!(run_dir(0, 100), b"results/0/run_100".to_vec());
}

#[test]
fn three_writes_per_run() {
    let dir = run_dir(4, 1);
    let a = RunArtifacts {
        stdout: b"o".to_vec(),
        stderr: b"e".to_vec(),
        exit_code: b"0".to_vec(),
    };
    let w = run_store_writes(&dir, a);
    assert_eq!(w.len(), 3);
    assert_eq!(w[0].path, b"results/4/run_1/stdout.txt".to_vec());
    assert_eq!(w[0].content, b"o".to_vec());
    assert_eq!(w[1].path, b"results/4/run_1/stderr.txt".to_vec());
    assert_eq!(w[1].content, b"e".to_vec());
    assert_eq!(w[2].path, b"results/4/run_1/exit_code.txt".to_vec());
    assert_eq!(w[2].content, b"0".to_vec());
}

#[test]
fn rerun_overwrites_with_latest_content_only() {
    let dir = run_dir(4, 1);
    let first = RunArtifacts {
        stdout: b"stale out".to_vec(),
        stderr: b"stale err".to_vec(),
        exit_code: b"1".to_vec(),
    };
    let second = RunArtifacts {
        stdout: b"fresh out".to_vec(),
        stderr: Vec::new(),
        exit_code: b"0".to_vec(),
    };
    let w1 = run_store_writes(&dir, first);
    let w2 = run_store_writes(&dir, second);
    for (a, b) in w1.iter().zip(w2.iter()) {
        assert_eq!(a.path, b.path);
    }
    assert_eq!(w2[0].content, b"fresh out".to_vec());
    assert_eq!(w2[1].content, Vec::<u8>::new());
    assert_eq!(w2[2].content, b"0".to_vec());
}

#[test]
fn default_configuration() {
    let c = HarnessConfig::default();
    assert_eq!(c.runs_per_issue, 100);
    assert_eq!(c.time_limit_secs, 600);
}

#[test]
fn time_limit_parsing() {
    assert_eq!(parse_time_limit(&None), 600);
    assert_eq!(parse_time_limit(&Some(b"60".to_vec())), 60);
    assert_eq!(parse_time_limit(&Some(b"+5".to_vec())), 5);
    assert_eq!(parse_time_limit(&Some(b"0".to_vec())), 0);
    assert_eq!(parse_time_limit(&Some(b"".to_vec())), 600);
    assert_eq!(parse_time_limit(&Some(b"+".to_vec())), 600);
    assert_eq!(parse_time_limit(&Some(b"12a".to_vec())), 600);
    assert_eq!(parse_time_limit(&Some(b"-5".to_vec())), 600);
    assert_eq!(parse_time_limit(&Some(b" 5".to_vec())), 600);
    assert_eq!(
        parse_time_limit(&Some(b"18446744073709551615".to_vec())),
        u64::MAX
    );
    assert_eq!(parse_time_limit(&Some(b"18446744073709551616".to_vec())), 600);
}
