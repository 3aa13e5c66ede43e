use repro_harness::pipeline::{
    BatchDriver, IssuePipeline, IssueStatus, PipelineAction, PipelineEvent,
};
use repro_harness::record::{HarnessConfig, IssueRecord};

fn record(issue_id: u64, commit_ids: Option<&str>, opts: &str) -> IssueRecord {
    IssueRecord {
        issue_id,
        commit_ids: commit_ids.map(|s| s.as_bytes().to_vec()),
        opts: opts.as_bytes().to_vec(),
    }
}

fn config(runs: u64) -> HarnessConfig {
    HarnessConfig { runs_per_issue: runs, time_limit_secs: 30 }
}

fn is_store_write(a: &PipelineAction) -> bool {
    matches!(
        a,
        PipelineAction::WriteProvenance { .. } | PipelineAction::RunSimulation { .. }
    )
}

#[test]
fn blank_revision_produces_nothing() {
    let p = IssuePipeline::new(&record(9, Some("  "), ""), &config(3));
    let a = p.next_action();
    assert_eq!(a, PipelineAction::Report { status: IssueStatus::Skipped });
    assert!(!is_store_write(&a));
}

#[test]
fn missing_revision_produces_nothing() {
    let p = IssuePipeline::new(&record(9, None, "--x"), &config(3));
    let a = p.next_action();
    assert_eq!(a, PipelineAction::Report { status: IssueStatus::Skipped });
}

#[test]
fn successful_issue_runs_every_index_once() {
    let mut p = IssuePipeline::new(&record(5, Some("c0ffee, beef"), "--seed 1"), &config(3));

    let a = p.next_action();
    assert_eq!(a, PipelineAction::Checkout { revision: b"c0ffee".to_vec() });
    p.apply(PipelineEvent::CheckoutFinished { ok: true });

    let a = p.next_action();
    assert_eq!(
        a,
        PipelineAction::WriteProvenance {
            dir: b"results/5".to_vec(),
            content: b"c0ffee\n".to_vec(),
        }
    );
    p.apply(PipelineEvent::ProvenanceWritten);

    let a = p.next_action();
    assert_eq!(a, PipelineAction::ResetCache);
    p.apply(PipelineEvent::CacheResetFinished { ok: true });

    for k in 1..=3u64 {
        let a = p.next_action();
        assert_eq!(
            a,
            PipelineAction::RunSimulation {
                run_dir: format!("results/5/run_{}", k).into_bytes(),
                command: b"RUST_LOG=limbo_sim=debug cargo run --bin limbo_sim -- --seed 1"
                    .to_vec(),
                run_index: k,
                time_limit_secs: 30,
            }
        );
        p.apply(PipelineEvent::RunFinished);
    }

    let a = p.next_action();
    assert_eq!(a, PipelineAction::Report { status: IssueStatus::Completed });
}

#[test]
fn checkout_failure_abandons_issue_before_any_write() {
    let mut p = IssuePipeline::new(&record(7, Some("deadbeef"), ""), &config(100));
    let a = p.next_action();
    assert_eq!(a, PipelineAction::Checkout { revision: b"deadbeef".to_vec() });
    assert!(!is_store_write(&a));
    p.apply(PipelineEvent::CheckoutFinished { ok: false });
    let a = p.next_action();
    assert_eq!(a, PipelineAction::Report { status: IssueStatus::CheckoutFailed });
    assert!(!is_store_write(&a));
}

#[test]
fn cache_reset_failure_stops_before_runs() {
    let mut p = IssuePipeline::new(&record(7, Some("deadbeef"), ""), &config(100));
    p.apply(PipelineEvent::CheckoutFinished { ok: true });
    p.apply(PipelineEvent::ProvenanceWritten);
    p.apply(PipelineEvent::CacheResetFinished { ok: false });
    let a = p.next_action();
    assert_eq!(a, PipelineAction::Report { status: IssueStatus::CacheResetFailed });
}

#[test]
fn batch_continues_past_failed_issue() {
    let records = vec![
        record(1, Some("aaa"), ""),
        record(2, Some("bbb"), ""),
    ];
    let mut d = BatchDriver::new(records, config(2));

    let mut p1 = d.next_issue().expect("first issue");
    assert_eq!(p1.issue_id, 1);
    p1.apply(PipelineEvent::CheckoutFinished { ok: false });
    assert_eq!(
        p1.next_action(),
        PipelineAction::Report { status: IssueStatus::CheckoutFailed }
    );

    let p2 = d.next_issue().expect("second issue despite first failing");
    assert_eq!(p2.issue_id, 2);
    assert_eq!(p2.next_action(), PipelineAction::Checkout { revision: b"bbb".to_vec() });

    assert!(d.next_issue().is_none());
}

#[test]
fn batch_hands_out_records_in_source_order() {
    let records = vec![
        record(30, None, ""),
        record(10, Some("x"), ""),
        record(20, Some("y"), ""),
    ];
    let mut d = BatchDriver::new(records, config(1));
    assert_eq!(d.next_issue().unwrap().issue_id, 30);
    assert_eq!(d.next_issue().unwrap().issue_id, 10);
    assert_eq!(d.next_issue().unwrap().issue_id, 20);
    assert!(d.next_issue().is_none());
}

#[test]
fn skipped_pipeline_absorbs_every_event() {
    let mut p = IssuePipeline::new(&record(9, None, ""), &config(3));
    p.apply(PipelineEvent::CheckoutFinished { ok: true });
    p.apply(PipelineEvent::ProvenanceWritten);
    p.apply(PipelineEvent::CacheResetFinished { ok: true });
    p.apply(PipelineEvent::RunFinished);
    assert_eq!(
        p.next_action(),
        PipelineAction::Report { status: IssueStatus::Skipped }
    );
}
