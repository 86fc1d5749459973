use depotd::error::Error;
use depotd::vocabulary::{fact_tag_from_name, fact_tag_name, FactTag, FACT_TAG_COUNT};

const ALL: [FactTag; 38] = [
    FactTag::BranchPushed,
    FactTag::CoordinatorContextMeasured,
    FactTag::CoordinatorSessionStarted,
    FactTag::DaemonRestarted,
    FactTag::OnEventNotified,
    FactTag::Polled,
    FactTag::ProviderRateLimited,
    FactTag::PullRequestChecksChanged,
    FactTag::PullRequestClosedUnmerged,
    FactTag::PullRequestMergeRefused,
    FactTag::PullRequestMerged,
    FactTag::PullRequestOpened,
    FactTag::PushFailed,
    FactTag::QuestionAnswered,
    FactTag::QuestionAsked,
    FactTag::RebaseScheduled,
    FactTag::RetryExhausted,
    FactTag::RunDurationExceeded,
    FactTag::TaskAcknowledged,
    FactTag::TaskApproved,
    FactTag::TaskCancelled,
    FactTag::TaskDispatchJudged,
    FactTag::TaskProposed,
    FactTag::TaskReleased,
    FactTag::TaskRetried,
    FactTag::ValidationFinished,
    FactTag::ValidationStarted,
    FactTag::WorkerLivenessChanged,
    FactTag::WorkerRedirected,
    FactTag::WorkerSubmissionRecorded,
    FactTag::WorkerSubmitted,
    FactTag::WorkerTurnEnded,
    FactTag::WorkerTurnLaunchRequested,
    FactTag::WorkerTurnResumeRequested,
    FactTag::WorkerTurnStarted,
    FactTag::WorkerTurnUnresolved,
    FactTag::WorktreeAcquireRequested,
    FactTag::WorktreeAcquired,
];

#[test]
fn every_fact_tag_reads_back_from_its_name() {
    assert_eq!(ALL.len(), FACT_TAG_COUNT);
    for tag in ALL {
        assert_eq!(fact_tag_from_name(fact_tag_name(tag)), Ok(tag));
    }
    let mut names: Vec<&str> = ALL.iter().map(|tag| fact_tag_name(*tag)).collect();
    names.sort();
    names.dedup();
    assert_eq!(names.len(), FACT_TAG_COUNT);
}

#[test]
fn fact_tags_have_snake_case_names() {
    assert_eq!(fact_tag_name(FactTag::TaskDispatchJudged), "task_dispatch_judged");
    assert_eq!(fact_tag_name(FactTag::Polled), "polled");
    assert_eq!(fact_tag_name(FactTag::PullRequestClosedUnmerged), "pull_request_closed_unmerged");
    assert_eq!(
        fact_tag_from_name("no_such_fact"),
        Err(Error::Schema("unknown fact kind `no_such_fact`".to_string()))
    );
}
