use poll_engine::gateway::{ChannelUser, DialogVariant, VotesResult};
use poll_engine::view_model::PollView;
use poll_engine::workflow::{
    answered_notice, build_vote_writes, check_already_voted, dialog_title, eligibility_requests,
    has_voted_for_variant, not_ready_notice, post_flow_step, score_options, vote_flow_start,
    vote_flow_step, vote_gate, FlowAction, GateOutcome, PostFlowAction, PostFlowEvent,
    PostFlowState, VoteFlowEvent, VoteFlowState,
};
use poll_engine::MalformedInput;

fn vote(id: i32, user_id: i32, poll_variant_id: i32) -> VotesResult {
    VotesResult { id, user_id, day_id: 1, poll_variant_id, dialog_variant_id: 1, score: 5 }
}

#[test]
fn gate_shows_not_yet_open_before_start() {
    // not yet voted, now strictly before the start: never the dialog
    assert_eq!(
        vote_gate(Some(false), Some(1000), 999),
        GateOutcome::NotYetOpen { start_date: 1000 }
    );
    assert_eq!(
        vote_gate(Some(false), Some(i64::MAX), 0),
        GateOutcome::NotYetOpen { start_date: i64::MAX }
    );
}

#[test]
fn gate_opens_the_dialog_once_started() {
    assert_eq!(vote_gate(Some(false), Some(1000), 1000), GateOutcome::OpenDialog);
    assert_eq!(vote_gate(Some(false), Some(1000), 2000), GateOutcome::OpenDialog);
}

#[test]
fn gate_shows_already_voted_whatever_the_time() {
    assert_eq!(vote_gate(Some(true), Some(1000), 0), GateOutcome::AlreadyVoted);
    assert_eq!(vote_gate(Some(true), Some(1000), 5000), GateOutcome::AlreadyVoted);
}

#[test]
fn gate_is_a_no_op_when_a_lookup_failed() {
    assert_eq!(vote_gate(None, Some(1000), 2000), GateOutcome::NoAction);
    assert_eq!(vote_gate(Some(false), None, 2000), GateOutcome::NoAction);
    assert_eq!(vote_gate(None, None, 2000), GateOutcome::NoAction);
}

#[test]
fn voted_check_finds_the_variant() {
    let votes = vec![vote(1, 7, 3), vote(2, 7, 5)];
    assert!(has_voted_for_variant(&votes, 3));
    assert!(!has_voted_for_variant(&votes, 4));
    assert_eq!(check_already_voted(&votes, "5"), Ok(true));
    assert_eq!(check_already_voted(&votes, "9"), Ok(false));
    assert_eq!(check_already_voted(&votes, "abc"), Err(MalformedInput::ActionIdInvalid));
}

#[test]
fn eligibility_lookups_name_voter_and_variant() {
    let (votes_req, variant_req) = eligibility_requests("U1".to_string(), "12");
    assert_eq!(votes_req.0, "U1");
    assert_eq!(variant_req.0, 12);
    // an identifier that is no number falls back to variant 1
    let (_, variant_req) = eligibility_requests("U1".to_string(), "nope");
    assert_eq!(variant_req.0, 1);
}

fn criterion(id: i32, text: &str) -> DialogVariant {
    DialogVariant { id, day_id: 4, variant_text: text.to_string(), max_score: 10 }
}

#[test]
fn fan_out_writes_one_row_per_criterion() {
    let criteria = vec![criterion(21, "Качество"), criterion(22, "Скорость")];
    let submission = vec![
        ("Качество".to_string(), "7".to_string()),
        ("Скорость".to_string(), "9".to_string()),
    ];
    let writes = build_vote_writes(77, 3, &criteria, &submission).unwrap();
    assert_eq!(writes.len(), 2);
    // (voter, poll, chosen variant, criterion, submitted score)
    assert_eq!(
        (writes[0].0, writes[0].1, writes[0].2, writes[0].3, writes[0].4),
        (77, 4, 3, 21, 7)
    );
    assert_eq!(
        (writes[1].0, writes[1].1, writes[1].2, writes[1].3, writes[1].4),
        (77, 4, 3, 22, 9)
    );
}

#[test]
fn fan_out_fails_on_missing_or_bad_answers() {
    let criteria = vec![criterion(21, "Качество")];
    let missing: Vec<(String, String)> = Vec::new();
    assert!(matches!(
        build_vote_writes(77, 3, &criteria, &missing),
        Err(MalformedInput::SubmissionValueInvalid)
    ));
    let bad = vec![("Качество".to_string(), "ten".to_string())];
    assert!(matches!(
        build_vote_writes(77, 3, &criteria, &bad),
        Err(MalformedInput::SubmissionValueInvalid)
    ));
}

#[test]
fn vote_flow_runs_to_completion_in_order() {
    let submission = vec![("Качество".to_string(), "7".to_string())];
    let (state, cache_req) =
        vote_flow_start("U1".to_string(), "3", submission).expect("numeric callback id");
    assert_eq!(cache_req.0, "U1");

    // cache miss: the remote identity service is asked
    let (state, action) = vote_flow_step(state, VoteFlowEvent::CacheResult(Err(())));
    assert!(matches!(action, Some(FlowAction::FetchIdentity { ref external_id }) if external_id == "U1"));

    // identity arrives: write-through upsert
    let (state, action) = vote_flow_step(
        state,
        VoteFlowEvent::IdentityResult(Ok(("U1".to_string(), "a.png".to_string()))),
    );
    let upsert = match action {
        Some(FlowAction::Upsert(w)) => w,
        other => panic!("expected an upsert, got {:?}", other.is_some()),
    };
    assert_eq!(upsert.0, "U1");
    assert_eq!(upsert.1, "a.png");

    // the stored voter row comes back: criteria are loaded
    let stored = ChannelUser {
        id: 77,
        user_slack_id: Some("U1".to_string()),
        user_thumbnail: Some("a.png".to_string()),
    };
    let (state, action) = vote_flow_step(state, VoteFlowEvent::UpsertResult(Ok(stored)));
    assert!(matches!(action, Some(FlowAction::LoadCriteria(_))));

    // criteria arrive: the fan-out is issued
    let criteria = vec![criterion(21, "Качество")];
    let (state, action) = vote_flow_step(state, VoteFlowEvent::CriteriaResult(Ok(criteria)));
    let writes = match action {
        Some(FlowAction::RecordVotes(w)) => w,
        _ => panic!("expected the vote fan-out"),
    };
    assert_eq!(writes.len(), 1);
    assert_eq!((writes[0].0, writes[0].1, writes[0].2, writes[0].3, writes[0].4), (77, 4, 3, 21, 7));

    // only the settled join unlocks the poll fetch
    let (state, action) = vote_flow_step(state, VoteFlowEvent::VotesSettled);
    assert!(matches!(action, Some(FlowAction::FetchPoll(_))));

    // the snapshot arrives: the posted message is edited at its timestamp
    let poll = PollView {
        id: Some(4),
        variants: Vec::new(),
        channel: "C1".to_string(),
        is_closed: false,
        time: Some("163.5".to_string()),
    };
    let (state, action) = vote_flow_step(state, VoteFlowEvent::PollResult(Ok(poll)));
    match action {
        Some(FlowAction::PushMessageUpdate { ts, poll }) => {
            assert_eq!(ts, "163.5");
            assert_eq!(poll.channel, "C1");
        },
        _ => panic!("expected the message update"),
    }

    let (state, action) = vote_flow_step(state, VoteFlowEvent::MessageUpdated(Ok(())));
    assert!(matches!(state, VoteFlowState::Done));
    assert!(action.is_none());
}

#[test]
fn vote_flow_cache_hit_skips_the_identity_service() {
    let submission = vec![("Качество".to_string(), "7".to_string())];
    let (state, _) = vote_flow_start("U1".to_string(), "3", submission).unwrap();
    let cached = ChannelUser {
        id: 77,
        user_slack_id: Some("U1".to_string()),
        user_thumbnail: Some("a.png".to_string()),
    };
    let (_, action) = vote_flow_step(state, VoteFlowEvent::CacheResult(Ok(cached)));
    // even a cache hit writes through
    assert!(matches!(action, Some(FlowAction::Upsert(_))));
}

#[test]
fn vote_flow_never_fetches_before_the_join() {
    let submission = vec![("Качество".to_string(), "7".to_string())];
    let (state, _) = vote_flow_start("U1".to_string(), "3", submission).unwrap();
    // a poll snapshot arriving out of order dies silently
    let poll = PollView {
        id: Some(4),
        variants: Vec::new(),
        channel: "C1".to_string(),
        is_closed: false,
        time: Some("163.5".to_string()),
    };
    let (state, action) = vote_flow_step(state, VoteFlowEvent::PollResult(Ok(poll)));
    assert!(matches!(state, VoteFlowState::Failed));
    assert!(action.is_none());
}

#[test]
fn vote_flow_fails_fast_on_a_bad_callback_id() {
    assert!(matches!(
        vote_flow_start("U1".to_string(), "not a number", Vec::new()),
        Err(MalformedInput::CallbackIdInvalid)
    ));
}

#[test]
fn vote_flow_dies_silently_on_failures() {
    let (state, _) = vote_flow_start("U1".to_string(), "3", Vec::new()).unwrap();
    let (state, action) = vote_flow_step(state, VoteFlowEvent::CacheResult(Err(())));
    assert!(matches!(action, Some(FlowAction::FetchIdentity { .. })));
    let (state, action) = vote_flow_step(state, VoteFlowEvent::IdentityResult(Err(())));
    assert!(matches!(state, VoteFlowState::Failed));
    assert!(action.is_none());
}

#[test]
fn posting_flow_stores_the_returned_timestamp() {
    let poll = PollView {
        id: Some(4),
        variants: Vec::new(),
        channel: "C1".to_string(),
        is_closed: false,
        time: None,
    };
    let (state, action) = post_flow_step(PostFlowState::ReadingPoll, PostFlowEvent::PollResult(Ok(poll)));
    assert!(matches!(action, Some(PostFlowAction::PostPoll(_))));
    let (state, action) =
        post_flow_step(state, PostFlowEvent::PostResult(Ok("164.2".to_string())));
    match action {
        Some(PostFlowAction::StoreTimestamp(req)) => assert_eq!(req.0, "164.2"),
        _ => panic!("expected the timestamp write"),
    }
    let (state, action) = post_flow_step(state, PostFlowEvent::TimestampStored(Ok(())));
    assert!(matches!(state, PostFlowState::Done));
    assert!(action.is_none());
}

#[test]
fn long_dialog_titles_are_cut() {
    assert_eq!(dialog_title("short"), "short");
    assert_eq!(dialog_title("abcdefghijklmnopqrstuvw"), "abcdefghijklmnopqrstuvw"); // 23 chars
    assert_eq!(dialog_title("abcdefghijklmnopqrstuvwx"), "abcdefghijklmnopqrstu..."); // 24 chars
    assert_eq!(
        dialog_title("Очень длинное название варианта для голосования"),
        "Очень длинное названи..."
    );
}

#[test]
fn score_options_run_one_to_max() {
    assert_eq!(score_options(3), vec!["1".to_string(), "2".to_string(), "3".to_string()]);
    assert_eq!(score_options(1), vec!["1".to_string()]);
    assert_eq!(score_options(12).last().unwrap(), "12");
}

#[test]
fn eligibility_notices_name_the_facts() {
    assert_eq!(answered_notice(), "Ваш голос уже учтён! Спасибо!");
    assert_eq!(
        not_ready_notice(1442620564),
        "Голосование еще не началось! Ожидаем 2015-09-18 23:56:04!"
    );
}
