//! The decision logic of the asynchronous workflows: the eligibility gate
//! that guards the scoring dialog, and the vote-submission flow that resolves
//! the voter, fans the vote writes out, and updates the posted message only
//! after the fan-out has settled.
//!
//! The flows are state machines from plain values to plain values: the caller
//! performs each returned action (a gateway request or a platform call) and
//! hands the outcome back as the next event.

use vstd::prelude::*;

use crate::MalformedInput;
use crate::clock::{calendar_range, datetime_display, format_datetime};
use crate::gateway::{
    ChannelUser, DialogVariant, FindUser, ReadDialogVariantsForLastDay, ReadLastPoll,
    ReadPollVariant, ReadVotesForCurrentUser, SingleVariantSource, UpdatePollTime, VotesResult,
    WriteUser, WriteVotes,
};
use crate::num::{dec_text_of, parse_i32, parse_i32_text, render_u32};
use crate::tally::text_or_empty;
use crate::view_model::PollView;

verus! {

/// What the eligibility gate decides.
#[derive(PartialEq, Eq, Structural, Debug)]
pub enum GateOutcome {
    /// Open the scoring dialog.
    OpenDialog,
    /// Show the "already voted" notice.
    AlreadyVoted,
    /// Show the "not yet open, starts at T" notice.
    NotYetOpen { start_date: i64 },
    /// A lookup failed: a logged no-op, nothing is shown.
    NoAction,
}

/// What eligibility decides. A voter who has not voted sees the dialog once
/// the variant's start has been reached and the "not yet open" notice before
/// it; a voter with a recorded vote sees the "already voted" notice; a failed
/// lookup (`None`) degenerates to a no-op.
pub open spec fn gate_decision(
    already_voted: Option<bool>,
    start_date: Option<i64>,
    now: i64,
) -> GateOutcome {
    match (already_voted, start_date) {
        (Some(voted), Some(start)) => if voted {
            GateOutcome::AlreadyVoted
        } else if now >= start {
            GateOutcome::OpenDialog
        } else {
            GateOutcome::NotYetOpen { start_date: start }
        },
        _ => GateOutcome::NoAction,
    }
}

/// Decides whether the scoring dialog opens. `None` inputs stand for a
/// failed lookup.
pub fn vote_gate(already_voted: Option<bool>, start_date: Option<i64>, now: i64) -> (r: GateOutcome)
    ensures
        r == gate_decision(already_voted, start_date, now),
{
    match (already_voted, start_date) {
        (Some(voted), Some(start)) => {
            if voted {
                GateOutcome::AlreadyVoted
            } else if now >= start {
                GateOutcome::OpenDialog
            } else {
                GateOutcome::NotYetOpen { start_date: start }
            }
        },
        _ => GateOutcome::NoAction,
    }
}

/// Given a voter who has not voted and an instant before the variant's start,
/// the outcome is always "not yet open" — never the scoring dialog.
pub proof fn lemma_gate_closed_before_start(start: i64, now: i64)
    requires
        now < start,
    ensures
        gate_decision(Some(false), Some(start), now) == (GateOutcome::NotYetOpen {
            start_date: start,
        }),
        gate_decision(Some(false), Some(start), now) != GateOutcome::OpenDialog,
{
}

/// Whether some vote on the variant occurs among the voter's vote rows.
pub open spec fn has_vote_on(votes: Seq<VotesResult>, variant_id: i32) -> bool {
    exists|i: int| 0 <= i < votes.len() && (#[trigger] votes[i]).poll_variant_id == variant_id
}

/// Whether the voter whose vote rows these are has already voted on the
/// variant.
pub fn has_voted_for_variant(votes: &Vec<VotesResult>, variant_id: i32) -> (r: bool)
    ensures
        r == has_vote_on(votes@, variant_id),
{
    let mut i: usize = 0;
    while i < votes.len()
        invariant
            i <= votes@.len(),
            forall|k: int| 0 <= k < i ==> (#[trigger] votes@[k]).poll_variant_id != variant_id,
        decreases votes@.len() - i,
    {
        if votes[i].poll_variant_id == variant_id {
            return true;
        }
        i = i + 1;
    }
    false
}

/// The variant id a block-action identifier denotes for voting; an
/// identifier that is no number falls back to variant 1.
pub open spec fn variant_id_of_action(action_id: Seq<char>) -> i32 {
    match parse_i32_text(action_id) {
        Some(v) => v,
        None => 1,
    }
}

/// The two lookups the eligibility gate joins: the voter's vote rows and the
/// variant named by the action identifier.
pub fn eligibility_requests(user_id: String, action_id: &str) -> (r: (
    ReadVotesForCurrentUser,
    ReadPollVariant,
))
    ensures
        r.0.0 == user_id,
        r.1.0 == variant_id_of_action(action_id@),
{
    let variant_id = match parse_i32(action_id) {
        Some(v) => v,
        None => 1,
    };
    (ReadVotesForCurrentUser(user_id), ReadPollVariant(variant_id))
}

/// Whether the voter has a recorded vote on the variant the action
/// identifier names; fails when the identifier is no number.
pub fn check_already_voted(votes: &Vec<VotesResult>, action_id: &str) -> (r: Result<
    bool,
    MalformedInput,
>)
    ensures
        match parse_i32_text(action_id@) {
            Some(vid) => r == Ok::<bool, MalformedInput>(has_vote_on(votes@, vid)),
            None => r == Err::<bool, MalformedInput>(MalformedInput::ActionIdInvalid),
        },
{
    match parse_i32(action_id) {
        Some(vid) => Ok(has_voted_for_variant(votes, vid)),
        None => Err(MalformedInput::ActionIdInvalid),
    }
}

/// The "already voted" notice.
pub fn answered_notice() -> (r: String)
    ensures
        r@ == "Ваш голос уже учтён! Спасибо!"@,
{
    "Ваш голос уже учтён! Спасибо!".to_owned()
}

/// The "not yet open" notice, naming the variant's start.
pub fn not_ready_notice(start_date: i64) -> (r: String)
    requires
        calendar_range(start_date as int),
    ensures
        r@ == "Голосование еще не началось! Ожидаем "@ + datetime_display(start_date as int)
            + "!"@,
{
    let mut s = "Голосование еще не началось! Ожидаем ".to_owned();
    s.append(format_datetime(start_date).as_str());
    s.append("!");
    s
}

/// The value the submission holds for a key: the first binding wins.
pub open spec fn submission_lookup(sub: Seq<(String, String)>, key: Seq<char>) -> Option<Seq<char>>
    decreases sub.len(),
{
    if sub.len() == 0 {
        None
    } else if sub[0].0@ == key {
        Some(sub[0].1@)
    } else {
        submission_lookup(sub.skip(1), key)
    }
}

/// Looks a key up in the submitted answers.
pub fn submission_value(sub: &Vec<(String, String)>, key: &String) -> (r: Option<String>)
    ensures
        match submission_lookup(sub@, key@) {
            Some(t) => r is Some && r->0@ == t,
            None => r is None,
        },
{
    let mut i: usize = 0;
    proof {
        assert(sub@.skip(0) =~= sub@);
    }
    while i < sub.len()
        invariant
            i <= sub@.len(),
            submission_lookup(sub@, key@) == submission_lookup(sub@.skip(i as int), key@),
        decreases sub@.len() - i,
    {
        proof {
            assert(sub@.skip(i as int)[0] == sub@[i as int]);
            assert(sub@.skip(i as int).skip(1) =~= sub@.skip(i + 1));
        }
        if sub[i].0.eq(key) {
            return Some(sub[i].1.clone());
        }
        i = i + 1;
    }
    None
}

/// The vote write one criterion yields: its score is the submitted answer
/// under the criterion's text, and both must be present and numeric.
pub open spec fn vote_write_for(
    voter_id: i32,
    variant_id: i32,
    criterion: DialogVariant,
    sub: Seq<(String, String)>,
) -> Option<WriteVotes> {
    match submission_lookup(sub, criterion.variant_text@) {
        Some(text) => match parse_i32_text(text) {
            Some(score) => Some(
                WriteVotes(voter_id, criterion.day_id, variant_id, criterion.id, score),
            ),
            None => None,
        },
        None => None,
    }
}

/// The whole fan-out: one write per criterion, in order; any missing or
/// non-numeric answer fails the whole submission.
pub open spec fn vote_writes_for(
    voter_id: i32,
    variant_id: i32,
    criteria: Seq<DialogVariant>,
    sub: Seq<(String, String)>,
) -> Option<Seq<WriteVotes>>
    decreases criteria.len(),
{
    if criteria.len() == 0 {
        Some(Seq::empty())
    } else {
        match (
            vote_writes_for(voter_id, variant_id, criteria.drop_last(), sub),
            vote_write_for(voter_id, variant_id, criteria.last(), sub),
        ) {
            (Some(ws), Some(w)) => Some(ws.push(w)),
            _ => None,
        }
    }
}

/// A submission that goes through writes exactly one vote row per criterion
/// of the current poll, in the criteria's order.
pub proof fn lemma_one_write_per_criterion(
    voter_id: i32,
    variant_id: i32,
    criteria: Seq<DialogVariant>,
    sub: Seq<(String, String)>,
    ws: Seq<WriteVotes>,
)
    requires
        vote_writes_for(voter_id, variant_id, criteria, sub) == Some(ws),
    ensures
        ws.len() == criteria.len(),
        forall|k: int|
            0 <= k < criteria.len() ==> Some(#[trigger] ws[k]) == vote_write_for(
                voter_id,
                variant_id,
                criteria[k],
                sub,
            ),
    decreases criteria.len(),
{
    if criteria.len() > 0 {
        let rest = vote_writes_for(voter_id, variant_id, criteria.drop_last(), sub);
        lemma_one_write_per_criterion(
            voter_id,
            variant_id,
            criteria.drop_last(),
            sub,
            rest->0,
        );
        assert(forall|k: int|
            0 <= k < criteria.len() - 1 ==> #[trigger] criteria[k] == criteria.drop_last()[k]);
    }
}

proof fn lemma_writes_none(
    voter_id: i32,
    variant_id: i32,
    criteria: Seq<DialogVariant>,
    sub: Seq<(String, String)>,
    i: int,
)
    requires
        0 <= i < criteria.len(),
        vote_write_for(voter_id, variant_id, criteria[i], sub) is None,
    ensures
        vote_writes_for(voter_id, variant_id, criteria, sub) is None,
    decreases criteria.len(),
{
    if i < criteria.len() - 1 {
        assert(criteria.drop_last()[i] == criteria[i]);
        lemma_writes_none(voter_id, variant_id, criteria.drop_last(), sub, i);
    }
}

/// Builds the vote fan-out for a submission: one write per criterion of the
/// current poll, keyed by (voter, poll, chosen variant, criterion, submitted
/// score).
pub fn build_vote_writes(
    voter_id: i32,
    variant_id: i32,
    criteria: &Vec<DialogVariant>,
    submission: &Vec<(String, String)>,
) -> (r: Result<Vec<WriteVotes>, MalformedInput>)
    ensures
        match vote_writes_for(voter_id, variant_id, criteria@, submission@) {
            Some(ws) => r is Ok && r->Ok_0@ == ws,
            None => r == Err::<Vec<WriteVotes>, MalformedInput>(
                MalformedInput::SubmissionValueInvalid,
            ),
        },
{
    let mut writes: Vec<WriteVotes> = Vec::new();
    let mut i: usize = 0;
    while i < criteria.len()
        invariant
            i <= criteria@.len(),
            vote_writes_for(voter_id, variant_id, criteria@.take(i as int), submission@) == Some(
                writes@,
            ),
        decreases criteria@.len() - i,
    {
        proof {
            assert(criteria@.take(i + 1).drop_last() =~= criteria@.take(i as int));
            assert(criteria@.take(i + 1).last() == criteria@[i as int]);
        }
        let c = &criteria[i];
        let score = match submission_value(submission, &c.variant_text) {
            Some(text) => match parse_i32(text.as_str()) {
                Some(score) => score,
                None => {
                    proof {
                        lemma_writes_none(voter_id, variant_id, criteria@, submission@, i as int);
                    }
                    return Err(MalformedInput::SubmissionValueInvalid);
                },
            },
            None => {
                proof {
                    lemma_writes_none(voter_id, variant_id, criteria@, submission@, i as int);
                }
                return Err(MalformedInput::SubmissionValueInvalid);
            },
        };
        writes.push(WriteVotes(voter_id, c.day_id, variant_id, c.id, score));
        i = i + 1;
    }
    proof {
        assert(criteria@.take(criteria@.len() as int) =~= criteria@);
    }
    Ok(writes)
}

/// Where the vote-submission flow stands, with what later steps still need.
pub enum VoteFlowState {
    /// The voter cache is being queried.
    AwaitingCacheLookup { external_id: String, variant_id: i32, submission: Vec<(String, String)> },
    /// The cache missed; the remote identity service is being queried.
    AwaitingIdentity { external_id: String, variant_id: i32, submission: Vec<(String, String)> },
    /// The voter is being upserted; both identity paths converge here.
    AwaitingUpsert { variant_id: i32, submission: Vec<(String, String)> },
    /// The current poll's criteria are being loaded.
    AwaitingCriteria { voter_id: i32, variant_id: i32, submission: Vec<(String, String)> },
    /// The vote writes were all issued; their join is awaited.
    AwaitingVotesSettled,
    /// The fan-out settled; the latest poll snapshot is being fetched.
    AwaitingPoll,
    /// The posted message is being updated.
    AwaitingUpdate,
    /// The flow ran to completion.
    Done,
    /// The flow died silently: a failure is logged, nothing reaches the voter.
    Failed,
}

/// What the outside world reports back to the flow.
pub enum VoteFlowEvent {
    /// The cache lookup returned, or failed.
    CacheResult(Result<ChannelUser, ()>),
    /// The remote identity service returned external id and thumbnail.
    IdentityResult(Result<(String, String), ()>),
    /// The upsert returned the stored voter row.
    UpsertResult(Result<ChannelUser, ()>),
    /// The criteria of the current poll were read.
    CriteriaResult(Result<Vec<DialogVariant>, ()>),
    /// Every vote write has settled, successfully or not.
    VotesSettled,
    /// The latest poll snapshot was read.
    PollResult(Result<PollView, ()>),
    /// The message update returned.
    MessageUpdated(Result<(), ()>),
}

/// What the flow asks the caller to perform next.
pub enum FlowAction {
    /// Query the voter cache.
    LookUpCache(FindUser),
    /// Query the remote identity service.
    FetchIdentity { external_id: String },
    /// Upsert the voter.
    Upsert(WriteUser),
    /// Load the current poll's criteria.
    LoadCriteria(ReadDialogVariantsForLastDay),
    /// Issue all vote writes in parallel and await them all; individual
    /// failures are logged and do not cancel siblings.
    RecordVotes(Vec<WriteVotes>),
    /// Fetch the latest poll snapshot.
    FetchPoll(ReadLastPoll),
    /// Edit the previously posted message, located by its stored timestamp.
    PushMessageUpdate { ts: String, poll: PollView },
}

/// The transition relation of the vote-submission flow; it pins the next
/// state and action of every state and event.
pub open spec fn flow_transition(
    s: VoteFlowState,
    e: VoteFlowEvent,
    s2: VoteFlowState,
    a: Option<FlowAction>,
) -> bool {
    match (s, e) {
        (
            VoteFlowState::AwaitingCacheLookup { external_id, variant_id, submission },
            VoteFlowEvent::CacheResult(res),
        ) => match res {
            Ok(user) => match (user.user_slack_id, user.user_thumbnail) {
                (Some(slack_id), Some(thumbnail)) => s2 == (VoteFlowState::AwaitingUpsert {
                    variant_id,
                    submission,
                }) && a == Some(FlowAction::Upsert(WriteUser(slack_id, thumbnail))),
                _ => s2 == VoteFlowState::Failed && a is None,
            },
            Err(_) => s2 == (VoteFlowState::AwaitingIdentity {
                external_id,
                variant_id,
                submission,
            }) && a == Some(FlowAction::FetchIdentity { external_id }),
        },
        (
            VoteFlowState::AwaitingIdentity { external_id, variant_id, submission },
            VoteFlowEvent::IdentityResult(res),
        ) => match res {
            Ok((slack_id, thumbnail)) => s2 == (VoteFlowState::AwaitingUpsert {
                variant_id,
                submission,
            }) && a == Some(FlowAction::Upsert(WriteUser(slack_id, thumbnail))),
            Err(_) => s2 == VoteFlowState::Failed && a is None,
        },
        (
            VoteFlowState::AwaitingUpsert { variant_id, submission },
            VoteFlowEvent::UpsertResult(res),
        ) => match res {
            Ok(user) => s2 == (VoteFlowState::AwaitingCriteria {
                voter_id: user.id,
                variant_id,
                submission,
            }) && a == Some(FlowAction::LoadCriteria(ReadDialogVariantsForLastDay)),
            Err(_) => s2 == VoteFlowState::Failed && a is None,
        },
        (
            VoteFlowState::AwaitingCriteria { voter_id, variant_id, submission },
            VoteFlowEvent::CriteriaResult(res),
        ) => match res {
            Ok(criteria) => match vote_writes_for(voter_id, variant_id, criteria@, submission@) {
                Some(ws) => s2 == VoteFlowState::AwaitingVotesSettled && (match a {
                    Some(FlowAction::RecordVotes(v)) => v@ == ws,
                    _ => false,
                }),
                None => s2 == VoteFlowState::Failed && a is None,
            },
            Err(_) => s2 == VoteFlowState::Failed && a is None,
        },
        (VoteFlowState::AwaitingVotesSettled, VoteFlowEvent::VotesSettled) => s2
            == VoteFlowState::AwaitingPoll && a == Some(FlowAction::FetchPoll(ReadLastPoll)),
        (VoteFlowState::AwaitingPoll, VoteFlowEvent::PollResult(res)) => match res {
            Ok(poll) => match poll.time {
                Some(ts) => s2 == VoteFlowState::AwaitingUpdate && (match a {
                    Some(FlowAction::PushMessageUpdate { ts: ts2, poll: poll2 }) => ts2 == ts
                        && poll2.id == poll.id && poll2.variants == poll.variants && poll2.channel
                        == poll.channel && poll2.is_closed == poll.is_closed && poll2.time == Some(
                        ts,
                    ),
                    _ => false,
                }),
                None => s2 == VoteFlowState::Failed && a is None,
            },
            Err(_) => s2 == VoteFlowState::Failed && a is None,
        },
        (VoteFlowState::AwaitingUpdate, VoteFlowEvent::MessageUpdated(_)) => s2
            == VoteFlowState::Done && a is None,
        _ => s2 == VoteFlowState::Failed && a is None,
    }
}

/// Starts the vote-submission flow for a dialog submission: the callback id
/// names the voted variant, and the first step queries the voter cache.
pub fn vote_flow_start(external_id: String, callback_id: &str, submission: Vec<(String, String)>)
    -> (r: Result<(VoteFlowState, FindUser), MalformedInput>)
    ensures
        match parse_i32_text(callback_id@) {
            Some(vid) => match r {
                Ok((s, req)) => s == (VoteFlowState::AwaitingCacheLookup {
                    external_id,
                    variant_id: vid,
                    submission,
                }) && req.0 == external_id,
                Err(_) => false,
            },
            None => r == Err::<(VoteFlowState, FindUser), MalformedInput>(
                MalformedInput::CallbackIdInvalid,
            ),
        },
{
    match parse_i32(callback_id) {
        Some(vid) => {
            let req = FindUser(external_id.clone());
            Ok((
                VoteFlowState::AwaitingCacheLookup {
                    external_id,
                    variant_id: vid,
                    submission,
                },
                req,
            ))
        },
        None => Err(MalformedInput::CallbackIdInvalid),
    }
}

/// Advances the vote-submission flow by one event, returning the next state
/// and the action to perform, if any.
pub fn vote_flow_step(state: VoteFlowState, event: VoteFlowEvent) -> (r: (
    VoteFlowState,
    Option<FlowAction>,
))
    ensures
        flow_transition(state, event, r.0, r.1),
{
    match (state, event) {
        (
            VoteFlowState::AwaitingCacheLookup { external_id, variant_id, submission },
            VoteFlowEvent::CacheResult(res),
        ) => match res {
            Ok(user) => match (user.user_slack_id, user.user_thumbnail) {
                (Some(slack_id), Some(thumbnail)) => (
                    VoteFlowState::AwaitingUpsert { variant_id, submission },
                    Some(FlowAction::Upsert(WriteUser(slack_id, thumbnail))),
                ),
                _ => (VoteFlowState::Failed, None),
            },
            Err(_) => {
                let ext = external_id.clone();
                (
                    VoteFlowState::AwaitingIdentity { external_id, variant_id, submission },
                    Some(FlowAction::FetchIdentity { external_id: ext }),
                )
            },
        },
        (
            VoteFlowState::AwaitingIdentity { external_id: _, variant_id, submission },
            VoteFlowEvent::IdentityResult(res),
        ) => match res {
            Ok((slack_id, thumbnail)) => (
                VoteFlowState::AwaitingUpsert { variant_id, submission },
                Some(FlowAction::Upsert(WriteUser(slack_id, thumbnail))),
            ),
            Err(_) => (VoteFlowState::Failed, None),
        },
        (
            VoteFlowState::AwaitingUpsert { variant_id, submission },
            VoteFlowEvent::UpsertResult(res),
        ) => match res {
            Ok(user) => (
                VoteFlowState::AwaitingCriteria { voter_id: user.id, variant_id, submission },
                Some(FlowAction::LoadCriteria(ReadDialogVariantsForLastDay)),
            ),
            Err(_) => (VoteFlowState::Failed, None),
        },
        (
            VoteFlowState::AwaitingCriteria { voter_id, variant_id, submission },
            VoteFlowEvent::CriteriaResult(res),
        ) => match res {
            Ok(criteria) => match build_vote_writes(voter_id, variant_id, &criteria, &submission) {
                Ok(writes) => (
                    VoteFlowState::AwaitingVotesSettled,
                    Some(FlowAction::RecordVotes(writes)),
                ),
                Err(_) => (VoteFlowState::Failed, None),
            },
            Err(_) => (VoteFlowState::Failed, None),
        },
        (VoteFlowState::AwaitingVotesSettled, VoteFlowEvent::VotesSettled) => (
            VoteFlowState::AwaitingPoll,
            Some(FlowAction::FetchPoll(ReadLastPoll)),
        ),
        (VoteFlowState::AwaitingPoll, VoteFlowEvent::PollResult(res)) => match res {
            Ok(poll) => match poll.time {
                Some(ts) => {
                    let ts2 = ts.clone();
                    let poll2 = PollView {
                        id: poll.id,
                        variants: poll.variants,
                        channel: poll.channel,
                        is_closed: poll.is_closed,
                        time: Some(ts),
                    };
                    (
                        VoteFlowState::AwaitingUpdate,
                        Some(FlowAction::PushMessageUpdate { ts: ts2, poll: poll2 }),
                    )
                },
                None => (VoteFlowState::Failed, None),
            },
            Err(_) => (VoteFlowState::Failed, None),
        },
        (VoteFlowState::AwaitingUpdate, VoteFlowEvent::MessageUpdated(_)) => (
            VoteFlowState::Done,
            None,
        ),
        _ => (VoteFlowState::Failed, None),
    }
}

/// The poll snapshot is fetched only once the whole vote fan-out has
/// settled: the message-update step never overtakes the join.
pub proof fn lemma_fetch_follows_join(
    s: VoteFlowState,
    e: VoteFlowEvent,
    s2: VoteFlowState,
    a: Option<FlowAction>,
)
    requires
        flow_transition(s, e, s2, a),
        a == Some(FlowAction::FetchPoll(ReadLastPoll)),
    ensures
        s is AwaitingVotesSettled,
        e is VotesSettled,
{
}

/// The message update is pushed only for a fetched poll snapshot, at its
/// stored timestamp.
pub proof fn lemma_update_follows_fetch(
    s: VoteFlowState,
    e: VoteFlowEvent,
    s2: VoteFlowState,
    a: Option<FlowAction>,
)
    requires
        flow_transition(s, e, s2, a),
        a matches Some(FlowAction::PushMessageUpdate { .. }),
    ensures
        s is AwaitingPoll,
        e matches VoteFlowEvent::PollResult(res) && res is Ok,
{
}

/// A failing flow is silent: it asks for nothing further, so no error
/// reaches the voter.
pub proof fn lemma_failure_is_silent(
    s: VoteFlowState,
    e: VoteFlowEvent,
    s2: VoteFlowState,
    a: Option<FlowAction>,
)
    requires
        flow_transition(s, e, s2, a),
        s2 is Failed,
    ensures
        a is None,
{
}


/// The scoring dialog's title: a long variant title is cut to its first 21
/// characters and an ellipsis.
pub fn dialog_title(title: &str) -> (r: String)
    ensures
        title@.len() >= 24 ==> r@ == title@.subrange(0, 21) + "..."@,
        title@.len() < 24 ==> r@ == title@,
{
    let n = title.unicode_len();
    if n >= 24 {
        let mut s = title.substring_char(0, 21).to_owned();
        s.append("...");
        s
    } else {
        title.to_owned()
    }
}

/// The scoring dialog's title for a stored variant row: its title where one
/// is stored, empty otherwise, cut as `dialog_title` cuts.
pub fn scoring_dialog_title(variant: &SingleVariantSource) -> (r: String)
    ensures
        text_or_empty(variant.title).len() >= 24 ==> r@ == text_or_empty(variant.title).subrange(
            0,
            21,
        ) + "..."@,
        text_or_empty(variant.title).len() < 24 ==> r@ == text_or_empty(variant.title),
{
    match &variant.title {
        Some(t) => dialog_title(t.as_str()),
        None => {
            proof {
                reveal_strlit("");
            }
            dialog_title("")
        },
    }
}

/// The selectable scores of one criterion: 1 up to its maximum, rendered in
/// decimal.
pub fn score_options(max_score: i32) -> (r: Vec<String>)
    requires
        1 <= max_score <= 100,
    ensures
        r@.len() == max_score,
        forall|k: int| 0 <= k < r@.len() ==> (#[trigger] r@[k])@ == dec_text_of(k + 1),
{
    let mut r: Vec<String> = Vec::new();
    let mut i: u32 = 1;
    while i <= max_score as u32
        invariant
            1 <= i <= max_score + 1,
            max_score <= 100,
            r@.len() == i - 1,
            forall|k: int| 0 <= k < r@.len() ==> (#[trigger] r@[k])@ == dec_text_of(k + 1),
        decreases max_score + 1 - i,
    {
        r.push(render_u32(i));
        i = i + 1;
    }
    r
}

/// Where the poll-posting flow stands: the latest poll is read, posted to
/// its channel, and the platform timestamp of the posted message is stored.
pub enum PostFlowState {
    /// The latest poll snapshot is being read.
    ReadingPoll,
    /// The assembled poll message is being posted.
    Posting,
    /// The posted message's timestamp is being stored.
    StoringTimestamp,
    /// The flow ran to completion.
    Done,
    /// The flow died silently on a failure.
    Failed,
}

/// What the outside world reports back to the posting flow.
pub enum PostFlowEvent {
    /// The latest poll snapshot was read.
    PollResult(Result<PollView, ()>),
    /// The message was posted; the platform returned its timestamp.
    PostResult(Result<String, ()>),
    /// The timestamp write returned.
    TimestampStored(Result<(), ()>),
}

/// What the posting flow asks the caller to perform next.
pub enum PostFlowAction {
    /// Post the assembled poll message to its channel.
    PostPoll(PollView),
    /// Store the platform timestamp of the posted message.
    StoreTimestamp(UpdatePollTime),
}

/// The transition relation of the poll-posting flow.
pub open spec fn post_flow_transition(
    s: PostFlowState,
    e: PostFlowEvent,
    s2: PostFlowState,
    a: Option<PostFlowAction>,
) -> bool {
    match (s, e) {
        (PostFlowState::ReadingPoll, PostFlowEvent::PollResult(res)) => match res {
            Ok(poll) => s2 == PostFlowState::Posting && a == Some(PostFlowAction::PostPoll(poll)),
            Err(_) => s2 == PostFlowState::Failed && a is None,
        },
        (PostFlowState::Posting, PostFlowEvent::PostResult(res)) => match res {
            Ok(ts) => s2 == PostFlowState::StoringTimestamp && a == Some(
                PostFlowAction::StoreTimestamp(UpdatePollTime(ts)),
            ),
            Err(_) => s2 == PostFlowState::Failed && a is None,
        },
        (PostFlowState::StoringTimestamp, PostFlowEvent::TimestampStored(_)) => s2
            == PostFlowState::Done && a is None,
        _ => s2 == PostFlowState::Failed && a is None,
    }
}

/// Advances the poll-posting flow by one event.
pub fn post_flow_step(state: PostFlowState, event: PostFlowEvent) -> (r: (
    PostFlowState,
    Option<PostFlowAction>,
))
    ensures
        post_flow_transition(state, event, r.0, r.1),
{
    match (state, event) {
        (PostFlowState::ReadingPoll, PostFlowEvent::PollResult(res)) => match res {
            Ok(poll) => (PostFlowState::Posting, Some(PostFlowAction::PostPoll(poll))),
            Err(_) => (PostFlowState::Failed, None),
        },
        (PostFlowState::Posting, PostFlowEvent::PostResult(res)) => match res {
            Ok(ts) => (
                PostFlowState::StoringTimestamp,
                Some(PostFlowAction::StoreTimestamp(UpdatePollTime(ts))),
            ),
            Err(_) => (PostFlowState::Failed, None),
        },
        (PostFlowState::StoringTimestamp, PostFlowEvent::TimestampStored(_)) => (
            PostFlowState::Done,
            None,
        ),
        _ => (PostFlowState::Failed, None),
    }
}

/// The posted message's timestamp is stored only once the platform has
/// returned it.
pub proof fn lemma_timestamp_follows_post(
    s: PostFlowState,
    e: PostFlowEvent,
    s2: PostFlowState,
    a: Option<PostFlowAction>,
)
    requires
        post_flow_transition(s, e, s2, a),
        a matches Some(PostFlowAction::StoreTimestamp(..)),
    ensures
        s is Posting,
        e matches PostFlowEvent::PostResult(res) && res is Ok,
{
}

} // verus!
