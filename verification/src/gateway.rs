//! The persistence gateway's typed requests and rows. The store itself is an
//! external collaborator: callers issue these requests, perform them outside
//! the library, and hand the row values back in.
//!
//! Row instants are seconds relative to the Unix epoch; report scores are
//! hundredths of a point.

use vstd::prelude::*;

use crate::draft::PollData;
use crate::view_model::{DialogView, DialogViewVariant, PollView, SingleVariant, clamp_max_score, clamped_score};

verus! {

/// Read one poll by id.
pub struct ReadPoll(pub i32);

/// Read the most recently created poll, with its variants and vote summary.
pub struct ReadLastPoll;

/// Look a voter up in the local cache by external identity.
pub struct FindUser(pub String);

/// Upsert a voter: external identity and thumbnail URL.
pub struct WriteUser(pub String, pub String);

/// Append one vote row: voter, poll, variant, criterion, score.
pub struct WriteVotes(pub i32, pub i32, pub i32, pub i32, pub i32);

/// Read all vote rows of the current poll, grouped by variant.
pub struct ReadVotesForCurrentDay;

/// Read one variant of the current poll by id.
pub struct ReadPollVariant(pub i32);

/// Read the current poll's vote rows of one voter, by external identity.
pub struct ReadVotesForCurrentUser(pub String);

/// Read the current poll's criteria.
pub struct ReadDialogVariantsForLastDay;

/// Persist a finalized draft as a new poll.
pub struct WriteNewPoll(pub PollData);

/// Record the platform timestamp of the posted poll message.
pub struct UpdatePollTime(pub String);

/// Read the aggregated rows the closing report is built from.
pub struct GetPollReport;

/// A cached voter row.
#[derive(Clone)]
pub struct ChannelUser {
    pub id: i32,
    pub user_slack_id: Option<String>,
    pub user_thumbnail: Option<String>,
}

/// A voter row as written: thumbnail absent when the platform gave none.
pub struct ChannelUserWrite {
    pub user_slack_id: String,
    pub user_thumbnail: Option<String>,
}

/// One row of the append-only vote log.
#[derive(Clone, Copy)]
pub struct VotesResult {
    pub id: i32,
    pub user_id: i32,
    pub day_id: i32,
    pub poll_variant_id: i32,
    pub dialog_variant_id: i32,
    pub score: i32,
}

/// A vote row as written; the store assigns the id.
pub struct VotesResultWrite {
    pub user_id: i32,
    pub day_id: i32,
    pub poll_variant_id: i32,
    pub dialog_variant_id: i32,
    pub score: i32,
}

/// A persisted criterion row.
#[derive(Clone)]
pub struct DialogVariant {
    pub id: i32,
    pub day_id: i32,
    pub variant_text: String,
    pub max_score: i32,
}

/// A criterion row as written.
pub struct DialogVariantWrite {
    pub day_id: i32,
    pub variant_text: String,
    pub max_score: i32,
}

/// A poll row as written: open, not yet posted.
pub struct PollViewWrite {
    pub channel: String,
    pub is_closed: bool,
    pub time: Option<String>,
}

/// A persisted poll row.
#[derive(Clone)]
pub struct PollViewSource {
    pub id: i32,
    pub channel: String,
    pub is_closed: bool,
    pub time: Option<String>,
}

/// A persisted variant row.
#[derive(Clone)]
pub struct SingleVariantSource {
    pub id: i32,
    pub day_id: i32,
    pub title: Option<String>,
    pub variant: Option<String>,
    pub start_date: i64,
    pub end_date: Option<i64>,
}

/// A variant row as written.
pub struct SingleVariantWrite {
    pub day_id: i32,
    pub title: String,
    pub variant: String,
    pub start_date: i64,
    pub end_date: Option<i64>,
}

/// One aggregated report row; `score` is an average in hundredths of a point.
pub struct PollReportSource {
    pub team: String,
    pub channel: String,
    pub total_votes: i32,
    pub score: i64,
}

impl WriteUser {
    /// The row an upsert stores: an empty thumbnail is stored as absent.
    pub fn to_write(self) -> (r: ChannelUserWrite)
        ensures
            r.user_slack_id == self.0,
            self.1@.len() == 0 ==> r.user_thumbnail is None,
            self.1@.len() > 0 ==> r.user_thumbnail == Some(self.1),
    {
        let WriteUser(slack_id, thumbnail) = self;
        let stored = if thumbnail.as_str().unicode_len() == 0 {
            None
        } else {
            Some(thumbnail)
        };
        ChannelUserWrite { user_slack_id: slack_id, user_thumbnail: stored }
    }
}

impl WriteVotes {
    /// The vote-log row this request appends.
    pub fn to_write(self) -> (r: VotesResultWrite)
        ensures
            r.user_id == self.0,
            r.day_id == self.1,
            r.poll_variant_id == self.2,
            r.dialog_variant_id == self.3,
            r.score == self.4,
    {
        let WriteVotes(user_id, day_id, poll_variant_id, dialog_variant_id, score) = self;
        VotesResultWrite { user_id, day_id, poll_variant_id, dialog_variant_id, score }
    }
}

impl PollView {
    /// The poll row a finalized draft creates: open, not yet posted.
    pub fn to_write(&self) -> (r: PollViewWrite)
        ensures
            r.channel == self.channel,
            !r.is_closed,
            r.time is None,
    {
        PollViewWrite { channel: self.channel.clone(), is_closed: false, time: None }
    }
}

/// The variant rows a new poll writes, each owned by the poll.
pub fn poll_variant_writes(poll_id: i32, variants: &Vec<SingleVariant>) -> (r: Vec<
    SingleVariantWrite,
>)
    ensures
        r@.len() == variants@.len(),
        forall|i: int|
            0 <= i < r@.len() ==> (#[trigger] r@[i]).day_id == poll_id && r@[i].title
                == variants@[i].title && r@[i].variant == variants@[i].variant && r@[i].start_date
                == variants@[i].start_date && r@[i].end_date is None,
{
    let mut r: Vec<SingleVariantWrite> = Vec::new();
    let mut i: usize = 0;
    while i < variants.len()
        invariant
            i <= variants@.len(),
            r@.len() == i,
            forall|k: int|
                0 <= k < i ==> (#[trigger] r@[k]).day_id == poll_id && r@[k].title
                    == variants@[k].title && r@[k].variant == variants@[k].variant
                    && r@[k].start_date == variants@[k].start_date && r@[k].end_date is None,
        decreases variants@.len() - i,
    {
        let v = &variants[i];
        r.push(
            SingleVariantWrite {
                day_id: poll_id,
                title: v.title.clone(),
                variant: v.variant.clone(),
                start_date: v.start_date,
                end_date: None,
            },
        );
        i = i + 1;
    }
    r
}

/// The criterion rows a new poll writes, each owned by the poll.
pub fn criteria_writes(poll_id: i32, criteria: &Vec<DialogViewVariant>) -> (r: Vec<
    DialogVariantWrite,
>)
    ensures
        r@.len() == criteria@.len(),
        forall|i: int|
            0 <= i < r@.len() ==> (#[trigger] r@[i]).day_id == poll_id && r@[i].variant_text
                == criteria@[i].variant_text && r@[i].max_score == criteria@[i].max_score,
{
    let mut r: Vec<DialogVariantWrite> = Vec::new();
    let mut i: usize = 0;
    while i < criteria.len()
        invariant
            i <= criteria@.len(),
            r@.len() == i,
            forall|k: int|
                0 <= k < i ==> (#[trigger] r@[k]).day_id == poll_id && r@[k].variant_text
                    == criteria@[k].variant_text && r@[k].max_score == criteria@[k].max_score,
        decreases criteria@.len() - i,
    {
        let c = &criteria[i];
        r.push(
            DialogVariantWrite {
                day_id: poll_id,
                variant_text: c.variant_text.clone(),
                max_score: c.max_score,
            },
        );
        i = i + 1;
    }
    r
}

impl DialogViewVariant {
    /// A stored criterion as the scoring dialog shows it, its maximum score
    /// clamped into 1..=100.
    pub fn from_variant(row: DialogVariant) -> (r: DialogViewVariant)
        ensures
            r.variant_text == row.variant_text,
            r.max_score == clamped_score(row.max_score as int),
            r.wf(),
    {
        DialogViewVariant {
            variant_text: row.variant_text,
            max_score: clamp_max_score(row.max_score),
        }
    }
}

impl DialogView {
    /// The scoring dialog over the current poll's criteria, untitled until a
    /// variant is chosen.
    pub fn from_variants(rows: Vec<DialogVariant>) -> (r: DialogView)
        ensures
            r.title@.len() == 0,
            r.variants@.len() == rows@.len(),
            forall|i: int|
                0 <= i < rows@.len() ==> (#[trigger] r.variants@[i]).variant_text
                    == rows@[i].variant_text && r.variants@[i].max_score == clamped_score(
                    rows@[i].max_score as int,
                ) && r.variants@[i].wf(),
    {
        let mut variants: Vec<DialogViewVariant> = Vec::new();
        let mut i: usize = 0;
        while i < rows.len()
            invariant
                i <= rows@.len(),
                variants@.len() == i,
                forall|k: int|
                    0 <= k < i ==> (#[trigger] variants@[k]).variant_text
                        == rows@[k].variant_text && variants@[k].max_score == clamped_score(
                        rows@[k].max_score as int,
                    ) && variants@[k].wf(),
            decreases rows@.len() - i,
        {
            let row = &rows[i];
            variants.push(
                DialogViewVariant {
                    variant_text: row.variant_text.clone(),
                    max_score: clamp_max_score(row.max_score),
                },
            );
            i = i + 1;
        }
        DialogView { title: String::new(), variants }
    }
}

} // verus!
