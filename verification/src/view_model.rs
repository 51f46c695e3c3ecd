//! The poll as it is shown and assembled: variants with their vote summaries,
//! the scoring dialog, and the closing report.
//!
//! Instants are carried as seconds relative to the Unix epoch, the scale the
//! calendar wrappers in `clock` translate to and from.

use vstd::prelude::*;

verus! {

/// A posted or assembling poll: its variants, channel and message timestamp.
pub struct PollView {
    pub id: Option<i32>,
    pub variants: Vec<SingleVariant>,
    pub channel: String,
    pub is_closed: bool,
    pub time: Option<String>,
}

/// One option under vote, with its displayed vote summary.
pub struct SingleVariant {
    pub id: Option<i32>,
    pub title: String,
    pub variant: String,
    pub images: Vec<String>,
    pub votes: Option<i32>,
    pub start_date: i64,
}

/// The closing report: one row per ranked group.
pub struct PollReport {
    pub results: Vec<PollResult>,
}

/// One report row. `points_count` is the average score in hundredths of a
/// point, so that three and a half points read 350.
pub struct PollResult {
    pub place: String,
    pub variant_title: String,
    pub votes_count: i32,
    pub points_count: i64,
}

/// The scoring dialog: one select per criterion.
pub struct DialogView {
    pub title: String,
    pub variants: Vec<DialogViewVariant>,
}

/// One criterion of the scoring dialog; scores run 1 to `max_score`.
pub struct DialogViewVariant {
    pub variant_text: String,
    pub max_score: i32,
}

/// The views of a sequence of strings.
pub open spec fn views_of(s: Seq<String>) -> Seq<Seq<char>> {
    s.map(|i: int, x: String| x@)
}

/// Criterion maximum scores are kept within this band.
pub open spec fn clamped_score(s: int) -> int {
    if s < 1 {
        1
    } else if s > 100 {
        100
    } else {
        s
    }
}

/// Clamps a criterion maximum score into 1..=100.
pub fn clamp_max_score(s: i32) -> (r: i32)
    ensures
        r == clamped_score(s as int),
{
    if s < 1 {
        1
    } else if s > 100 {
        100
    } else {
        s
    }
}

impl DialogViewVariant {
    pub open spec fn wf(&self) -> bool {
        1 <= self.max_score <= 100
    }
}

impl SingleVariant {
    /// A fresh variant with no recorded votes yet.
    pub fn new(title: &str, variant: &str, images: Vec<&str>) -> (r: SingleVariant)
        ensures
            r.id is None,
            r.title@ == title@,
            r.variant@ == variant@,
            r.images@.len() == images@.len(),
            forall|i: int| 0 <= i < images@.len() ==> r.images@[i]@ == #[trigger] images@[i]@,
            r.votes is None,
            r.start_date == 1,
    {
        let mut owned: Vec<String> = Vec::new();
        let mut i: usize = 0;
        while i < images.len()
            invariant
                i <= images@.len(),
                owned@.len() == i,
                forall|k: int| 0 <= k < i ==> owned@[k]@ == #[trigger] images@[k]@,
            decreases images@.len() - i,
        {
            owned.push(images[i].to_owned());
            i = i + 1;
        }
        SingleVariant {
            id: None,
            title: title.to_owned(),
            variant: variant.to_owned(),
            images: owned,
            votes: None,
            start_date: 1,
        }
    }

    /// Appends one thumbnail to the variant's image strip.
    pub fn add_image(self, image: &str) -> (r: SingleVariant)
        ensures
            r.images@.len() == self.images@.len() + 1,
            forall|i: int|
                0 <= i < self.images@.len() ==> r.images@[i] == #[trigger] self.images@[i],
            r.images@.last()@ == image@,
            r.id == self.id,
            r.title == self.title,
            r.variant == self.variant,
            r.votes == self.votes,
            r.start_date == self.start_date,
    {
        let mut r = self;
        r.images.push(image.to_owned());
        r
    }
}

impl PollView {
    /// An open poll with the given variants, not yet posted.
    pub fn new(id: i32, variants: Vec<SingleVariant>, channel: &str) -> (r: PollView)
        ensures
            r.id == Some(id),
            r.variants == variants,
            r.channel@ == channel@,
            !r.is_closed,
            r.time is None,
    {
        PollView { id: Some(id), variants, channel: channel.to_owned(), is_closed: false, time: None }
    }
}

impl DialogView {
    /// Replaces the dialog title, keeping its criteria.
    pub fn set_title(self, title: String) -> (r: Self)
        ensures
            r.title == title,
            r.variants == self.variants,
    {
        let mut r = self;
        r.title = title;
        r
    }
}

} // verus!
