//! The in-flight poll draft: one per process, built up over several webhook
//! round trips and consumed on finalize.
//!
//! Each mutating operation is stated against a mathematical model of the
//! draft, and the displayed sequence labels are proved to run 1, 2, ... for
//! each kind of entry, whatever other edits are interleaved.

use vstd::prelude::*;

use crate::blocks::{ModalView, ViewBlock};
use crate::gateway::WriteNewPoll;
use crate::clock::datetime_parse;
use crate::num::{parse_i32, parse_i32_text};
use crate::view_model::{clamp_max_score, clamped_score, views_of, DialogViewVariant, SingleVariant};

verus! {

/// Model of one draft criterion.
pub struct CriterionModel {
    pub text: Seq<char>,
    pub max_score: int,
}

/// Model of one draft variant.
pub struct VariantModel {
    pub title: Seq<char>,
    pub variant: Seq<char>,
    pub start_date: int,
}

/// Mathematical model of a draft: what has been appended so far, in order.
pub struct DraftModel {
    pub ts: Seq<char>,
    pub channel: Seq<char>,
    pub criteria: Seq<CriterionModel>,
    pub variants: Seq<VariantModel>,
}

/// One edit a webhook round trip may make to the draft.
pub enum DraftEdit {
    AddCriterion { text: Seq<char>, max_score: int },
    AddVariant { title: Seq<char>, variant: Seq<char>, start_date: int },
    SetChannel { channel: Seq<char> },
}

impl DraftModel {
    pub open spec fn empty() -> DraftModel {
        DraftModel {
            ts: Seq::empty(),
            channel: Seq::empty(),
            criteria: Seq::empty(),
            variants: Seq::empty(),
        }
    }
}

/// Effect of one edit on the draft model; appended criteria carry their
/// maximum score clamped into 1..=100.
pub open spec fn apply_edit(d: DraftModel, e: DraftEdit) -> DraftModel {
    match e {
        DraftEdit::AddCriterion { text, max_score } => DraftModel {
            criteria: d.criteria.push(
                CriterionModel { text, max_score: clamped_score(max_score) },
            ),
            ..d
        },
        DraftEdit::AddVariant { title, variant, start_date } => DraftModel {
            variants: d.variants.push(VariantModel { title, variant, start_date }),
            ..d
        },
        DraftEdit::SetChannel { channel } => DraftModel { channel, ..d },
    }
}

pub open spec fn apply_edits(d: DraftModel, es: Seq<DraftEdit>) -> DraftModel
    decreases es.len(),
{
    if es.len() == 0 {
        d
    } else {
        apply_edit(apply_edits(d, es.drop_last()), es.last())
    }
}

/// The sequence labels displayed while the edits run: each appended
/// criterion shows the count of criteria after it was added.
pub open spec fn criterion_labels(d: DraftModel, es: Seq<DraftEdit>) -> Seq<int>
    decreases es.len(),
{
    if es.len() == 0 {
        Seq::empty()
    } else {
        let prior = criterion_labels(d, es.drop_last());
        match es.last() {
            DraftEdit::AddCriterion { .. } => prior.push(
                apply_edits(d, es.drop_last()).criteria.len() as int + 1,
            ),
            _ => prior,
        }
    }
}

/// As `criterion_labels`, for appended variants.
pub open spec fn variant_labels(d: DraftModel, es: Seq<DraftEdit>) -> Seq<int>
    decreases es.len(),
{
    if es.len() == 0 {
        Seq::empty()
    } else {
        let prior = variant_labels(d, es.drop_last());
        match es.last() {
            DraftEdit::AddVariant { .. } => prior.push(
                apply_edits(d, es.drop_last()).variants.len() as int + 1,
            ),
            _ => prior,
        }
    }
}

proof fn lemma_criteria_count(d: DraftModel, es: Seq<DraftEdit>)
    ensures
        apply_edits(d, es).criteria.len() == d.criteria.len() + criterion_labels(d, es).len(),
        apply_edits(d, es).variants.len() == d.variants.len() + variant_labels(d, es).len(),
    decreases es.len(),
{
    if es.len() > 0 {
        lemma_criteria_count(d, es.drop_last());
    }
}

/// Appending N criteria, in any interleaving with other draft edits, shows
/// the sequence labels `start+1 .. start+N` where `start` is the number of
/// criteria already in the draft; from an empty draft, `1 .. N`. The same
/// holds of variants.
pub proof fn lemma_labels_sequential(d: DraftModel, es: Seq<DraftEdit>)
    ensures
        forall|k: int|
            0 <= k < criterion_labels(d, es).len() ==> criterion_labels(d, es)[k] == d.criteria.len()
                + k + 1,
        forall|k: int|
            0 <= k < variant_labels(d, es).len() ==> variant_labels(d, es)[k] == d.variants.len()
                + k + 1,
    decreases es.len(),
{
    if es.len() > 0 {
        lemma_labels_sequential(d, es.drop_last());
        lemma_criteria_count(d, es.drop_last());
    }
}

/// After a finalize the draft is empty again, so the labels the next edits
/// display restart at 1.
pub proof fn lemma_numbering_restarts(es: Seq<DraftEdit>)
    ensures
        forall|k: int|
            0 <= k < criterion_labels(DraftModel::empty(), es).len() ==> criterion_labels(
                DraftModel::empty(),
                es,
            )[k] == k + 1,
        forall|k: int|
            0 <= k < variant_labels(DraftModel::empty(), es).len() ==> variant_labels(
                DraftModel::empty(),
                es,
            )[k] == k + 1,
{
    lemma_labels_sequential(DraftModel::empty(), es);
}

/// The in-flight draft. At most one exists per process; the caller guards it
/// with an exclusive lock and performs no I/O while holding it.
pub struct PollData {
    pub ts: String,
    pub poll_channel: String,
    pub poll_variants: Vec<SingleVariant>,
    pub dialog_variants: Vec<DialogViewVariant>,
}

impl PollData {
    /// The model this draft denotes.
    pub open spec fn model(&self) -> DraftModel {
        DraftModel {
            ts: self.ts@,
            channel: self.poll_channel@,
            criteria: self.dialog_variants@.map(
                |i: int, c: DialogViewVariant|
                    CriterionModel { text: c.variant_text@, max_score: c.max_score as int },
            ),
            variants: self.poll_variants@.map(
                |i: int, v: SingleVariant|
                    VariantModel {
                        title: v.title@,
                        variant: v.variant@,
                        start_date: v.start_date as int,
                    },
            ),
        }
    }

    /// Draft variants are skeletons: no persisted id, no vote summary yet.
    pub open spec fn wf(&self) -> bool {
        &&& forall|i: int|
            0 <= i < self.dialog_variants@.len() ==> (#[trigger] self.dialog_variants@[i]).wf()
        &&& forall|i: int|
            0 <= i < self.poll_variants@.len() ==> (#[trigger] self.poll_variants@[i]).id is None
                && self.poll_variants@[i].votes is None && self.poll_variants@[i].images@.len()
                == 0
    }

    /// A fresh, untouched draft.
    pub fn new() -> (d: PollData)
        ensures
            d.model() == DraftModel::empty(),
            d.wf(),
    {
        let d = PollData {
            ts: String::new(),
            poll_channel: String::new(),
            poll_variants: Vec::new(),
            dialog_variants: Vec::new(),
        };
        proof {
            assert(d.model().criteria =~= Seq::<CriterionModel>::empty());
            assert(d.model().variants =~= Seq::<VariantModel>::empty());
            assert(d.model() =~= DraftModel::empty());
        }
        d
    }

    /// Appends one criterion, clamping its maximum score into 1..=100, and
    /// returns the sequence label the new entry displays.
    pub fn append_criterion(&mut self, text: String, max_score: i32) -> (label: usize)
        requires
            old(self).dialog_variants@.len() < usize::MAX,
        ensures
            final(self).model() == apply_edit(
                old(self).model(),
                DraftEdit::AddCriterion { text: text@, max_score: max_score as int },
            ),
            label == old(self).dialog_variants@.len() + 1,
            old(self).wf() ==> final(self).wf(),
    {
        let label = self.dialog_variants.len() + 1;
        let entry = DialogViewVariant { variant_text: text, max_score: clamp_max_score(max_score) };
        self.dialog_variants.push(entry);
        proof {
            let f = |i: int, c: DialogViewVariant|
                CriterionModel { text: c.variant_text@, max_score: c.max_score as int };
            assert(self.dialog_variants@.map(f) =~= old(self).dialog_variants@.map(f).push(
                CriterionModel { text: text@, max_score: clamped_score(max_score as int) },
            ));
            assert(self.model() =~= apply_edit(
                old(self).model(),
                DraftEdit::AddCriterion { text: text@, max_score: max_score as int },
            ));
        }
        label
    }

    /// Appends one variant and returns the sequence label it displays.
    pub fn append_variant(&mut self, title: String, variant: String, start_date: i64) -> (label:
        usize)
        requires
            old(self).poll_variants@.len() < usize::MAX,
        ensures
            final(self).model() == apply_edit(
                old(self).model(),
                DraftEdit::AddVariant {
                    title: title@,
                    variant: variant@,
                    start_date: start_date as int,
                },
            ),
            label == old(self).poll_variants@.len() + 1,
            old(self).wf() ==> final(self).wf(),
    {
        let label = self.poll_variants.len() + 1;
        let entry = SingleVariant {
            id: None,
            title,
            variant,
            images: Vec::new(),
            votes: None,
            start_date,
        };
        let ghost entry_model = VariantModel {
            title: entry.title@,
            variant: entry.variant@,
            start_date: start_date as int,
        };
        self.poll_variants.push(entry);
        proof {
            let f = |i: int, v: SingleVariant|
                VariantModel { title: v.title@, variant: v.variant@, start_date: v.start_date as int };
            assert(self.poll_variants@.map(f) =~= old(self).poll_variants@.map(f).push(entry_model));
            assert(self.model() =~= apply_edit(
                old(self).model(),
                DraftEdit::AddVariant { title: entry_model.title, variant: entry_model.variant, start_date: start_date as int },
            ));
        }
        label
    }

    /// Records the channel the finished poll will be posted to.
    pub fn set_channel(&mut self, channel: String)
        ensures
            final(self).model() == apply_edit(
                old(self).model(),
                DraftEdit::SetChannel { channel: channel@ },
            ),
            old(self).wf() ==> final(self).wf(),
    {
        self.poll_channel = channel;
        proof {
            assert(self.model() =~= apply_edit(
                old(self).model(),
                DraftEdit::SetChannel { channel: self.poll_channel@ },
            ));
        }
    }

    /// Takes the draft for persisting and leaves an empty one behind: the
    /// only path that yields persistable data. Finalizing an untouched draft
    /// succeeds and yields an empty poll.
    pub fn finalize(&mut self) -> (snapshot: PollData)
        ensures
            snapshot == *old(self),
            final(self).model() == DraftModel::empty(),
            final(self).wf(),
    {
        let mut fresh = PollData::new();
        core::mem::swap(&mut fresh, self);
        fresh
    }
}

impl Default for PollData {
    /// The untouched draft the process starts and resets with.
    fn default() -> (d: Self)
        ensures
            d.model() == DraftModel::empty(),
            d.wf(),
    {
        PollData::new()
    }
}


/// The identifiers of a view's input blocks, in display order: the values a
/// submission carries are pulled by this positional pairing.
pub open spec fn input_ids(blocks: Seq<ViewBlock>) -> Seq<Seq<char>>
    decreases blocks.len(),
{
    if blocks.len() == 0 {
        Seq::empty()
    } else {
        let prior = input_ids(blocks.drop_last());
        match blocks.last() {
            ViewBlock::Input { block_id } => prior.push(block_id@),
            _ => prior,
        }
    }
}

/// The submitted value under a block identifier; absent where the view
/// carries no value for it.
pub open spec fn value_for(values: Seq<(String, Option<String>)>, id: Seq<char>) -> Option<
    Seq<char>,
>
    decreases values.len(),
{
    if values.len() == 0 {
        None
    } else if values[0].0@ == id {
        match values[0].1 {
            Some(v) => Some(v@),
            None => None,
        }
    } else {
        value_for(values.skip(1), id)
    }
}

/// Looks the submitted value of one input block up.
fn block_value(values: &Vec<(String, Option<String>)>, id: &String) -> (r: Option<String>)
    ensures
        match value_for(values@, id@) {
            Some(t) => r is Some && r->0@ == t,
            None => r is None,
        },
{
    let mut i: usize = 0;
    proof {
        assert(values@.skip(0) =~= values@);
    }
    while i < values.len()
        invariant
            i <= values@.len(),
            value_for(values@, id@) == value_for(values@.skip(i as int), id@),
        decreases values@.len() - i,
    {
        proof {
            assert(values@.skip(i as int)[0] == values@[i as int]);
            assert(values@.skip(i as int).skip(1) =~= values@.skip(i + 1));
        }
        if values[i].0.eq(id) {
            return match &values[i].1 {
                Some(v) => Some(v.clone()),
                None => None,
            };
        }
        i = i + 1;
    }
    None
}

/// The maximum score a submitted text denotes: a text that is no number
/// counts as 1.
pub open spec fn score_of_text(text: Seq<char>) -> int {
    match parse_i32_text(text) {
        Some(v) => v as int,
        None => 1,
    }
}

/// The start instant a submitted text denotes: a text that is no date-time
/// counts as the epoch.
pub open spec fn start_of_text(text: Seq<char>) -> int {
    match datetime_parse(text) {
        Some(ts) => ts,
        None => 0,
    }
}

/// What the `k`-th pair of input blocks contributes: one criterion when both
/// values were submitted, nothing otherwise.
pub open spec fn criterion_entry(
    ids: Seq<Seq<char>>,
    values: Seq<(String, Option<String>)>,
    k: int,
) -> Seq<CriterionModel> {
    match (value_for(values, ids[2 * k]), value_for(values, ids[2 * k + 1])) {
        (Some(text), Some(score)) => seq![
            CriterionModel { text, max_score: clamped_score(score_of_text(score)) },
        ],
        _ => Seq::empty(),
    }
}

pub open spec fn criterion_entries_upto(
    ids: Seq<Seq<char>>,
    values: Seq<(String, Option<String>)>,
    k: int,
) -> Seq<CriterionModel>
    decreases k,
{
    if k <= 0 {
        Seq::empty()
    } else {
        criterion_entries_upto(ids, values, k - 1) + criterion_entry(ids, values, k - 1)
    }
}

/// The criteria a submitted criteria-setup view denotes: its input blocks
/// paired off in order, each complete pair one criterion.
pub open spec fn criterion_entries(view: ModalView) -> Seq<CriterionModel> {
    criterion_entries_upto(
        input_ids(view.blocks@),
        view.values@,
        input_ids(view.blocks@).len() as int / 2,
    )
}

/// What the `k`-th triple of input blocks contributes: one variant when all
/// three values were submitted, nothing otherwise.
pub open spec fn variant_entry(
    ids: Seq<Seq<char>>,
    values: Seq<(String, Option<String>)>,
    k: int,
) -> Seq<VariantModel> {
    match (
        value_for(values, ids[3 * k]),
        value_for(values, ids[3 * k + 1]),
        value_for(values, ids[3 * k + 2]),
    ) {
        (Some(title), Some(variant), Some(date)) => seq![
            VariantModel { title, variant, start_date: start_of_text(date) },
        ],
        _ => Seq::empty(),
    }
}

pub open spec fn variant_entries_upto(
    ids: Seq<Seq<char>>,
    values: Seq<(String, Option<String>)>,
    k: int,
) -> Seq<VariantModel>
    decreases k,
{
    if k <= 0 {
        Seq::empty()
    } else {
        variant_entries_upto(ids, values, k - 1) + variant_entry(ids, values, k - 1)
    }
}

/// The variants a submitted creation view denotes: its input blocks taken
/// three at a time in order, each complete triple one variant.
pub open spec fn variant_entries(view: ModalView) -> Seq<VariantModel> {
    variant_entries_upto(
        input_ids(view.blocks@),
        view.values@,
        input_ids(view.blocks@).len() as int / 3,
    )
}

/// Collects the input block identifiers of a view.
fn collect_input_ids(blocks: &Vec<ViewBlock>) -> (r: Vec<String>)
    ensures
        views_of(r@) == input_ids(blocks@),
        r@.len() <= blocks@.len(),
{
    let mut r: Vec<String> = Vec::new();
    let mut i: usize = 0;
    while i < blocks.len()
        invariant
            i <= blocks@.len(),
            r@.len() <= i,
            views_of(r@) == input_ids(blocks@.take(i as int)),
        decreases blocks@.len() - i,
    {
        proof {
            assert(blocks@.take(i + 1).drop_last() =~= blocks@.take(i as int));
        }
        match &blocks[i] {
            ViewBlock::Input { block_id } => {
                let ghost before = r@;
                let id = block_id.clone();
                let ghost id_view = id@;
                r.push(id);
                proof {
                    assert(views_of(r@) =~= views_of(before).push(id_view));
                }
            },
            _ => {},
        }
        i = i + 1;
    }
    proof {
        assert(blocks@.take(blocks@.len() as int) =~= blocks@);
    }
    r
}

impl PollData {
    /// Stores the criteria a submitted criteria-setup view carries: the
    /// view's input blocks are paired off in order, and each pair whose two
    /// values are present appends one criterion, its score clamped.
    pub fn save_dialog_info(&mut self, view: &ModalView)
        requires
            old(self).dialog_variants@.len() + view.blocks@.len() < usize::MAX,
        ensures
            final(self).model().criteria == old(self).model().criteria + criterion_entries(*view),
            final(self).model().variants == old(self).model().variants,
            final(self).model().channel == old(self).model().channel,
            final(self).model().ts == old(self).model().ts,
            old(self).wf() ==> final(self).wf(),
    {
        let ids = collect_input_ids(&view.blocks);
        let ghost ids_spec = input_ids(view.blocks@);
        let n = ids.len();
        let mut i: usize = 0;
        while i + 1 < n
            invariant
                i % 2 == 0,
                i <= n,
                n == ids@.len(),
                n == ids_spec.len(),
                views_of(ids@) == ids_spec,
                old(self).dialog_variants@.len() + view.blocks@.len() < usize::MAX,
                n <= view.blocks@.len(),
                self.dialog_variants@.len() <= old(self).dialog_variants@.len() + i,
                self.model().criteria == old(self).model().criteria + criterion_entries_upto(
                    ids_spec,
                    view.values@,
                    i as int / 2,
                ),
                self.model().variants == old(self).model().variants,
                self.model().channel == old(self).model().channel,
                self.model().ts == old(self).model().ts,
                old(self).wf() ==> self.wf(),
            decreases n - i,
        {
            proof {
                assert(ids_spec[i as int] == ids@[i as int]@);
                assert(ids_spec[i as int + 1] == ids@[i as int + 1]@);
            }
            let text_value = block_value(&view.values, &ids[i]);
            let score_value = block_value(&view.values, &ids[i + 1]);
            match (text_value, score_value) {
                (Some(text), Some(score)) => {
                    let max_score = match parse_i32(score.as_str()) {
                        Some(v) => v,
                        None => 1,
                    };
                    self.append_criterion(text, max_score);
                },
                _ => {},
            }
            proof {
                assert(criterion_entries_upto(ids_spec, view.values@, i as int / 2 + 1)
                    == criterion_entries_upto(ids_spec, view.values@, i as int / 2)
                    + criterion_entry(ids_spec, view.values@, i as int / 2));
                assert(2 * (i as int / 2) == i as int);
                assert(self.model().criteria =~= old(self).model().criteria
                    + criterion_entries_upto(ids_spec, view.values@, i as int / 2 + 1));
                assert((i as int + 2) / 2 == i as int / 2 + 1);
            }
            i = i + 2;
        }
        proof {
            if i as int / 2 < ids_spec.len() as int / 2 {
                assert(i + 1 >= n);
                assert(false);
            }
            assert(i as int / 2 >= ids_spec.len() as int / 2);
            if i as int / 2 > ids_spec.len() as int / 2 {
                assert(i <= n);
                assert(false);
            }
            assert(criterion_entries_upto(ids_spec, view.values@, i as int / 2)
                == criterion_entries(*view));
        }
    }

    /// Stores the variants a submitted creation view carries and finalizes:
    /// the view's input blocks are taken three at a time in order, each
    /// complete triple appends one variant; the draft is then consumed and
    /// reset, and the snapshot is handed out for persisting.
    pub fn save_poll_info(&mut self, view: &ModalView) -> (r: WriteNewPoll)
        requires
            old(self).poll_variants@.len() + view.blocks@.len() < usize::MAX,
        ensures
            r.0.model().criteria == old(self).model().criteria,
            r.0.model().channel == old(self).model().channel,
            r.0.model().ts == old(self).model().ts,
            r.0.model().variants == old(self).model().variants + variant_entries(*view),
            old(self).wf() ==> r.0.wf(),
            final(self).model() == DraftModel::empty(),
            final(self).wf(),
    {
        let ids = collect_input_ids(&view.blocks);
        let ghost ids_spec = input_ids(view.blocks@);
        let n = ids.len();
        let mut i: usize = 0;
        while i + 2 < n
            invariant
                i % 3 == 0,
                i <= n,
                n == ids@.len(),
                n == ids_spec.len(),
                views_of(ids@) == ids_spec,
                old(self).poll_variants@.len() + view.blocks@.len() < usize::MAX,
                n <= view.blocks@.len(),
                self.poll_variants@.len() <= old(self).poll_variants@.len() + i,
                self.model().variants == old(self).model().variants + variant_entries_upto(
                    ids_spec,
                    view.values@,
                    i as int / 3,
                ),
                self.model().criteria == old(self).model().criteria,
                self.model().channel == old(self).model().channel,
                self.model().ts == old(self).model().ts,
                old(self).wf() ==> self.wf(),
            decreases n - i,
        {
            proof {
                assert(ids_spec[i as int] == ids@[i as int]@);
                assert(ids_spec[i as int + 1] == ids@[i as int + 1]@);
                assert(ids_spec[i as int + 2] == ids@[i as int + 2]@);
            }
            let title_value = block_value(&view.values, &ids[i]);
            let variant_value = block_value(&view.values, &ids[i + 1]);
            let date_value = block_value(&view.values, &ids[i + 2]);
            match (title_value, variant_value, date_value) {
                (Some(title), Some(variant), Some(date)) => {
                    let start_date = match crate::clock::parse_datetime(date.as_str()) {
                        Some(ts) => ts,
                        None => 0,
                    };
                    self.append_variant(title, variant, start_date);
                },
                _ => {},
            }
            proof {
                assert(variant_entries_upto(ids_spec, view.values@, i as int / 3 + 1)
                    == variant_entries_upto(ids_spec, view.values@, i as int / 3)
                    + variant_entry(ids_spec, view.values@, i as int / 3));
                assert(3 * (i as int / 3) == i as int);
                assert(self.model().variants =~= old(self).model().variants
                    + variant_entries_upto(ids_spec, view.values@, i as int / 3 + 1));
                assert((i as int + 3) / 3 == i as int / 3 + 1);
            }
            i = i + 3;
        }
        proof {
            if i as int / 3 < ids_spec.len() as int / 3 {
                assert(i + 2 >= n);
                assert(false);
            }
            if i as int / 3 > ids_spec.len() as int / 3 {
                assert(i <= n);
                assert(false);
            }
            assert(variant_entries_upto(ids_spec, view.values@, i as int / 3)
                == variant_entries(*view));
        }
        let snapshot = self.finalize();
        WriteNewPoll(snapshot)
    }
}

} // verus!
