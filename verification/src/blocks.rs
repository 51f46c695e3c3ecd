//! The modal views as the library sees them: an ordered list of layout
//! blocks, of which only the kind and the identifiers matter here. Each
//! round trip appends exactly one block group, numbered from the count of
//! input blocks already present.

use vstd::prelude::*;

use crate::num::{dec_text_of, render_u32};

verus! {

/// One layout block of a modal, reduced to what the draft logic reads.
pub enum ViewBlock {
    Section,
    Divider,
    Context,
    /// An input block; submitted values are keyed by its identifier.
    Input { block_id: String },
    /// An action block holding one interactive element.
    Action { action_id: String },
}

/// A modal view: its blocks in display order, and the submitted value of
/// each input block (absent where the platform sent none).
pub struct ModalView {
    pub id: Option<String>,
    pub callback_id: Option<String>,
    pub submit: Option<String>,
    pub blocks: Vec<ViewBlock>,
    pub values: Vec<(String, Option<String>)>,
}

/// How many input blocks a view holds.
pub open spec fn count_inputs(blocks: Seq<ViewBlock>) -> int
    decreases blocks.len(),
{
    if blocks.len() == 0 {
        0
    } else {
        count_inputs(blocks.drop_last()) + if blocks.last() is Input {
            1int
        } else {
            0int
        }
    }
}

proof fn lemma_count_inputs_le_len(blocks: Seq<ViewBlock>)
    ensures
        0 <= count_inputs(blocks) <= blocks.len(),
    decreases blocks.len(),
{
    if blocks.len() > 0 {
        lemma_count_inputs_le_len(blocks.drop_last());
    }
}

/// Counts the input blocks of a view.
pub fn count_input_blocks(blocks: &Vec<ViewBlock>) -> (r: usize)
    ensures
        r == count_inputs(blocks@),
{
    let mut r: usize = 0;
    let mut i: usize = 0;
    while i < blocks.len()
        invariant
            i <= blocks@.len(),
            r == count_inputs(blocks@.take(i as int)),
            r <= i,
        decreases blocks@.len() - i,
    {
        proof {
            assert(blocks@.take(i + 1).drop_last() =~= blocks@.take(i as int));
        }
        match &blocks[i] {
            ViewBlock::Input { .. } => {
                r = r + 1;
            },
            _ => {},
        }
        i = i + 1;
    }
    proof {
        assert(blocks@.take(blocks@.len() as int) =~= blocks@);
    }
    r
}

/// Appends one variant block group — title, variant text, start date — just
/// before the view's two trailing action blocks, numbered after the groups
/// already present (three inputs each). Returns the group's sequence number.
pub fn add_variant_group(blocks: &mut Vec<ViewBlock>) -> (n: usize)
    requires
        2 <= old(blocks)@.len() < 0x1_0000_0000,
    ensures
        n == count_inputs(old(blocks)@) / 3 + 1,
        final(blocks)@.len() == old(blocks)@.len() + 3,
        forall|k: int| 0 <= k < old(blocks)@.len() - 2 ==> final(blocks)@[k] == old(blocks)@[k],
        final(blocks)@[old(blocks)@.len() - 2] matches ViewBlock::Input { block_id } && block_id@
            == "title_text_"@ + dec_text_of(n as int),
        final(blocks)@[old(blocks)@.len() - 1] matches ViewBlock::Input { block_id } && block_id@
            == "variant_text_"@ + dec_text_of(n as int),
        final(blocks)@[old(blocks)@.len() as int] matches ViewBlock::Input { block_id } && block_id@
            == "start_variant_poll_date_"@ + dec_text_of(n as int),
        final(blocks)@[old(blocks)@.len() as int + 1] == old(blocks)@[old(blocks)@.len() - 2],
        final(blocks)@[old(blocks)@.len() as int + 2] == old(blocks)@[old(blocks)@.len() - 1],
{
    proof {
        lemma_count_inputs_le_len(blocks@);
    }
    let count = count_input_blocks(blocks);
    let n = count / 3 + 1;
    let suffix = render_u32(n as u32);
    let id1 = "title_text_".to_owned().concat(suffix.as_str());
    let id2 = "variant_text_".to_owned().concat(suffix.as_str());
    let id3 = "start_variant_poll_date_".to_owned().concat(suffix.as_str());
    let at = blocks.len() - 2;
    blocks.insert(at, ViewBlock::Input { block_id: id1 });
    blocks.insert(at + 1, ViewBlock::Input { block_id: id2 });
    blocks.insert(at + 2, ViewBlock::Input { block_id: id3 });
    n
}

/// Appends one criterion block group — text, maximum score — just before the
/// view's trailing action block, numbered after the groups already present
/// (two inputs each). Returns the group's sequence number.
pub fn add_criterion_group(blocks: &mut Vec<ViewBlock>) -> (n: usize)
    requires
        1 <= old(blocks)@.len() < 0x1_0000_0000,
    ensures
        n == count_inputs(old(blocks)@) / 2 + 1,
        final(blocks)@.len() == old(blocks)@.len() + 2,
        forall|k: int| 0 <= k < old(blocks)@.len() - 1 ==> final(blocks)@[k] == old(blocks)@[k],
        final(blocks)@[old(blocks)@.len() - 1] matches ViewBlock::Input { block_id } && block_id@
            == "dialog_variant_text_"@ + dec_text_of(n as int),
        final(blocks)@[old(blocks)@.len() as int] matches ViewBlock::Input { block_id } && block_id@
            == "dialog_variant_max_score_"@ + dec_text_of(n as int),
        final(blocks)@[old(blocks)@.len() as int + 1] == old(blocks)@[old(blocks)@.len() - 1],
{
    proof {
        lemma_count_inputs_le_len(blocks@);
    }
    let count = count_input_blocks(blocks);
    let n = count / 2 + 1;
    let suffix = render_u32(n as u32);
    let id1 = "dialog_variant_text_".to_owned().concat(suffix.as_str());
    let id2 = "dialog_variant_max_score_".to_owned().concat(suffix.as_str());
    let at = blocks.len() - 1;
    blocks.insert(at, ViewBlock::Input { block_id: id1 });
    blocks.insert(at + 1, ViewBlock::Input { block_id: id2 });
    n
}

/// The blocks the poll-creation modal opens with: a channel select and the
/// first variant group, followed by the two buttons that append groups.
pub fn initial_menu_blocks() -> (r: Vec<ViewBlock>)
    ensures
        r@.len() == 7,
        r@[0] is Section,
        r@[1] matches ViewBlock::Action { action_id } && action_id@ == "channel_choose"@,
        r@[2] matches ViewBlock::Input { block_id } && block_id@ == "title_text_1"@,
        r@[3] matches ViewBlock::Input { block_id } && block_id@ == "variant_text_1"@,
        r@[4] matches ViewBlock::Input { block_id } && block_id@ == "start_variant_poll_date_1"@,
        r@[5] matches ViewBlock::Action { action_id } && action_id@ == "variant_add"@,
        r@[6] matches ViewBlock::Action { action_id } && action_id@ == "dialog_setup"@,
{
    let mut r: Vec<ViewBlock> = Vec::new();
    r.push(ViewBlock::Section);
    r.push(ViewBlock::Action { action_id: "channel_choose".to_owned() });
    r.push(ViewBlock::Input { block_id: "title_text_1".to_owned() });
    r.push(ViewBlock::Input { block_id: "variant_text_1".to_owned() });
    r.push(ViewBlock::Input { block_id: "start_variant_poll_date_1".to_owned() });
    r.push(ViewBlock::Action { action_id: "variant_add".to_owned() });
    r.push(ViewBlock::Action { action_id: "dialog_setup".to_owned() });
    r
}

/// The blocks the criteria-setup modal opens with: the first criterion group
/// and the button that appends further groups.
pub fn initial_criteria_blocks() -> (r: Vec<ViewBlock>)
    ensures
        r@.len() == 3,
        r@[0] matches ViewBlock::Input { block_id } && block_id@ == "dialog_variant_text_1"@,
        r@[1] matches ViewBlock::Input { block_id } && block_id@ == "dialog_variant_max_score_1"@,
        r@[2] matches ViewBlock::Action { action_id } && action_id@ == "dialog_variant_add"@,
{
    let mut r: Vec<ViewBlock> = Vec::new();
    r.push(ViewBlock::Input { block_id: "dialog_variant_text_1".to_owned() });
    r.push(ViewBlock::Input { block_id: "dialog_variant_max_score_1".to_owned() });
    r.push(ViewBlock::Action { action_id: "dialog_variant_add".to_owned() });
    r
}

} // verus!
