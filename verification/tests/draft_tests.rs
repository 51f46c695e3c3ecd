use poll_engine::blocks::{ModalView, ViewBlock};
use poll_engine::draft::PollData;

fn empty_view(blocks: Vec<ViewBlock>, values: Vec<(String, Option<String>)>) -> ModalView {
    ModalView { id: None, callback_id: None, submit: None, blocks, values }
}

#[test]
fn criterion_labels_run_sequentially() {
    let mut draft = PollData::new();
    let l1 = draft.append_criterion("speed".to_string(), 10);
    draft.set_channel("C1".to_string());
    let v1 = draft.append_variant("Team A".to_string(), "the first".to_string(), 0);
    let l2 = draft.append_criterion("style".to_string(), 10);
    let v2 = draft.append_variant("Team B".to_string(), "the second".to_string(), 0);
    let l3 = draft.append_criterion("effort".to_string(), 10);
    assert_eq!((l1, l2, l3), (1, 2, 3));
    assert_eq!((v1, v2), (1, 2));
}

#[test]
fn numbering_restarts_after_finalize() {
    let mut draft = PollData::new();
    draft.append_criterion("speed".to_string(), 10);
    draft.append_criterion("style".to_string(), 10);
    draft.append_variant("Team A".to_string(), "".to_string(), 0);
    let snapshot = draft.finalize();
    assert_eq!(snapshot.dialog_variants.len(), 2);
    assert_eq!(snapshot.poll_variants.len(), 1);
    let l = draft.append_criterion("clarity".to_string(), 5);
    let v = draft.append_variant("Team C".to_string(), "".to_string(), 0);
    assert_eq!(l, 1);
    assert_eq!(v, 1);
}

#[test]
fn max_score_of_150_persists_as_100() {
    let mut draft = PollData::new();
    draft.append_criterion("speed".to_string(), 150);
    assert_eq!(draft.dialog_variants[0].max_score, 100);
}

#[test]
fn max_score_of_zero_or_less_persists_as_1() {
    let mut draft = PollData::new();
    draft.append_criterion("speed".to_string(), 0);
    draft.append_criterion("style".to_string(), -25);
    assert_eq!(draft.dialog_variants[0].max_score, 1);
    assert_eq!(draft.dialog_variants[1].max_score, 1);
}

#[test]
fn in_band_max_score_is_kept() {
    let mut draft = PollData::new();
    draft.append_criterion("speed".to_string(), 1);
    draft.append_criterion("style".to_string(), 100);
    draft.append_criterion("effort".to_string(), 37);
    assert_eq!(draft.dialog_variants[0].max_score, 1);
    assert_eq!(draft.dialog_variants[1].max_score, 100);
    assert_eq!(draft.dialog_variants[2].max_score, 37);
}

#[test]
fn save_dialog_info_pairs_inputs_in_order() {
    let mut draft = PollData::new();
    let view = empty_view(
        vec![
            ViewBlock::Input { block_id: "dialog_variant_text_1".to_string() },
            ViewBlock::Input { block_id: "dialog_variant_max_score_1".to_string() },
            ViewBlock::Input { block_id: "dialog_variant_text_2".to_string() },
            ViewBlock::Input { block_id: "dialog_variant_max_score_2".to_string() },
            ViewBlock::Action { action_id: "dialog_variant_add".to_string() },
        ],
        vec![
            ("dialog_variant_text_1".to_string(), Some("Качество".to_string())),
            ("dialog_variant_max_score_1".to_string(), Some("10".to_string())),
            ("dialog_variant_text_2".to_string(), Some("Скорость".to_string())),
            ("dialog_variant_max_score_2".to_string(), Some("150".to_string())),
        ],
    );
    draft.save_dialog_info(&view);
    assert_eq!(draft.dialog_variants.len(), 2);
    assert_eq!(draft.dialog_variants[0].variant_text, "Качество");
    assert_eq!(draft.dialog_variants[0].max_score, 10);
    assert_eq!(draft.dialog_variants[1].variant_text, "Скорость");
    assert_eq!(draft.dialog_variants[1].max_score, 100);
}

#[test]
fn save_dialog_info_skips_incomplete_pairs_and_defaults_bad_scores() {
    let mut draft = PollData::new();
    let view = empty_view(
        vec![
            ViewBlock::Input { block_id: "dialog_variant_text_1".to_string() },
            ViewBlock::Input { block_id: "dialog_variant_max_score_1".to_string() },
            ViewBlock::Input { block_id: "dialog_variant_text_2".to_string() },
            ViewBlock::Input { block_id: "dialog_variant_max_score_2".to_string() },
        ],
        vec![
            ("dialog_variant_text_1".to_string(), Some("Качество".to_string())),
            // no score value for the first pair: the pair is dropped
            ("dialog_variant_text_2".to_string(), Some("Скорость".to_string())),
            ("dialog_variant_max_score_2".to_string(), Some("not a number".to_string())),
        ],
    );
    draft.save_dialog_info(&view);
    assert_eq!(draft.dialog_variants.len(), 1);
    assert_eq!(draft.dialog_variants[0].variant_text, "Скорость");
    assert_eq!(draft.dialog_variants[0].max_score, 1);
}

#[test]
fn finalize_view_submission_persists_one_poll_and_resets() {
    let mut draft = PollData::new();
    draft.set_channel("C42".to_string());
    let blocks = vec![
        ViewBlock::Section,
        ViewBlock::Input { block_id: "title_text_1".to_string() },
        ViewBlock::Input { block_id: "variant_text_1".to_string() },
        ViewBlock::Input { block_id: "start_variant_poll_date_1".to_string() },
        ViewBlock::Input { block_id: "title_text_2".to_string() },
        ViewBlock::Input { block_id: "variant_text_2".to_string() },
        ViewBlock::Input { block_id: "start_variant_poll_date_2".to_string() },
        ViewBlock::Input { block_id: "title_text_3".to_string() },
        ViewBlock::Input { block_id: "variant_text_3".to_string() },
        ViewBlock::Input { block_id: "start_variant_poll_date_3".to_string() },
    ];
    let values = vec![
        ("title_text_1".to_string(), Some("*A*".to_string())),
        ("variant_text_1".to_string(), Some("first".to_string())),
        ("start_variant_poll_date_1".to_string(), Some("2015-09-18T23:56:04".to_string())),
        ("title_text_2".to_string(), Some("*B*".to_string())),
        ("variant_text_2".to_string(), Some("second".to_string())),
        ("start_variant_poll_date_2".to_string(), Some("2020-01-02T03:04:05".to_string())),
        ("title_text_3".to_string(), Some("*C*".to_string())),
        ("variant_text_3".to_string(), Some("third".to_string())),
        ("start_variant_poll_date_3".to_string(), Some("not a date".to_string())),
    ];
    let request = draft.save_poll_info(&empty_view(blocks, values));
    // exactly one poll to persist, one variant row per completed group
    let snapshot = request.0;
    assert_eq!(snapshot.poll_channel, "C42");
    assert_eq!(snapshot.poll_variants.len(), 3);
    assert_eq!(snapshot.poll_variants[0].title, "*A*");
    assert_eq!(snapshot.poll_variants[0].variant, "first");
    assert_eq!(snapshot.poll_variants[0].start_date, 1442620564);
    assert_eq!(snapshot.poll_variants[1].start_date, 1577934245);
    assert_eq!(snapshot.poll_variants[2].start_date, 0);
    // the in-memory draft is reset to empty
    assert_eq!(draft.poll_variants.len(), 0);
    assert_eq!(draft.dialog_variants.len(), 0);
    assert_eq!(draft.poll_channel, "");
}

#[test]
fn default_draft_is_empty() {
    let draft = PollData::default();
    assert_eq!(draft.poll_variants.len(), 0);
    assert_eq!(draft.dialog_variants.len(), 0);
    assert_eq!(draft.poll_channel, "");
    assert_eq!(draft.ts, "");
}
