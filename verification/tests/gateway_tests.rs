use poll_engine::draft::PollData;
use poll_engine::gateway::{criteria_writes, poll_variant_writes, DialogVariant, WriteUser, WriteVotes};
use poll_engine::view_model::{clamp_max_score, DialogView, DialogViewVariant, PollView, SingleVariant};

#[test]
fn upsert_stores_an_empty_thumbnail_as_absent() {
    let write = WriteUser("U1".to_string(), "".to_string()).to_write();
    assert_eq!(write.user_slack_id, "U1");
    assert_eq!(write.user_thumbnail, None);
    let write = WriteUser("U1".to_string(), "a.png".to_string()).to_write();
    assert_eq!(write.user_thumbnail, Some("a.png".to_string()));
}

#[test]
fn vote_request_maps_to_its_row() {
    let row = WriteVotes(7, 4, 3, 21, 9).to_write();
    assert_eq!(
        (row.user_id, row.day_id, row.poll_variant_id, row.dialog_variant_id, row.score),
        (7, 4, 3, 21, 9)
    );
}

#[test]
fn a_new_poll_row_is_open_and_unposted() {
    let poll = PollView::new(4, Vec::new(), "C1");
    let row = poll.to_write();
    assert_eq!(row.channel, "C1");
    assert!(!row.is_closed);
    assert_eq!(row.time, None);
}

#[test]
fn finalized_draft_rows_belong_to_the_new_poll() {
    let mut draft = PollData::new();
    draft.append_criterion("Качество".to_string(), 10);
    draft.append_variant("Team A".to_string(), "first".to_string(), 100);
    draft.append_variant("Team B".to_string(), "second".to_string(), 200);
    let snapshot = draft.finalize();

    let criteria = criteria_writes(4, &snapshot.dialog_variants);
    assert_eq!(criteria.len(), 1);
    assert_eq!(criteria[0].day_id, 4);
    assert_eq!(criteria[0].variant_text, "Качество");
    assert_eq!(criteria[0].max_score, 10);

    let variants = poll_variant_writes(4, &snapshot.poll_variants);
    assert_eq!(variants.len(), 2);
    assert_eq!(variants[0].day_id, 4);
    assert_eq!(variants[0].title, "Team A");
    assert_eq!(variants[1].start_date, 200);
    assert_eq!(variants[1].end_date, None);
}

#[test]
fn stored_criteria_are_clamped_for_the_dialog() {
    let rows = vec![
        DialogVariant { id: 1, day_id: 4, variant_text: "Качество".to_string(), max_score: 150 },
        DialogVariant { id: 2, day_id: 4, variant_text: "Скорость".to_string(), max_score: 0 },
        DialogVariant { id: 3, day_id: 4, variant_text: "Стиль".to_string(), max_score: 10 },
    ];
    let dialog = DialogView::from_variants(rows);
    assert_eq!(dialog.title, "");
    assert_eq!(dialog.variants.len(), 3);
    assert_eq!(dialog.variants[0].max_score, 100);
    assert_eq!(dialog.variants[1].max_score, 1);
    assert_eq!(dialog.variants[2].max_score, 10);
}

#[test]
fn set_title_keeps_the_criteria() {
    let dialog = DialogView {
        title: String::new(),
        variants: vec![DialogViewVariant { variant_text: "Качество".to_string(), max_score: 10 }],
    };
    let titled = dialog.set_title("Team A".to_string());
    assert_eq!(titled.title, "Team A");
    assert_eq!(titled.variants.len(), 1);
    assert_eq!(titled.variants[0].variant_text, "Качество");
}

#[test]
fn fresh_variants_carry_their_images() {
    let v = SingleVariant::new("Team A", "first", vec!["a.png", "b.png"]);
    assert_eq!(v.id, None);
    assert_eq!(v.votes, None);
    assert_eq!(v.images, vec!["a.png".to_string(), "b.png".to_string()]);
    let v = v.add_image("c.png");
    assert_eq!(v.images.len(), 3);
    assert_eq!(v.images[2], "c.png");
}

#[test]
fn clamping_bounds_are_inclusive() {
    assert_eq!(clamp_max_score(0), 1);
    assert_eq!(clamp_max_score(1), 1);
    assert_eq!(clamp_max_score(100), 100);
    assert_eq!(clamp_max_score(101), 100);
    assert_eq!(clamp_max_score(i32::MIN), 1);
    assert_eq!(clamp_max_score(i32::MAX), 100);
}
