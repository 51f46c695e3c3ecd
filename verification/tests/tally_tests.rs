use poll_engine::gateway::{ChannelUser, PollReportSource, PollViewSource, SingleVariantSource, VotesResult};
use poll_engine::tally::{
    aggregate_votes, assemble_poll_view, dedup_votes, filter_by_threshold, labelled_report,
    last_four_reversed, place_label, rank_report, sort_report, variant_images, variant_vote_count,
    ReportVote,
};

fn vote(id: i32, user_id: i32, poll_variant_id: i32, score: i32) -> VotesResult {
    VotesResult { id, user_id, day_id: 1, poll_variant_id, dialog_variant_id: 1, score }
}

#[test]
fn revoting_counts_exactly_one_vote_the_most_recent() {
    let votes = vec![
        vote(1, 7, 3, 4),
        vote(2, 8, 3, 9),
        vote(3, 7, 3, 6),
        vote(4, 7, 3, 8),
    ];
    let kept = dedup_votes(&votes);
    let of_seven: Vec<&VotesResult> =
        kept.iter().filter(|v| v.user_id == 7 && v.poll_variant_id == 3).collect();
    assert_eq!(of_seven.len(), 1);
    assert_eq!(of_seven[0].id, 4);
    assert_eq!(of_seven[0].score, 8);
    assert_eq!(kept.len(), 2);
}

#[test]
fn dedup_keeps_one_vote_per_voter_and_variant() {
    let votes = vec![
        vote(1, 7, 3, 4),
        vote(2, 7, 5, 9),
        vote(3, 8, 3, 2),
        vote(4, 7, 3, 1),
        vote(5, 8, 3, 6),
    ];
    let kept = dedup_votes(&votes);
    // pairs in order of first appearance, each holding its latest vote
    assert_eq!(kept.len(), 3);
    assert_eq!((kept[0].user_id, kept[0].poll_variant_id, kept[0].id), (7, 3, 4));
    assert_eq!((kept[1].user_id, kept[1].poll_variant_id, kept[1].id), (7, 5, 2));
    assert_eq!((kept[2].user_id, kept[2].poll_variant_id, kept[2].id), (8, 3, 5));
}

#[test]
fn dedup_of_empty_log_is_empty() {
    let kept = dedup_votes(&Vec::new());
    assert_eq!(kept.len(), 0);
}

#[test]
fn vote_count_counts_votes_of_the_variant_only() {
    let votes = vec![vote(1, 7, 3, 4), vote(2, 8, 3, 9), vote(3, 9, 5, 6)];
    assert_eq!(variant_vote_count(&votes, 3), 2);
    assert_eq!(variant_vote_count(&votes, 5), 1);
    assert_eq!(variant_vote_count(&votes, 9), 0);
}

#[test]
fn images_join_counted_voters_thumbnails() {
    let votes = vec![vote(1, 7, 3, 4), vote(2, 8, 3, 9), vote(3, 9, 3, 6)];
    let users = vec![
        ChannelUser { id: 7, user_slack_id: Some("U7".to_string()), user_thumbnail: Some("a.png".to_string()) },
        ChannelUser { id: 8, user_slack_id: Some("U8".to_string()), user_thumbnail: None },
        ChannelUser { id: 9, user_slack_id: Some("U9".to_string()), user_thumbnail: Some("c.png".to_string()) },
    ];
    let images = variant_images(&votes, &users, 3);
    assert_eq!(images, vec!["a.png".to_string(), "".to_string(), "c.png".to_string()]);
}

#[test]
fn displayed_images_are_the_last_four_reversed() {
    let images: Vec<String> =
        ["a", "b", "c", "d", "e"].iter().map(|s| s.to_string()).collect();
    assert_eq!(
        last_four_reversed(&images),
        vec!["e".to_string(), "d".to_string(), "c".to_string(), "b".to_string()]
    );
    let two: Vec<String> = ["a", "b"].iter().map(|s| s.to_string()).collect();
    assert_eq!(last_four_reversed(&two), vec!["b".to_string(), "a".to_string()]);
    assert_eq!(last_four_reversed(&Vec::new()).len(), 0);
}

#[test]
fn assembled_poll_shows_counts_and_supersedes_revotes() {
    let poll = PollViewSource {
        id: 11,
        channel: "C1".to_string(),
        is_closed: false,
        time: Some("163.5".to_string()),
    };
    let variants = vec![
        SingleVariantSource {
            id: 3,
            day_id: 11,
            title: Some("Team A".to_string()),
            variant: None,
            start_date: 100,
            end_date: None,
        },
        SingleVariantSource {
            id: 5,
            day_id: 11,
            title: None,
            variant: Some("desc".to_string()),
            start_date: 200,
            end_date: None,
        },
    ];
    let users = vec![
        ChannelUser { id: 7, user_slack_id: Some("U7".to_string()), user_thumbnail: Some("a.png".to_string()) },
        ChannelUser { id: 8, user_slack_id: Some("U8".to_string()), user_thumbnail: Some("b.png".to_string()) },
    ];
    // voter 7 re-votes on variant 3: counted once
    let votes = vec![vote(1, 7, 3, 4), vote(2, 7, 3, 9), vote(3, 8, 3, 2)];
    let view = assemble_poll_view(poll, &variants, &users, &votes);
    assert_eq!(view.id, Some(11));
    assert_eq!(view.channel, "C1");
    assert_eq!(view.time, Some("163.5".to_string()));
    assert_eq!(view.variants.len(), 2);
    assert_eq!(view.variants[0].id, Some(3));
    assert_eq!(view.variants[0].title, "Team A");
    assert_eq!(view.variants[0].variant, "");
    assert_eq!(view.variants[0].votes, Some(2));
    assert_eq!(view.variants[0].images, vec!["a.png".to_string(), "b.png".to_string()]);
    assert_eq!(view.variants[1].id, Some(5));
    assert_eq!(view.variants[1].title, "");
    assert_eq!(view.variants[1].votes, None);
    assert_eq!(view.variants[1].images.len(), 0);
}

fn row(team: &str, channel: &str, total_votes: i32, score: i64) -> PollReportSource {
    PollReportSource { team: team.to_string(), channel: channel.to_string(), total_votes, score }
}

#[test]
fn report_rows_rank_in_input_order_with_first_place_marked() {
    // scores 10.0, 9.5, 9.5, 3.0 in hundredths; the threshold holds for all
    let rows = vec![row("A", "CA", 5, 1000), row("B", "CB", 5, 950), row("C", "CC", 5, 950), row("D", "CD", 5, 300)];
    let report = rank_report(&rows, 1);
    assert_eq!(report.results.len(), 4);
    let titles: Vec<&str> = report.results.iter().map(|r| r.variant_title.as_str()).collect();
    assert_eq!(titles, vec!["A", "B", "C", "D"]);
    assert_eq!(report.results[0].place, "🏆*Первое место:*\n");
    assert_eq!(report.results[1].place, "🌟*Второе место:*\n");
    assert_eq!(report.results[2].place, "🌟*Третье место:*\n");
    assert_eq!(report.results[3].place, "");
    assert_eq!(report.results[0].points_count, 1000);
    assert_eq!(report.results[0].votes_count, 5);
}

#[test]
fn report_sorts_descending_and_keeps_tied_input_order() {
    let rows = vec![row("D", "CD", 2, 300), row("B", "CB", 3, 950), row("C", "CC", 4, 950), row("A", "CA", 5, 1000)];
    let sorted = sort_report(&rows);
    let titles: Vec<&str> = sorted.iter().map(|r| r.team.as_str()).collect();
    assert_eq!(titles, vec!["A", "B", "C", "D"]);
}

#[test]
fn report_drops_groups_under_the_threshold() {
    let rows = vec![row("A", "CA", 5, 1000), row("B", "CB", 2, 950), row("C", "CC", 3, 900)];
    let kept = filter_by_threshold(&rows, 3);
    let titles: Vec<&str> = kept.iter().map(|r| r.team.as_str()).collect();
    assert_eq!(titles, vec!["A", "C"]);
    let report = rank_report(&rows, 3);
    assert_eq!(report.results.len(), 2);
}

#[test]
fn labels_follow_row_positions() {
    assert_eq!(place_label(1), "🏆*Первое место:*\n");
    assert_eq!(place_label(2), "🌟*Второе место:*\n");
    assert_eq!(place_label(3), "🌟*Третье место:*\n");
    assert_eq!(place_label(4), "");
    assert_eq!(place_label(0), "");
    let rows = vec![row("A", "CA", 1, 100), row("B", "CB", 1, 90)];
    let report = labelled_report(&rows);
    assert_eq!(report.results[0].place, "🏆*Первое место:*\n");
    assert_eq!(report.results[1].place, "🌟*Второе место:*\n");
}

fn entry(team: &str, channel: &str, score: i64) -> ReportVote {
    ReportVote { team: team.to_string(), channel: channel.to_string(), score }
}

#[test]
fn aggregation_groups_by_channel_and_averages() {
    let entries = vec![
        entry("Alpha", "C1", 1000),
        entry("Beta", "C2", 900),
        entry("Alpha", "C1", 500),
        entry("Beta", "C2", 800),
        entry("Alpha", "C1", 601),
    ];
    let rows = aggregate_votes(&entries);
    assert_eq!(rows.len(), 2);
    assert_eq!(rows[0].team, "Alpha");
    assert_eq!(rows[0].channel, "C1");
    assert_eq!(rows[0].total_votes, 3);
    assert_eq!(rows[0].score, 700); // (1000 + 500 + 601) / 3, truncated
    assert_eq!(rows[1].channel, "C2");
    assert_eq!(rows[1].total_votes, 2);
    assert_eq!(rows[1].score, 850);
}
