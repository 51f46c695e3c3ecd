use poll_engine::blocks::ModalView;
use poll_engine::router::{
    route, Action, ActionResponse, BlockAction, Channel, Container, RoutedAction, Team, User,
};
use poll_engine::MalformedInput;

fn plain_action(action_id: &str) -> Action {
    Action {
        action_id: action_id.to_string(),
        name: String::new(),
        selected_channel: None,
        block_id: String::new(),
        value: String::new(),
        kind: String::new(),
        action_ts: String::new(),
    }
}

fn plain_view(callback_id: Option<&str>) -> ModalView {
    ModalView {
        id: Some("V1".to_string()),
        callback_id: callback_id.map(|s| s.to_string()),
        submit: Some("Next".to_string()),
        blocks: Vec::new(),
        values: Vec::new(),
    }
}

fn plain_block_action(actions: Vec<Action>, view: Option<ModalView>) -> BlockAction {
    BlockAction {
        team: Team { id: String::new(), domain: String::new() },
        user: User {
            id: "U1".to_string(),
            username: String::new(),
            name: String::new(),
            team_id: String::new(),
        },
        api_app_id: String::new(),
        token: String::new(),
        container: Container {
            kind: String::new(),
            message_ts: String::new(),
            attachment_id: String::new(),
            channel_id: String::new(),
            is_ephemeral: false,
            is_app_unfurl: false,
        },
        trigger_id: "T1".to_string(),
        callback_id: "3".to_string(),
        channel: Channel { id: String::new(), name: String::new() },
        view,
        response_url: String::new(),
        actions,
        submission: Vec::new(),
        state: None,
    }
}

#[test]
fn variant_add_goes_to_the_poll_modal() {
    let ba = plain_block_action(vec![plain_action("variant_add")], Some(plain_view(None)));
    let routed = route(ActionResponse::BlockActions { block_action: ba }).unwrap();
    assert!(matches!(routed, RoutedAction::AddVariantToPoll { ref trigger_id, .. } if trigger_id == "T1"));
}

#[test]
fn variant_add_without_view_is_malformed() {
    let ba = plain_block_action(vec![plain_action("variant_add")], None);
    let routed = route(ActionResponse::BlockActions { block_action: ba });
    assert!(matches!(routed, Err(MalformedInput::ViewAbsent)));
}

#[test]
fn channel_choose_changes_the_channel() {
    let mut action = plain_action("channel_choose");
    action.selected_channel = Some("C9".to_string());
    let ba = plain_block_action(vec![action], None);
    let routed = route(ActionResponse::BlockActions { block_action: ba }).unwrap();
    assert!(matches!(routed, RoutedAction::ChangeChannel { ref channel_id } if channel_id == "C9"));
}

#[test]
fn channel_choose_without_selection_is_malformed() {
    let ba = plain_block_action(vec![plain_action("channel_choose")], None);
    let routed = route(ActionResponse::BlockActions { block_action: ba });
    assert!(matches!(routed, Err(MalformedInput::SelectedChannelAbsent)));
}

#[test]
fn dialog_setup_opens_the_criteria_modal() {
    let ba = plain_block_action(vec![plain_action("dialog_setup")], None);
    let routed = route(ActionResponse::BlockActions { block_action: ba }).unwrap();
    assert!(matches!(routed, RoutedAction::ShowCriteriaSetup { ref trigger_id } if trigger_id == "T1"));
}

#[test]
fn dialog_variant_add_goes_to_the_criteria_modal() {
    let ba = plain_block_action(vec![plain_action("dialog_variant_add")], Some(plain_view(None)));
    let routed = route(ActionResponse::BlockActions { block_action: ba }).unwrap();
    assert!(matches!(routed, RoutedAction::AddCriterionToDialog { .. }));
}

#[test]
fn unrecognized_identifier_opens_the_vote_dialog() {
    let ba = plain_block_action(vec![plain_action("17")], None);
    let routed = route(ActionResponse::BlockActions { block_action: ba }).unwrap();
    assert!(
        matches!(routed, RoutedAction::OpenVoteDialog { ref block_action } if block_action.actions[0].action_id == "17")
    );
}

#[test]
fn block_action_without_actions_is_malformed() {
    let ba = plain_block_action(Vec::new(), None);
    let routed = route(ActionResponse::BlockActions { block_action: ba });
    assert!(matches!(routed, Err(MalformedInput::ActionIdAbsent)));
}

#[test]
fn view_submission_dispatches_on_callback_id() {
    let ba = plain_block_action(Vec::new(), Some(plain_view(Some("dialog_variant_create"))));
    let routed = route(ActionResponse::ViewSubmission { block_action: ba }).unwrap();
    assert!(matches!(routed, RoutedAction::SaveDialogInfo { .. }));

    let ba = plain_block_action(Vec::new(), Some(plain_view(Some("view_poll_create"))));
    let routed = route(ActionResponse::ViewSubmission { block_action: ba }).unwrap();
    assert!(matches!(routed, RoutedAction::SavePollInfo { .. }));

    let ba = plain_block_action(Vec::new(), Some(plain_view(Some("anything_else"))));
    let routed = route(ActionResponse::ViewSubmission { block_action: ba }).unwrap();
    assert!(matches!(routed, RoutedAction::Ignore));

    let ba = plain_block_action(Vec::new(), Some(plain_view(None)));
    let routed = route(ActionResponse::ViewSubmission { block_action: ba }).unwrap();
    assert!(matches!(routed, RoutedAction::Ignore));
}

#[test]
fn view_submission_without_view_is_malformed() {
    let ba = plain_block_action(Vec::new(), None);
    let routed = route(ActionResponse::ViewSubmission { block_action: ba });
    assert!(matches!(routed, Err(MalformedInput::ViewAbsent)));
}

#[test]
fn dialog_submission_records_votes_and_message_actions_are_dropped() {
    let ba = plain_block_action(Vec::new(), None);
    let routed = route(ActionResponse::DialogSubmission { block_action: ba }).unwrap();
    assert!(matches!(routed, RoutedAction::SubmitVotes { .. }));

    let ba = plain_block_action(Vec::new(), None);
    let routed = route(ActionResponse::MessageActions { block_action: ba }).unwrap();
    assert!(matches!(routed, RoutedAction::Ignore));
}

#[test]
fn admin_gate_honours_empty_or_matching_admin() {
    assert!(poll_engine::admin_allows(&"".to_string(), &"U1".to_string()));
    assert!(poll_engine::admin_allows(&"U1".to_string(), &"U1".to_string()));
    assert!(!poll_engine::admin_allows(&"U1".to_string(), &"U2".to_string()));
}
