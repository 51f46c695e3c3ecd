//! The action router: pure dispatch from an inbound interactive callback to
//! the handler that serves it. It performs no I/O; a required sub-field that
//! is absent fails the request fast, since payloads come from the trusted
//! platform only.

use vstd::prelude::*;

use crate::MalformedInput;
use crate::blocks::ModalView;

verus! {

/// The workspace a payload came from.
pub struct Team {
    pub id: String,
    pub domain: String,
}

/// The platform user acting.
pub struct User {
    pub id: String,
    pub username: String,
    pub name: String,
    pub team_id: String,
}

/// Where the interaction happened.
pub struct Container {
    pub kind: String,
    pub message_ts: String,
    pub attachment_id: String,
    pub channel_id: String,
    pub is_ephemeral: bool,
    pub is_app_unfurl: bool,
}

/// The channel a payload names.
pub struct Channel {
    pub id: String,
    pub name: String,
}

/// One interactive element's action inside a block action payload.
pub struct Action {
    pub action_id: String,
    pub name: String,
    pub selected_channel: Option<String>,
    pub block_id: String,
    pub value: String,
    pub kind: String,
    pub action_ts: String,
}

/// An inbound interactive payload, decoded to plain values.
pub struct BlockAction {
    pub team: Team,
    pub user: User,
    pub api_app_id: String,
    pub token: String,
    pub container: Container,
    pub trigger_id: String,
    pub callback_id: String,
    pub channel: Channel,
    pub view: Option<ModalView>,
    pub response_url: String,
    pub actions: Vec<Action>,
    pub submission: Vec<(String, String)>,
    pub state: Option<String>,
}

/// The envelope an inbound interactive payload arrives in.
pub struct InteractResponse {
    pub payload: ActionResponse,
}

/// An inbound callback, tagged by its submission kind.
pub enum ActionResponse {
    BlockActions { block_action: BlockAction },
    DialogSubmission { block_action: BlockAction },
    ViewSubmission { block_action: BlockAction },
    MessageActions { block_action: BlockAction },
}

/// Where a callback is routed.
pub enum RoutedAction {
    /// Append a variant block group to the creation modal and push the
    /// updated view.
    AddVariantToPoll { view: ModalView, trigger_id: String },
    /// Record the chosen channel on the draft.
    ChangeChannel { channel_id: String },
    /// Open the criteria-setup modal.
    ShowCriteriaSetup { trigger_id: String },
    /// Append a criterion block group to the criteria modal and push the
    /// updated view.
    AddCriterionToDialog { view: ModalView, trigger_id: String },
    /// Any unrecognized identifier names a variant: run the eligibility gate
    /// and open the scoring dialog.
    OpenVoteDialog { block_action: BlockAction },
    /// Store the submitted criteria on the draft.
    SaveDialogInfo { block_action: BlockAction },
    /// Store the submitted variants and finalize the draft.
    SavePollInfo { block_action: BlockAction },
    /// Record the submitted scores: the vote-submission flow.
    SubmitVotes { block_action: BlockAction },
    /// A kind or callback id with no handler; acknowledged and dropped.
    Ignore,
}

/// Where each callback goes: block actions dispatch on their action
/// identifier, view submissions on the view's callback id; a dialog
/// submission records votes; anything else is dropped.
pub open spec fn route_decision(action: ActionResponse) -> Result<RoutedAction, MalformedInput> {
    match action {
        ActionResponse::BlockActions { block_action } => {
            if block_action.actions.len() == 0 {
                Err(MalformedInput::ActionIdAbsent)
            } else {
                let id = block_action.actions[0].action_id@;
                if id == "variant_add"@ {
                    match block_action.view {
                        Some(view) => Ok(
                            RoutedAction::AddVariantToPoll {
                                view,
                                trigger_id: block_action.trigger_id,
                            },
                        ),
                        None => Err(MalformedInput::ViewAbsent),
                    }
                } else if id == "channel_choose"@ {
                    match block_action.actions[0].selected_channel {
                        Some(channel_id) => Ok(RoutedAction::ChangeChannel { channel_id }),
                        None => Err(MalformedInput::SelectedChannelAbsent),
                    }
                } else if id == "dialog_setup"@ {
                    Ok(RoutedAction::ShowCriteriaSetup { trigger_id: block_action.trigger_id })
                } else if id == "dialog_variant_add"@ {
                    match block_action.view {
                        Some(view) => Ok(
                            RoutedAction::AddCriterionToDialog {
                                view,
                                trigger_id: block_action.trigger_id,
                            },
                        ),
                        None => Err(MalformedInput::ViewAbsent),
                    }
                } else {
                    Ok(RoutedAction::OpenVoteDialog { block_action })
                }
            }
        },
        ActionResponse::ViewSubmission { block_action } => {
            match block_action.view {
                Some(view) => {
                    let cb = match view.callback_id {
                        Some(id) => id@,
                        None => Seq::empty(),
                    };
                    if cb == "dialog_variant_create"@ {
                        Ok(RoutedAction::SaveDialogInfo { block_action })
                    } else if cb == "view_poll_create"@ {
                        Ok(RoutedAction::SavePollInfo { block_action })
                    } else {
                        Ok(RoutedAction::Ignore)
                    }
                },
                None => Err(MalformedInput::ViewAbsent),
            }
        },
        ActionResponse::DialogSubmission { block_action } => Ok(
            RoutedAction::SubmitVotes { block_action },
        ),
        ActionResponse::MessageActions { .. } => Ok(RoutedAction::Ignore),
    }
}

/// Routes one inbound callback.
pub fn route(action: ActionResponse) -> (r: Result<RoutedAction, MalformedInput>)
    ensures
        r == route_decision(action),
{
    match action {
        ActionResponse::BlockActions { block_action } => {
            if block_action.actions.len() == 0 {
                return Err(MalformedInput::ActionIdAbsent);
            }
            if crate::num::str_eq(block_action.actions[0].action_id.as_str(), "variant_add") {
                let BlockAction { view, trigger_id, .. } = block_action;
                match view {
                    Some(view) => Ok(RoutedAction::AddVariantToPoll { view, trigger_id }),
                    None => Err(MalformedInput::ViewAbsent),
                }
            } else if crate::num::str_eq(
                block_action.actions[0].action_id.as_str(),
                "channel_choose",
            ) {
                match &block_action.actions[0].selected_channel {
                    Some(channel_id) => Ok(
                        RoutedAction::ChangeChannel { channel_id: channel_id.clone() },
                    ),
                    None => Err(MalformedInput::SelectedChannelAbsent),
                }
            } else if crate::num::str_eq(
                block_action.actions[0].action_id.as_str(),
                "dialog_setup",
            ) {
                Ok(RoutedAction::ShowCriteriaSetup { trigger_id: block_action.trigger_id })
            } else if crate::num::str_eq(
                block_action.actions[0].action_id.as_str(),
                "dialog_variant_add",
            ) {
                let BlockAction { view, trigger_id, .. } = block_action;
                match view {
                    Some(view) => Ok(RoutedAction::AddCriterionToDialog { view, trigger_id }),
                    None => Err(MalformedInput::ViewAbsent),
                }
            } else {
                Ok(RoutedAction::OpenVoteDialog { block_action })
            }
        },
        ActionResponse::ViewSubmission { block_action } => {
            match &block_action.view {
                Some(view) => {
                    let is_dialog_create = match &view.callback_id {
                        Some(id) => crate::num::str_eq(id.as_str(), "dialog_variant_create"),
                        None => false,
                    };
                    let is_poll_create = match &view.callback_id {
                        Some(id) => crate::num::str_eq(id.as_str(), "view_poll_create"),
                        None => false,
                    };
                    proof {
                        reveal_strlit("dialog_variant_create");
                        reveal_strlit("view_poll_create");
                    }
                    if is_dialog_create {
                        Ok(RoutedAction::SaveDialogInfo { block_action })
                    } else if is_poll_create {
                        Ok(RoutedAction::SavePollInfo { block_action })
                    } else {
                        proof {
                            // an absent callback id matches neither handler
                            broadcast use vstd::string::group_string_axioms;

                            assert("dialog_variant_create"@.len() == 21);
                            assert("view_poll_create"@.len() == 16);
                        }
                        Ok(RoutedAction::Ignore)
                    }
                },
                None => Err(MalformedInput::ViewAbsent),
            }
        },
        ActionResponse::DialogSubmission { block_action } => Ok(
            RoutedAction::SubmitVotes { block_action },
        ),
        ActionResponse::MessageActions { .. } => Ok(RoutedAction::Ignore),
    }
}

} // verus!
