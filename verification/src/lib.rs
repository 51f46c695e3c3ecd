//! Core of a multi-criterion community poll run through a chat platform's
//! interactive UI: the incrementally built poll draft, the routing of inbound
//! callbacks, the decision logic of the asynchronous vote workflows, and the
//! tally engine that reduces the append-only vote log into ranked results.
//!
//! Everything that performs I/O — the HTTP endpoints, the relational store,
//! the chat-platform wire client — lives outside this crate and exchanges
//! plain values with it.

use vstd::prelude::*;

pub mod blocks;
pub mod clock;
pub mod draft;
pub mod gateway;
pub mod num;
pub mod router;
pub mod tally;
pub mod view_model;
pub mod workflow;

verus! {

/// A required field of a trusted-origin payload is missing or unusable:
/// fatal to the request it arrived in, never recoverable.
#[derive(PartialEq, Eq, Structural, Debug)]
pub enum MalformedInput {
    /// A block action arrived without an action identifier.
    ActionIdAbsent,
    /// An action that edits a modal arrived without the modal view.
    ViewAbsent,
    /// A channel-select action arrived without a selected channel.
    SelectedChannelAbsent,
    /// A block-action identifier that must denote a variant is no number.
    ActionIdInvalid,
    /// A dialog submission's callback id is no number.
    CallbackIdInvalid,
    /// A submitted score is absent or no number.
    SubmissionValueInvalid,
}

/// An inbound admin-gated trigger is honoured only when no admin id is
/// configured, or when the caller is that admin.
pub fn admin_allows(admin_id: &String, user_id: &String) -> (r: bool)
    ensures
        r == (admin_id@.len() == 0 || admin_id@ == user_id@),
{
    if admin_id.as_str().unicode_len() == 0 {
        true
    } else {
        admin_id.eq(user_id)
    }
}

} // verus!
