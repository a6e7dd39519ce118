//! The fixed identifiers the event runs with: the platform objects that exist
//! independently of any table — the special roles, the report and mentor
//! channels, and the category under which table channels are created. The
//! configuration is built once at startup and handed by reference into each
//! operation.

use vstd::prelude::*;

verus! {

#[derive(Clone, Copy, Debug, PartialEq, Eq, Structural)]
pub struct EventConfig {
    /// Category under which table channels are created.
    pub tables_category_id: u64,
    /// Channel that receives moderation reports.
    pub reports_channel_id: u64,
    /// Channel that receives new help-request notifications.
    pub mentors_channel_id: u64,
    /// The platform's default role, denied access to table channels.
    pub everyone_role_id: u64,
    /// The role that marks a participant as belonging to no group.
    pub teamless_role_id: u64,
    /// The bot's own role, given read access to table channels.
    pub bot_role_id: u64,
    /// The helpers' role, given access to every table channel.
    pub mentor_role_id: u64,
    /// The organizers' role, given access and message management.
    pub manager_role_id: u64,
}

} // verus!
