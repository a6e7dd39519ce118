//! The group provisioner: given a numeric table id, makes sure the platform
//! holds the group's role and private channel, creating what is missing and
//! reusing what exists. Creation is guarded by a lookup, so the operation is
//! idempotent and safe to retry after a partial failure: a role left behind by
//! an interrupted run is found and reused, never duplicated.

use vstd::prelude::*;

use crate::config::EventConfig;
use crate::labels::{channel_name, spec_channel_name, spec_table_label, table_label};
use crate::platform::{
    OverwriteEntry, Platform, PERM_MANAGE_MESSAGES, PERM_READ_MESSAGES,
    PERM_READ_MESSAGE_HISTORY, PERM_SEND_MESSAGES, TABLE_ROLE_PERMISSIONS,
};

verus! {

/// The platform objects a group resolved to.
#[derive(Clone, Copy, Debug, PartialEq, Eq, Structural)]
pub struct GroupHandle {
    pub role_id: u64,
    pub channel_id: u64,
    pub created_role: bool,
    pub created_channel: bool,
}

/// The permission overwrites of a table channel: the table role, the mentor
/// role and the manager role may read and write (the manager also manages
/// messages), the bot may read, and everyone else is denied sight of it.
pub open spec fn spec_table_overwrites(role_id: u64, cfg: EventConfig) -> Seq<OverwriteEntry> {
    seq![
        OverwriteEntry {
            role_id,
            allow: PERM_READ_MESSAGES | PERM_READ_MESSAGE_HISTORY | PERM_SEND_MESSAGES,
            deny: 0,
        },
        OverwriteEntry {
            role_id: cfg.everyone_role_id,
            allow: 0,
            deny: PERM_READ_MESSAGES | PERM_READ_MESSAGE_HISTORY,
        },
        OverwriteEntry {
            role_id: cfg.mentor_role_id,
            allow: PERM_READ_MESSAGES | PERM_READ_MESSAGE_HISTORY | PERM_SEND_MESSAGES,
            deny: 0,
        },
        OverwriteEntry {
            role_id: cfg.manager_role_id,
            allow: PERM_READ_MESSAGES | PERM_READ_MESSAGE_HISTORY | PERM_SEND_MESSAGES
                | PERM_MANAGE_MESSAGES,
            deny: 0,
        },
        OverwriteEntry {
            role_id: cfg.bot_role_id,
            allow: PERM_READ_MESSAGES | PERM_READ_MESSAGE_HISTORY,
            deny: 0,
        },
    ]
}

/// Builds the overwrite list of a table channel.
pub fn table_overwrites(role_id: u64, cfg: &EventConfig) -> (r: Vec<OverwriteEntry>)
    ensures
        r@ == spec_table_overwrites(role_id, *cfg),
{
    let mut overwrites: Vec<OverwriteEntry> = Vec::new();
    overwrites.push(
        OverwriteEntry {
            role_id,
            allow: PERM_READ_MESSAGES | PERM_READ_MESSAGE_HISTORY | PERM_SEND_MESSAGES,
            deny: 0,
        },
    );
    overwrites.push(
        OverwriteEntry {
            role_id: cfg.everyone_role_id,
            allow: 0,
            deny: PERM_READ_MESSAGES | PERM_READ_MESSAGE_HISTORY,
        },
    );
    overwrites.push(
        OverwriteEntry {
            role_id: cfg.mentor_role_id,
            allow: PERM_READ_MESSAGES | PERM_READ_MESSAGE_HISTORY | PERM_SEND_MESSAGES,
            deny: 0,
        },
    );
    overwrites.push(
        OverwriteEntry {
            role_id: cfg.manager_role_id,
            allow: PERM_READ_MESSAGES | PERM_READ_MESSAGE_HISTORY | PERM_SEND_MESSAGES
                | PERM_MANAGE_MESSAGES,
            deny: 0,
        },
    );
    overwrites.push(
        OverwriteEntry {
            role_id: cfg.bot_role_id,
            allow: PERM_READ_MESSAGES | PERM_READ_MESSAGE_HISTORY,
            deny: 0,
        },
    );
    proof {
        assert(overwrites@ =~= spec_table_overwrites(role_id, *cfg));
    }
    overwrites
}

/// The platform holds the group derived from `n`, resolved to these objects:
/// a role labeled `Table n` and a channel named `table-n`.
pub open spec fn provisioned(p: Platform, n: nat, role_id: u64, channel_id: u64) -> bool {
    &&& exists|i: int|
        0 <= i < p.roles@.len() && (#[trigger] p.roles@[i]).label@ == spec_table_label(n)
            && p.roles@[i].id == role_id
    &&& exists|i: int|
        0 <= i < p.channels@.len() && (#[trigger] p.channels@[i]).name@ == spec_channel_name(n)
            && p.channels@[i].id == channel_id
}

/// What `ensure_group` does to the platform: the role set is unchanged if a
/// role with the group's label existed, else exactly the new role is added;
/// the channel set likewise.
pub open spec fn provisioning_post(
    pre: Platform,
    post: Platform,
    cfg: EventConfig,
    number: u64,
    color: u32,
    handle: GroupHandle,
) -> bool {
    &&& provisioned(post, number as nat, handle.role_id, handle.channel_id)
    &&& if pre.has_role_labeled(spec_table_label(number as nat)) {
        post.roles@ == pre.roles@ && !handle.created_role
    } else {
        post.roles@.len() == pre.roles@.len() + 1 && post.roles@.subrange(
            0,
            pre.roles@.len() as int,
        ) == pre.roles@ && post.roles@.last().label@ == spec_table_label(number as nat)
            && post.roles@.last().id == handle.role_id && post.roles@.last().color == color
            && post.roles@.last().permissions == TABLE_ROLE_PERMISSIONS && handle.created_role
            && !pre.has_role_with_id(handle.role_id)
    }
    &&& if pre.has_channel_named(spec_channel_name(number as nat)) {
        post.channels@ == pre.channels@ && !handle.created_channel
    } else {
        post.channels@.len() == pre.channels@.len() + 1 && post.channels@.subrange(
            0,
            pre.channels@.len() as int,
        ) == pre.channels@ && post.channels@.last().name@ == spec_channel_name(number as nat)
            && post.channels@.last().id == handle.channel_id
            && post.channels@.last().category_id == cfg.tables_category_id
            && post.channels@.last().overwrites@ == spec_table_overwrites(handle.role_id, cfg)
            && handle.created_channel
    }
    &&& pre.next_object_id <= post.next_object_id <= pre.next_object_id + 2
}

/// Ensures the platform holds the group derived from `number`: looks the role
/// and the channel up by their derived names and creates what is absent — the
/// role with the fixed table permission set and the chosen color, the channel
/// under the configured category with the fixed overwrite template.
pub fn ensure_group(platform: &mut Platform, cfg: &EventConfig, number: u64, color: u32) -> (r:
    GroupHandle)
    requires
        old(platform).wf(),
        old(platform).next_object_id <= u64::MAX - 2,
    ensures
        final(platform).wf(),
        provisioning_post(*old(platform), *final(platform), *cfg, number, color, r),
        final(platform).grants@ == old(platform).grants@,
{
    let ghost lbl = spec_table_label(number as nat);
    let ghost chn = spec_channel_name(number as nat);
    let label = table_label(number);
    let (role_id, created_role): (u64, bool) = match platform.find_role_by_label(label.as_str()) {
        Some(i) => {
            let rid = platform.roles[i].id;
            proof {
                assert(exists|k: int|
                    0 <= k < platform.roles@.len() && (#[trigger] platform.roles@[k]).label@ == lbl
                        && platform.roles@[k].id == rid) by {
                    assert(platform.roles@[i as int].label@ == lbl && platform.roles@[i as int].id
                        == rid);
                }
            }
            (rid, false)
        },
        None => {
            proof {
                if platform.has_role_with_id(platform.next_object_id) {
                    let k = choose|k: int|
                        0 <= k < platform.roles@.len() && (#[trigger] platform.roles@[k]).id
                            == platform.next_object_id;
                    assert(platform.roles@[k].id < platform.next_object_id);
                }
            }
            let rid = platform.create_role(label, color, TABLE_ROLE_PERMISSIONS);
            proof {
                let post = platform.roles@;
                assert(post.last().label@ == lbl && post.last().id == rid);
                assert(exists|k: int|
                    0 <= k < post.len() && (#[trigger] post[k]).label@ == lbl && post[k].id
                        == rid) by {
                    assert(post[post.len() - 1].label@ == lbl && post[post.len() - 1].id == rid);
                }
                assert(post.subrange(0, old(platform).roles@.len() as int) =~= old(
                    platform,
                ).roles@);
            }
            (rid, true)
        },
    };
    let name = channel_name(number);
    let (channel_id, created_channel): (u64, bool) = match platform.find_channel_by_name(
        name.as_str(),
    ) {
        Some(i) => {
            let cid = platform.channels[i].id;
            proof {
                assert(exists|k: int|
                    0 <= k < platform.channels@.len() && (#[trigger] platform.channels@[k]).name@
                        == chn && platform.channels@[k].id == cid) by {
                    let ci = i as int;
                    assert(platform.channels@[ci].name@ == chn && platform.channels@[ci].id
                        == cid);
                }
            }
            (cid, false)
        },
        None => {
            let overwrites = table_overwrites(role_id, cfg);
            let ghost mid_channels = platform.channels@;
            let cid = platform.create_channel(name, cfg.tables_category_id, overwrites);
            proof {
                let post = platform.channels@;
                assert(exists|k: int|
                    0 <= k < post.len() && (#[trigger] post[k]).name@ == chn && post[k].id
                        == cid) by {
                    assert(post[post.len() - 1].name@ == chn && post[post.len() - 1].id == cid);
                }
                assert(post.subrange(0, mid_channels.len() as int) =~= mid_channels);
            }
            (cid, true)
        },
    };
    GroupHandle { role_id, channel_id, created_role, created_channel }
}

} // verus!
