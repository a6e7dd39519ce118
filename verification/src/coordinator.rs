//! The table membership coordinator: join and leave. A participant's state is
//! `Teamless` or assigned to one group; the platform's role grants are the
//! authoritative signal — a participant is teamless exactly while they hold
//! the configured teamless role — and the directory is written to agree with
//! them. Precondition failures short-circuit before any side effect; on
//! success the side effects run platform-first, so a lost directory write
//! leaves a state a retried call repairs.

use vstd::prelude::*;

use crate::config::EventConfig;
use crate::directory::{spec_dir_get, Directory};
use crate::errors::MembershipError;
use crate::labels::{
    lemma_table_label_not_teamless, spec_table_label, spec_teamless_label, table_label,
};
use crate::platform::Platform;
use crate::provision::{ensure_group, provisioned, provisioning_post, GroupHandle};
use crate::text::{spec_starts_with, starts_with};

verus! {

/// A participant's membership state, made explicit: teamless, or assigned to
/// the group with this label.
#[derive(Clone, Debug)]
pub enum GroupState {
    Teamless,
    Assigned(String),
}

/// The participant holds some role whose label is a table label.
pub open spec fn has_granted_table_role(p: Platform, participant: u64) -> bool {
    exists|i: int, j: int|
        0 <= i < p.grants@.len() && 0 <= j < p.roles@.len() && (#[trigger] p.grants@[i]) == (
        participant,
        p.roles@[j].id,
    ) && spec_starts_with((#[trigger] p.roles@[j]).label@, "Table "@)
}

/// The participant's state, derived by combining the platform's role grants
/// with the directory record. The grants are the authoritative signal: a
/// holder of the teamless role is teamless whatever the directory says, and
/// where the directory record was lost, a granted table role itself names the
/// group.
#[verifier::loop_isolation(false)]
pub fn membership_state(
    platform: &Platform,
    directory: &Directory,
    cfg: &EventConfig,
    participant: u64,
) -> (r: GroupState)
    requires
        platform.wf(),
        directory.wf(),
    ensures
        match r {
            GroupState::Teamless => platform.has_grant(participant, cfg.teamless_role_id) || (
            spec_dir_get(directory.contents(), participant) is None && !has_granted_table_role(
                *platform,
                participant,
            )),
            GroupState::Assigned(label) => !platform.has_grant(participant, cfg.teamless_role_id)
                && match spec_dir_get(directory.contents(), participant) {
                Some(rec) => label@ == rec,
                None => exists|j: int|
                    0 <= j < platform.roles@.len() && (#[trigger] platform.roles@[j]).label@
                        == label@ && platform.has_grant(participant, platform.roles@[j].id)
                        && spec_starts_with(label@, "Table "@),
            },
        },
{
    if platform.holds_role(participant, cfg.teamless_role_id) {
        return GroupState::Teamless;
    }
    if let Some(label) = directory.get_group(participant) {
        return GroupState::Assigned(label.clone());
    }
    let n = platform.grants.len();
    let mut i: usize = 0;
    while i < n
        invariant
            0 <= i <= n,
            n == platform.grants@.len(),
            forall|k: int, j: int|
                0 <= k < i && 0 <= j < platform.roles@.len() && (#[trigger] platform.grants@[k])
                    == (participant, platform.roles@[j].id) ==> !spec_starts_with(
                    (#[trigger] platform.roles@[j]).label@,
                    "Table "@,
                ),
        decreases n - i,
    {
        let g = platform.grants[i];
        if g.0 == participant {
            match platform.find_role_by_id(g.1) {
                Some(j) => {
                    if starts_with(platform.roles[j].label.as_str(), "Table ") {
                        proof {
                            assert(platform.grants@[i as int] == (
                                participant,
                                platform.roles@[j as int].id,
                            ));
                        }
                        return GroupState::Assigned(platform.roles[j].label.clone());
                    }
                    proof {
                        let gj = j as int;
                        assert forall|j2: int|
                            0 <= j2 < platform.roles@.len() && platform.grants@[i as int] == (
                            participant,
                            platform.roles@[j2].id,
                        ) implies !spec_starts_with(
                            (#[trigger] platform.roles@[j2]).label@,
                            "Table "@,
                        ) by {
                            if j2 < gj {
                                assert(platform.roles@[j2].id != platform.roles@[gj].id);
                            } else if gj < j2 {
                                assert(platform.roles@[gj].id != platform.roles@[j2].id);
                            }
                        }
                    }
                },
                None => {},
            }
        }
        i = i + 1;
    }
    GroupState::Teamless
}

/// What a successful join reports back: the group's label and the platform
/// objects it resolved to.
#[derive(Clone, Debug)]
pub struct JoinReceipt {
    pub label: String,
    pub handle: GroupHandle,
}

/// What a successful leave reports back: the group's label and the role that
/// was revoked.
#[derive(Clone, Debug)]
pub struct LeaveReceipt {
    pub label: String,
    pub role_id: u64,
}

/// The configured teamless role exists on the platform and is the one role
/// that carries the teamless label.
pub open spec fn teamless_role_ok(p: Platform, cfg: EventConfig) -> bool {
    &&& p.has_role_with_id(cfg.teamless_role_id)
    &&& p.role_labeled(cfg.teamless_role_id, spec_teamless_label())
}

/// A join is refused exactly when the participant is not teamless.
pub open spec fn join_rejected(pre_p: Platform, cfg: EventConfig, participant: u64) -> bool {
    !pre_p.has_grant(participant, cfg.teamless_role_id)
}

/// What a successful `join` does: the participant was teamless; the group's
/// role and channel are provisioned (reused if present, created once if not);
/// the participant gains the group role and loses the teamless role, no other
/// grant moves; and the directory records the participant under the group's
/// label, no other record moving.
pub open spec fn join_ok_post(
    pre_p: Platform,
    pre_d: Directory,
    post_p: Platform,
    post_d: Directory,
    cfg: EventConfig,
    participant: u64,
    number: u64,
    color: u32,
    r: JoinReceipt,
) -> bool {
    &&& pre_p.has_grant(participant, cfg.teamless_role_id)
    &&& r.label@ == spec_table_label(number as nat)
    &&& provisioning_post(pre_p, post_p, cfg, number, color, r.handle)
    &&& r.handle.role_id != cfg.teamless_role_id
    &&& forall|q: u64, s: u64|
        post_p.has_grant(q, s) == ((pre_p.has_grant(q, s) || (q == participant && s
            == r.handle.role_id)) && !(q == participant && s == cfg.teamless_role_id))
    &&& spec_dir_get(post_d.contents(), participant) == Some(spec_table_label(number as nat))
    &&& forall|q: u64|
        q != participant ==> spec_dir_get(post_d.contents(), q) == spec_dir_get(
            pre_d.contents(),
            q,
        )
}

/// Adds a participant to the table derived from `number`. Refused with
/// `AlreadyGrouped`, and nothing changed, exactly when the participant is not
/// teamless; otherwise the role and channel are provisioned idempotently, the
/// grants move, and the directory is updated last.
pub fn join(
    platform: &mut Platform,
    directory: &mut Directory,
    cfg: &EventConfig,
    participant: u64,
    number: u64,
    color: u32,
) -> (r: Result<JoinReceipt, MembershipError>)
    requires
        old(platform).wf(),
        old(directory).wf(),
        old(platform).next_object_id <= u64::MAX - 2,
        teamless_role_ok(*old(platform), *cfg),
    ensures
        final(platform).wf(),
        final(directory).wf(),
        teamless_role_ok(*final(platform), *cfg),
        r is Err <==> join_rejected(*old(platform), *cfg, participant),
        match r {
            Ok(receipt) => join_ok_post(
                *old(platform),
                *old(directory),
                *final(platform),
                *final(directory),
                *cfg,
                participant,
                number,
                color,
                receipt,
            ),
            Err(e) => e == MembershipError::AlreadyGrouped && *final(platform) == *old(platform)
                && *final(directory) == *old(directory),
        },
{
    if !platform.holds_role(participant, cfg.teamless_role_id) {
        return Err(MembershipError::AlreadyGrouped);
    }
    let label = table_label(number);
    let ghost pre_p = *platform;
    let handle = ensure_group(platform, cfg, number, color);
    proof {
        lemma_table_label_not_teamless(number as nat);
        if handle.role_id == cfg.teamless_role_id {
            if handle.created_role {
                assert(pre_p.has_role_with_id(handle.role_id));
            } else {
                let k = choose|k: int|
                    0 <= k < platform.roles@.len() && (#[trigger] platform.roles@[k]).label@
                        == spec_table_label(number as nat) && platform.roles@[k].id
                        == handle.role_id;
                assert(platform.roles@[k].label@ == spec_teamless_label());
            }
        }
        assert(teamless_role_ok(*platform, *cfg)) by {
            let i = choose|i: int|
                0 <= i < pre_p.roles@.len() && (#[trigger] pre_p.roles@[i]).id
                    == cfg.teamless_role_id;
            if pre_p.has_role_labeled(spec_table_label(number as nat)) {
                assert(platform.roles@[i].id == cfg.teamless_role_id);
            } else {
                assert(platform.roles@.subrange(0, pre_p.roles@.len() as int)[i]
                    == platform.roles@[i]);
                assert(platform.roles@[i] == pre_p.roles@[i]);
                assert forall|j: int|
                    0 <= j < platform.roles@.len() && (#[trigger] platform.roles@[j]).id
                        == cfg.teamless_role_id implies platform.roles@[j].label@
                    == spec_teamless_label() by {
                    if j < pre_p.roles@.len() {
                        assert(platform.roles@.subrange(0, pre_p.roles@.len() as int)[j]
                            == platform.roles@[j]);
                        assert(platform.roles@[j] == pre_p.roles@[j]);
                    }
                }
            }
        }
    }
    platform.grant_role(participant, handle.role_id);
    platform.revoke_role(participant, cfg.teamless_role_id);
    directory.set_group(participant, label.clone());
    Ok(JoinReceipt { label, handle })
}

/// A leave is refused exactly when the participant is teamless, or no role of
/// the named table exists, or the participant does not hold it.
pub open spec fn leave_rejected(
    pre_p: Platform,
    cfg: EventConfig,
    participant: u64,
    number: u64,
) -> bool {
    ||| pre_p.has_grant(participant, cfg.teamless_role_id)
    ||| !exists|i: int|
        0 <= i < pre_p.roles@.len() && (#[trigger] pre_p.roles@[i]).label@ == spec_table_label(
            number as nat,
        ) && pre_p.has_grant(participant, pre_p.roles@[i].id)
}

/// What a successful `leave` does: the participant held the named table's
/// role; they lose it and become teamless, no other grant moves; the group's
/// role and channel persist; and the participant's directory record is gone,
/// no other record moving.
pub open spec fn leave_ok_post(
    pre_p: Platform,
    pre_d: Directory,
    post_p: Platform,
    post_d: Directory,
    cfg: EventConfig,
    participant: u64,
    number: u64,
    r: LeaveReceipt,
) -> bool {
    &&& !leave_rejected(pre_p, cfg, participant, number)
    &&& r.label@ == spec_table_label(number as nat)
    &&& exists|i: int|
        0 <= i < pre_p.roles@.len() && (#[trigger] pre_p.roles@[i]).label@ == spec_table_label(
            number as nat,
        ) && pre_p.roles@[i].id == r.role_id
    &&& pre_p.has_grant(participant, r.role_id)
    &&& r.role_id != cfg.teamless_role_id
    &&& post_p.roles@ == pre_p.roles@
    &&& post_p.channels@ == pre_p.channels@
    &&& post_p.next_object_id == pre_p.next_object_id
    &&& forall|q: u64, s: u64|
        post_p.has_grant(q, s) == ((pre_p.has_grant(q, s) && !(q == participant && s == r.role_id))
            || (q == participant && s == cfg.teamless_role_id))
    &&& spec_dir_get(post_d.contents(), participant) is None
    &&& forall|q: u64|
        q != participant ==> spec_dir_get(post_d.contents(), q) == spec_dir_get(
            pre_d.contents(),
            q,
        )
}

/// Removes a participant from the table derived from `number`. Refused with
/// `NotInGroup`, and nothing changed, exactly when the participant is
/// teamless, the table's role does not exist, or they do not hold it;
/// otherwise the group role is revoked, the teamless role granted, and the
/// directory record cleared. The role and channel themselves persist.
pub fn leave(
    platform: &mut Platform,
    directory: &mut Directory,
    cfg: &EventConfig,
    participant: u64,
    number: u64,
) -> (r: Result<LeaveReceipt, MembershipError>)
    requires
        old(platform).wf(),
        old(directory).wf(),
        teamless_role_ok(*old(platform), *cfg),
    ensures
        final(platform).wf(),
        final(directory).wf(),
        teamless_role_ok(*final(platform), *cfg),
        r is Err <==> leave_rejected(*old(platform), *cfg, participant, number),
        match r {
            Ok(receipt) => leave_ok_post(
                *old(platform),
                *old(directory),
                *final(platform),
                *final(directory),
                *cfg,
                participant,
                number,
                receipt,
            ),
            Err(e) => e == MembershipError::NotInGroup && *final(platform) == *old(platform)
                && *final(directory) == *old(directory),
        },
{
    let ghost lbl = spec_table_label(number as nat);
    if platform.holds_role(participant, cfg.teamless_role_id) {
        return Err(MembershipError::NotInGroup);
    }
    let label = table_label(number);
    let found = platform.find_role_by_label(label.as_str());
    let role_id = match found {
        Some(i) => platform.roles[i].id,
        None => {
            proof {
                assert(leave_rejected(*platform, *cfg, participant, number)) by {
                    if exists|k: int|
                        0 <= k < platform.roles@.len() && (#[trigger] platform.roles@[k]).label@
                            == lbl && platform.has_grant(participant, platform.roles@[k].id) {
                        let k = choose|k: int|
                            0 <= k < platform.roles@.len() && (#[trigger] platform.roles@[k]).label@
                                == lbl && platform.has_grant(participant, platform.roles@[k].id);
                        assert(platform.has_role_labeled(lbl));
                    }
                }
            }
            return Err(MembershipError::NotInGroup);
        },
    };
    let ghost fi = found->Some_0 as int;
    if !platform.holds_role(participant, role_id) {
        proof {
            assert(leave_rejected(*platform, *cfg, participant, number)) by {
                if exists|k: int|
                    0 <= k < platform.roles@.len() && (#[trigger] platform.roles@[k]).label@ == lbl
                        && platform.has_grant(participant, platform.roles@[k].id) {
                    let k = choose|k: int|
                        0 <= k < platform.roles@.len() && (#[trigger] platform.roles@[k]).label@
                            == lbl && platform.has_grant(participant, platform.roles@[k].id);
                    if k < fi {
                        assert(platform.roles@[k].label@ != platform.roles@[fi].label@);
                    } else if fi < k {
                        assert(platform.roles@[fi].label@ != platform.roles@[k].label@);
                    }
                }
            }
        }
        return Err(MembershipError::NotInGroup);
    }
    proof {
        assert(!leave_rejected(*platform, *cfg, participant, number)) by {
            assert(platform.roles@[fi].label@ == lbl && platform.has_grant(
                participant,
                platform.roles@[fi].id,
            ));
        }
    }
    platform.revoke_role(participant, role_id);
    platform.grant_role(participant, cfg.teamless_role_id);
    directory.clear_group(participant);
    Ok(LeaveReceipt { label, role_id })
}

} // verus!
