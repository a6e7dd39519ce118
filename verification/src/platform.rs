//! A model of the chat platform's state as far as the coordinator reads and
//! writes it: the roles, the channels with their permission overwrites, and
//! which participant holds which role. Object ids are handed out by a counter
//! and never reused; role labels and channel names are unique, which the
//! lookup-before-create discipline of the provisioner maintains.

use vstd::prelude::*;

verus! {

pub const PERM_CHANGE_NICKNAME: u64 = 1;

pub const PERM_READ_MESSAGES: u64 = 2;

pub const PERM_SEND_MESSAGES: u64 = 4;

pub const PERM_EMBED_LINKS: u64 = 8;

pub const PERM_ATTACH_FILES: u64 = 16;

pub const PERM_READ_MESSAGE_HISTORY: u64 = 32;

pub const PERM_USE_EXTERNAL_EMOJIS: u64 = 64;

pub const PERM_ADD_REACTIONS: u64 = 128;

pub const PERM_CONNECT: u64 = 256;

pub const PERM_SPEAK: u64 = 512;

pub const PERM_USE_VOICE_ACTIVITY: u64 = 1024;

pub const PERM_MANAGE_MESSAGES: u64 = 2048;

/// The fixed, non-administrative permission set of a table role.
pub const TABLE_ROLE_PERMISSIONS: u64 = PERM_CHANGE_NICKNAME | PERM_READ_MESSAGES
    | PERM_SEND_MESSAGES | PERM_EMBED_LINKS | PERM_ATTACH_FILES | PERM_READ_MESSAGE_HISTORY
    | PERM_USE_EXTERNAL_EMOJIS | PERM_ADD_REACTIONS | PERM_CONNECT | PERM_SPEAK
    | PERM_USE_VOICE_ACTIVITY;

/// A role on the platform.
#[derive(Clone, Debug)]
pub struct RoleEntry {
    pub id: u64,
    pub label: String,
    pub color: u32,
    pub permissions: u64,
}

/// One role's standing permission overwrite on a channel.
#[derive(Clone, Copy, Debug, PartialEq, Eq, Structural)]
pub struct OverwriteEntry {
    pub role_id: u64,
    pub allow: u64,
    pub deny: u64,
}

/// A channel on the platform.
#[derive(Clone, Debug)]
pub struct ChannelEntry {
    pub id: u64,
    pub name: String,
    pub category_id: u64,
    pub overwrites: Vec<OverwriteEntry>,
}

/// The platform state the coordinator acts on.
#[derive(Debug)]
pub struct Platform {
    pub roles: Vec<RoleEntry>,
    pub channels: Vec<ChannelEntry>,
    /// Which participant holds which role, as a set of pairs.
    pub grants: Vec<(u64, u64)>,
    /// The next object id the platform will assign.
    pub next_object_id: u64,
}

impl Platform {
    /// Ids and names are unique, grants are a set, and every id was assigned
    /// below the counter.
    pub open spec fn wf(&self) -> bool {
        &&& forall|i: int, j: int|
            0 <= i < j < self.roles@.len() ==> (#[trigger] self.roles@[i]).id != (
            #[trigger] self.roles@[j]).id && self.roles@[i].label@ != self.roles@[j].label@
        &&& forall|i: int, j: int|
            0 <= i < j < self.channels@.len() ==> (#[trigger] self.channels@[i]).id != (
            #[trigger] self.channels@[j]).id && self.channels@[i].name@ != self.channels@[j].name@
        &&& forall|i: int, j: int|
            0 <= i < j < self.grants@.len() ==> (#[trigger] self.grants@[i]) != (
            #[trigger] self.grants@[j])
        &&& forall|i: int|
            0 <= i < self.roles@.len() ==> (#[trigger] self.roles@[i]).id < self.next_object_id
        &&& forall|i: int|
            0 <= i < self.channels@.len() ==> (#[trigger] self.channels@[i]).id
                < self.next_object_id
    }

    /// A role with this id, if present, carries this label — how the fixed
    /// roles of the configuration are tied to their meaning.
    pub open spec fn role_labeled(&self, role_id: u64, label: Seq<char>) -> bool {
        forall|i: int|
            0 <= i < self.roles@.len() && (#[trigger] self.roles@[i]).id == role_id
                ==> self.roles@[i].label@ == label
    }

    pub open spec fn has_role_labeled(&self, label: Seq<char>) -> bool {
        exists|i: int| 0 <= i < self.roles@.len() && (#[trigger] self.roles@[i]).label@ == label
    }

    pub open spec fn has_role_with_id(&self, role_id: u64) -> bool {
        exists|i: int| 0 <= i < self.roles@.len() && (#[trigger] self.roles@[i]).id == role_id
    }

    pub open spec fn has_channel_named(&self, name: Seq<char>) -> bool {
        exists|i: int| 0 <= i < self.channels@.len() && (#[trigger] self.channels@[i]).name@ == name
    }

    pub open spec fn has_grant(&self, participant: u64, role_id: u64) -> bool {
        exists|i: int|
            0 <= i < self.grants@.len() && (#[trigger] self.grants@[i]) == (participant, role_id)
    }

    /// An empty platform whose counter starts at the given id.
    pub fn new(first_object_id: u64) -> (r: Platform)
        ensures
            r.wf(),
            r.roles@.len() == 0,
            r.channels@.len() == 0,
            r.grants@.len() == 0,
            r.next_object_id == first_object_id,
    {
        Platform { roles: Vec::new(), channels: Vec::new(), grants: Vec::new(), next_object_id: first_object_id }
    }

    /// The index of the role with the given label, if one exists.
    pub fn find_role_by_label(&self, label: &str) -> (r: Option<usize>)
        ensures
            match r {
                Some(i) => i < self.roles@.len() && self.roles@[i as int].label@ == label@,
                None => !self.has_role_labeled(label@),
            },
    {
        let n = self.roles.len();
        let mut i: usize = 0;
        while i < n
            invariant
                0 <= i <= n,
                n == self.roles@.len(),
                forall|k: int| 0 <= k < i ==> (#[trigger] self.roles@[k]).label@ != label@,
            decreases n - i,
        {
            if crate::text::str_eq(self.roles[i].label.as_str(), label) {
                return Some(i);
            }
            i = i + 1;
        }
        None
    }

    /// The index of the role with the given id, if one exists.
    pub fn find_role_by_id(&self, role_id: u64) -> (r: Option<usize>)
        ensures
            match r {
                Some(i) => i < self.roles@.len() && self.roles@[i as int].id == role_id,
                None => !self.has_role_with_id(role_id),
            },
    {
        let n = self.roles.len();
        let mut i: usize = 0;
        while i < n
            invariant
                0 <= i <= n,
                n == self.roles@.len(),
                forall|k: int| 0 <= k < i ==> (#[trigger] self.roles@[k]).id != role_id,
            decreases n - i,
        {
            if self.roles[i].id == role_id {
                return Some(i);
            }
            i = i + 1;
        }
        None
    }

    /// The index of the channel with the given name, if one exists.
    pub fn find_channel_by_name(&self, name: &str) -> (r: Option<usize>)
        ensures
            match r {
                Some(i) => i < self.channels@.len() && self.channels@[i as int].name@ == name@,
                None => !self.has_channel_named(name@),
            },
    {
        let n = self.channels.len();
        let mut i: usize = 0;
        while i < n
            invariant
                0 <= i <= n,
                n == self.channels@.len(),
                forall|k: int| 0 <= k < i ==> (#[trigger] self.channels@[k]).name@ != name@,
            decreases n - i,
        {
            if crate::text::str_eq(self.channels[i].name.as_str(), name) {
                return Some(i);
            }
            i = i + 1;
        }
        None
    }

    /// Whether the participant holds the role.
    pub fn holds_role(&self, participant: u64, role_id: u64) -> (r: bool)
        ensures
            r == self.has_grant(participant, role_id),
    {
        let n = self.grants.len();
        let mut i: usize = 0;
        while i < n
            invariant
                0 <= i <= n,
                n == self.grants@.len(),
                forall|k: int| 0 <= k < i ==> (#[trigger] self.grants@[k]) != (participant, role_id),
            decreases n - i,
        {
            let g = self.grants[i];
            if g.0 == participant && g.1 == role_id {
                return true;
            }
            i = i + 1;
        }
        false
    }

    /// Creates a role under a fresh id. The label must be new: the platform
    /// is only ever asked for a role after a lookup found none.
    pub fn create_role(&mut self, label: String, color: u32, permissions: u64) -> (r: u64)
        requires
            old(self).wf(),
            !old(self).has_role_labeled(label@),
            old(self).next_object_id < u64::MAX,
        ensures
            final(self).wf(),
            r == old(self).next_object_id,
            final(self).next_object_id == old(self).next_object_id + 1,
            final(self).roles@ == old(self).roles@.push(
                RoleEntry { id: r, label, color, permissions },
            ),
            final(self).channels@ == old(self).channels@,
            final(self).grants@ == old(self).grants@,
    {
        let id = self.next_object_id;
        self.roles.push(RoleEntry { id, label, color, permissions });
        self.next_object_id = self.next_object_id + 1;
        proof {
            let pre = old(self).roles@;
            let post = self.roles@;
            assert(forall|k: int| 0 <= k < pre.len() ==> post[k] == pre[k]);
            assert(post[post.len() - 1].id == id && post[post.len() - 1].label@ == label@);
            assert forall|i: int, j: int| 0 <= i < j < post.len() implies (#[trigger] post[i]).id
                != (#[trigger] post[j]).id && post[i].label@ != post[j].label@ by {
                if j == post.len() - 1 {
                    assert(pre[i].id < old(self).next_object_id);
                    assert(pre[i].label@ != label@);
                }
            }
            assert forall|i: int|
                0 <= i < post.len() implies (#[trigger] post[i]).id < self.next_object_id by {
                if i < pre.len() {
                    assert(post[i] == pre[i]);
                }
            }
        }
        id
    }

    /// Creates a channel under a fresh id, in a category, with the given
    /// permission overwrites. The name must be new.
    pub fn create_channel(
        &mut self,
        name: String,
        category_id: u64,
        overwrites: Vec<OverwriteEntry>,
    ) -> (r: u64)
        requires
            old(self).wf(),
            !old(self).has_channel_named(name@),
            old(self).next_object_id < u64::MAX,
        ensures
            final(self).wf(),
            r == old(self).next_object_id,
            final(self).next_object_id == old(self).next_object_id + 1,
            final(self).channels@ == old(self).channels@.push(
                ChannelEntry { id: r, name, category_id, overwrites },
            ),
            final(self).roles@ == old(self).roles@,
            final(self).grants@ == old(self).grants@,
    {
        let id = self.next_object_id;
        self.channels.push(ChannelEntry { id, name, category_id, overwrites });
        self.next_object_id = self.next_object_id + 1;
        proof {
            let pre = old(self).channels@;
            let post = self.channels@;
            assert(forall|k: int| 0 <= k < pre.len() ==> post[k] == pre[k]);
            assert(post[post.len() - 1].id == id && post[post.len() - 1].name@ == name@);
            assert forall|i: int, j: int| 0 <= i < j < post.len() implies (#[trigger] post[i]).id
                != (#[trigger] post[j]).id && post[i].name@ != post[j].name@ by {
                if j == post.len() - 1 {
                    assert(pre[i].id < old(self).next_object_id);
                    assert(pre[i].name@ != name@);
                }
            }
            assert forall|i: int|
                0 <= i < post.len() implies (#[trigger] post[i]).id < self.next_object_id by {
                if i < pre.len() {
                    assert(post[i] == pre[i]);
                }
            }
            assert forall|i: int|
                0 <= i < self.roles@.len() implies (#[trigger] self.roles@[i]).id
                    < self.next_object_id by {
                assert(old(self).roles@[i].id < old(self).next_object_id);
            }
        }
        id
    }

    /// Grants a role to a participant; granting a held role changes nothing.
    pub fn grant_role(&mut self, participant: u64, role_id: u64)
        requires
            old(self).wf(),
        ensures
            final(self).wf(),
            forall|q: u64, s: u64|
                final(self).has_grant(q, s) == (old(self).has_grant(q, s) || (q == participant && s
                    == role_id)),
            final(self).roles@ == old(self).roles@,
            final(self).channels@ == old(self).channels@,
            final(self).next_object_id == old(self).next_object_id,
    {
        if !self.holds_role(participant, role_id) {
            let ghost pre = self.grants@;
            self.grants.push((participant, role_id));
            proof {
                let post = self.grants@;
                assert(forall|k: int| 0 <= k < pre.len() ==> post[k] == pre[k]);
                assert(post.last() == (participant, role_id));
                assert forall|a: int, b: int| 0 <= a < b < post.len() implies (#[trigger] post[a])
                    != (#[trigger] post[b]) by {
                    if b == post.len() - 1 {
                        assert(pre[a] != (participant, role_id));
                    }
                }
                assert forall|q: u64, s: u64|
                    self.has_grant(q, s) == (old(self).has_grant(q, s) || (q == participant
                        && s == role_id)) by {
                    if q == participant && s == role_id {
                        assert(post[post.len() - 1] == (q, s));
                    } else {
                        if old(self).has_grant(q, s) {
                            let k = choose|k: int|
                                0 <= k < pre.len() && (#[trigger] pre[k]) == (q, s);
                            assert(post[k] == (q, s));
                        }
                        if self.has_grant(q, s) {
                            let k = choose|k: int|
                                0 <= k < post.len() && (#[trigger] post[k]) == (q, s);
                            assert(k < pre.len());
                            assert(pre[k] == (q, s));
                        }
                    }
                }
            }
        }
    }

    /// Revokes a role from a participant; revoking an unheld role changes
    /// nothing.
    #[verifier::loop_isolation(false)]
    pub fn revoke_role(&mut self, participant: u64, role_id: u64)
        requires
            old(self).wf(),
        ensures
            final(self).wf(),
            forall|q: u64, s: u64|
                final(self).has_grant(q, s) == (old(self).has_grant(q, s) && !(q == participant && s
                    == role_id)),
            final(self).roles@ == old(self).roles@,
            final(self).channels@ == old(self).channels@,
            final(self).next_object_id == old(self).next_object_id,
    {
        let n = self.grants.len();
        let mut i: usize = 0;
        while i < n
            invariant
                0 <= i <= n,
                n == self.grants@.len(),
                *self == *old(self),
                forall|k: int| 0 <= k < i ==> (#[trigger] self.grants@[k]) != (participant, role_id),
            decreases n - i,
        {
            let g = self.grants[i];
            if g.0 == participant && g.1 == role_id {
                let ghost pre = self.grants@;
                let ghost gi = i as int;
                self.grants.remove(i);
                proof {
                    let post = self.grants@;
                    assert(forall|k: int| 0 <= k < gi ==> post[k] == pre[k]);
                    assert(forall|k: int| gi <= k < post.len() ==> post[k] == pre[k + 1]);
                    assert forall|a: int, b: int|
                        0 <= a < b < post.len() implies (#[trigger] post[a]) != (
                    #[trigger] post[b]) by {
                        if a < gi {
                            assert(post[a] == pre[a]);
                        } else {
                            assert(post[a] == pre[a + 1]);
                        }
                        if b < gi {
                            assert(post[b] == pre[b]);
                        } else {
                            assert(post[b] == pre[b + 1]);
                        }
                    }
                    assert forall|q: u64, s: u64|
                        self.has_grant(q, s) == (old(self).has_grant(q, s) && !(q
                            == participant && s == role_id)) by {
                        if self.has_grant(q, s) {
                            let k = choose|k: int|
                                0 <= k < post.len() && (#[trigger] post[k]) == (q, s);
                            if k < gi {
                                assert(pre[k] == (q, s));
                            } else {
                                assert(pre[k + 1] == (q, s));
                            }
                            assert((q, s) != (participant, role_id));
                        }
                        if old(self).has_grant(q, s) && !(q == participant && s == role_id) {
                            let k = choose|k: int|
                                0 <= k < pre.len() && (#[trigger] pre[k]) == (q, s);
                            assert(k != gi);
                            if k < gi {
                                assert(post[k] == (q, s));
                            } else {
                                assert(post[k - 1] == (q, s));
                            }
                        }
                    }
                }
                return ;
            }
            i = i + 1;
        }
        proof {
            assert forall|q: u64, s: u64|
                self.has_grant(q, s) == (old(self).has_grant(q, s) && !(q == participant && s
                    == role_id)) by {
                if q == participant && s == role_id {
                    assert(!self.has_grant(q, s));
                }
            }
        }
    }
}

} // verus!
