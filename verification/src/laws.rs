//! The laws that tie the operations together: provisioning the same table
//! twice never duplicates its objects; a join followed by a leave returns the
//! participant to a clean state; and a stored request is visible in every
//! listing until it is completed, and in none after.

use vstd::prelude::*;

use crate::config::EventConfig;
use crate::coordinator::{join_ok_post, leave_ok_post, leave_rejected, JoinReceipt, LeaveReceipt};
use crate::directory::{spec_dir_get, Directory};
use crate::labels::{spec_channel_name, spec_table_label};
use crate::platform::Platform;
use crate::provision::{provisioned, provisioning_post, GroupHandle};
use crate::queue::{distinct_ids, listing_complete, listing_sound, spec_get};
use crate::records::{
    lemma_record_round_trip, spec_decode_fields, spec_encode_fields, HelpRequest, HelpRequestModel,
};

verus! {

/// Provisioning the same numeric table id twice creates its role and channel
/// at most once: the second pass changes no platform object, resolves to the
/// objects of the first, and the final state holds exactly one role with the
/// table's label and exactly one channel with its name.
pub proof fn lemma_provisioning_idempotent(
    s0: Platform,
    s1: Platform,
    s2: Platform,
    cfg: EventConfig,
    number: u64,
    color1: u32,
    color2: u32,
    h1: GroupHandle,
    h2: GroupHandle,
)
    requires
        s1.wf(),
        s2.wf(),
        provisioning_post(s0, s1, cfg, number, color1, h1),
        provisioning_post(s1, s2, cfg, number, color2, h2),
    ensures
        s2.roles@ == s1.roles@,
        s2.channels@ == s1.channels@,
        !h2.created_role,
        !h2.created_channel,
        h2.role_id == h1.role_id,
        h2.channel_id == h1.channel_id,
        provisioned(s2, number as nat, h1.role_id, h1.channel_id),
        forall|i: int, j: int|
            0 <= i < s2.roles@.len() && 0 <= j < s2.roles@.len() && (#[trigger] s2.roles@[i]).label@
                == spec_table_label(number as nat) && (#[trigger] s2.roles@[j]).label@
                == spec_table_label(number as nat) ==> i == j,
        forall|i: int, j: int|
            0 <= i < s2.channels@.len() && 0 <= j < s2.channels@.len() && (
            #[trigger] s2.channels@[i]).name@ == spec_channel_name(number as nat) && (
            #[trigger] s2.channels@[j]).name@ == spec_channel_name(number as nat) ==> i == j,
{
    let lbl = spec_table_label(number as nat);
    let chn = spec_channel_name(number as nat);
    let r1 = choose|i: int|
        0 <= i < s1.roles@.len() && (#[trigger] s1.roles@[i]).label@ == lbl && s1.roles@[i].id
            == h1.role_id;
    assert(s1.has_role_labeled(lbl));
    assert(s2.roles@ == s1.roles@);
    let r2 = choose|i: int|
        0 <= i < s2.roles@.len() && (#[trigger] s2.roles@[i]).label@ == lbl && s2.roles@[i].id
            == h2.role_id;
    assert(r1 == r2) by {
        if r1 < r2 {
            assert(s2.roles@[r1].label@ != s2.roles@[r2].label@);
        } else if r2 < r1 {
            assert(s2.roles@[r2].label@ != s2.roles@[r1].label@);
        }
    }
    let c1 = choose|i: int|
        0 <= i < s1.channels@.len() && (#[trigger] s1.channels@[i]).name@ == chn
            && s1.channels@[i].id == h1.channel_id;
    assert(s1.has_channel_named(chn));
    assert(s2.channels@ == s1.channels@);
    let c2 = choose|i: int|
        0 <= i < s2.channels@.len() && (#[trigger] s2.channels@[i]).name@ == chn
            && s2.channels@[i].id == h2.channel_id;
    assert(c1 == c2) by {
        if c1 < c2 {
            assert(s2.channels@[c1].name@ != s2.channels@[c2].name@);
        } else if c2 < c1 {
            assert(s2.channels@[c2].name@ != s2.channels@[c1].name@);
        }
    }
    assert forall|i: int, j: int|
        0 <= i < s2.roles@.len() && 0 <= j < s2.roles@.len() && (#[trigger] s2.roles@[i]).label@
            == lbl && (#[trigger] s2.roles@[j]).label@ == lbl implies i == j by {
        if i < j {
            assert(s2.roles@[i].label@ != s2.roles@[j].label@);
        } else if j < i {
            assert(s2.roles@[j].label@ != s2.roles@[i].label@);
        }
    }
    assert forall|i: int, j: int|
        0 <= i < s2.channels@.len() && 0 <= j < s2.channels@.len() && (
    #[trigger] s2.channels@[i]).name@ == chn && (#[trigger] s2.channels@[j]).name@
        == chn implies i == j by {
        if i < j {
            assert(s2.channels@[i].name@ != s2.channels@[j].name@);
        } else if j < i {
            assert(s2.channels@[j].name@ != s2.channels@[i].name@);
        }
    }
}

/// Joining the same table twice — by whoever joins second — provisions it
/// once: the second join creates no role and no channel, resolves to the
/// objects of the first, and the platform ends with exactly one role and one
/// channel for the table.
pub proof fn lemma_join_twice_provisions_once(
    p0: Platform,
    d0: Directory,
    p1: Platform,
    d1: Directory,
    p2: Platform,
    d2: Directory,
    cfg: EventConfig,
    participant1: u64,
    participant2: u64,
    number: u64,
    color1: u32,
    color2: u32,
    jr1: JoinReceipt,
    jr2: JoinReceipt,
)
    requires
        p1.wf(),
        p2.wf(),
        join_ok_post(p0, d0, p1, d1, cfg, participant1, number, color1, jr1),
        join_ok_post(p1, d1, p2, d2, cfg, participant2, number, color2, jr2),
    ensures
        !jr2.handle.created_role,
        !jr2.handle.created_channel,
        jr2.handle.role_id == jr1.handle.role_id,
        jr2.handle.channel_id == jr1.handle.channel_id,
        provisioned(p2, number as nat, jr1.handle.role_id, jr1.handle.channel_id),
        forall|i: int, j: int|
            0 <= i < p2.roles@.len() && 0 <= j < p2.roles@.len() && (#[trigger] p2.roles@[i]).label@
                == spec_table_label(number as nat) && (#[trigger] p2.roles@[j]).label@
                == spec_table_label(number as nat) ==> i == j,
        forall|i: int, j: int|
            0 <= i < p2.channels@.len() && 0 <= j < p2.channels@.len() && (
            #[trigger] p2.channels@[i]).name@ == spec_channel_name(number as nat) && (
            #[trigger] p2.channels@[j]).name@ == spec_channel_name(number as nat) ==> i == j,
{
    lemma_provisioning_idempotent(
        p0,
        p1,
        p2,
        cfg,
        number,
        color1,
        color2,
        jr1.handle,
        jr2.handle,
    );
}

/// A successful join leaves the participant in exactly the state a leave of
/// the same table asks for: a leave right after it cannot be refused.
pub proof fn lemma_leave_possible_after_join(
    p0: Platform,
    d0: Directory,
    p1: Platform,
    d1: Directory,
    cfg: EventConfig,
    participant: u64,
    number: u64,
    color: u32,
    r: JoinReceipt,
)
    requires
        join_ok_post(p0, d0, p1, d1, cfg, participant, number, color, r),
    ensures
        !leave_rejected(p1, cfg, participant, number),
{
    let lbl = spec_table_label(number as nat);
    let i = choose|i: int|
        0 <= i < p1.roles@.len() && (#[trigger] p1.roles@[i]).label@ == lbl && p1.roles@[i].id
            == r.handle.role_id;
    assert(p1.has_grant(participant, p1.roles@[i].id));
}

/// After a join of table `n` and then a leave of table `n`, the directory has
/// no record for the participant and the participant holds no role labeled
/// for `n`.
pub proof fn lemma_join_then_leave_clean(
    p0: Platform,
    d0: Directory,
    p1: Platform,
    d1: Directory,
    p2: Platform,
    d2: Directory,
    cfg: EventConfig,
    participant: u64,
    number: u64,
    color: u32,
    jr: JoinReceipt,
    lr: LeaveReceipt,
)
    requires
        p1.wf(),
        join_ok_post(p0, d0, p1, d1, cfg, participant, number, color, jr),
        leave_ok_post(p1, d1, p2, d2, cfg, participant, number, lr),
    ensures
        spec_dir_get(d2.contents(), participant) is None,
        forall|i: int|
            0 <= i < p2.roles@.len() && (#[trigger] p2.roles@[i]).label@ == spec_table_label(
                number as nat,
            ) ==> !p2.has_grant(participant, p2.roles@[i].id),
{
    let lbl = spec_table_label(number as nat);
    let k = choose|k: int|
        0 <= k < p1.roles@.len() && (#[trigger] p1.roles@[k]).label@ == lbl && p1.roles@[k].id
            == lr.role_id;
    assert forall|i: int|
        0 <= i < p2.roles@.len() && (#[trigger] p2.roles@[i]).label@ == lbl implies !p2.has_grant(
        participant,
        p2.roles@[i].id,
    ) by {
        assert(p2.roles@ == p1.roles@);
        assert(i == k) by {
            if i < k {
                assert(p1.roles@[i].label@ != p1.roles@[k].label@);
            } else if k < i {
                assert(p1.roles@[k].label@ != p1.roles@[i].label@);
            }
        }
        assert(!p2.has_grant(participant, lr.role_id));
    }
}

/// A request stored with a non-zero timestamp is shown, with exactly its
/// content, by every sound and complete listing of the store.
pub proof fn lemma_enqueued_is_listed(
    entries: Seq<(String, Vec<String>)>,
    out: Seq<(String, HelpRequest)>,
    id: Seq<char>,
    description: Seq<char>,
    link: Seq<char>,
    attribution: Seq<char>,
    timestamp: i64,
)
    requires
        timestamp != 0,
        distinct_ids(entries),
        spec_get(entries, id) == Some(
            spec_encode_fields(description, link, attribution, timestamp as int),
        ),
        listing_sound(entries, out),
        listing_complete(entries, out),
    ensures
        exists|k: int|
            0 <= k < out.len() && (#[trigger] out[k]).0@ == id && out[k].1@
                == (HelpRequestModel { description, link, attribution, timestamp: timestamp as int }),
{
    crate::queue::lemma_get_characterization(entries, id);
    let i = choose|i: int|
        0 <= i < entries.len() && (#[trigger] entries[i]).0@ == id && entries[i].1.deep_view()
            == spec_encode_fields(description, link, attribution, timestamp as int);
    lemma_record_round_trip(description, link, attribution, timestamp);
    let m = HelpRequestModel { description, link, attribution, timestamp: timestamp as int };
    assert(spec_decode_fields(entries[i].1.deep_view()) == Some(m));
    let k = choose|k: int|
        0 <= k < out.len() && (#[trigger] out[k]).0@ == entries[i].0@ && out[k].1@ == m;
    assert(out[k].0@ == id && out[k].1@ == m);
}

/// Completion is idempotent: deleting an id that is already absent — a second
/// `complete` of the same request — leaves every lookup as it was.
pub proof fn lemma_complete_idempotent(
    before: Seq<(String, Vec<String>)>,
    after: Seq<(String, Vec<String>)>,
    id: Seq<char>,
)
    requires
        spec_get(before, id) is None,
        spec_get(after, id) is None,
        forall|k: Seq<char>| k != id ==> spec_get(after, k) == spec_get(before, k),
    ensures
        forall|k: Seq<char>| spec_get(after, k) == spec_get(before, k),
{
}

/// An id the store does not hold — a completed request among them — is shown
/// by no sound listing.
pub proof fn lemma_completed_not_listed(
    entries: Seq<(String, Vec<String>)>,
    out: Seq<(String, HelpRequest)>,
    id: Seq<char>,
)
    requires
        distinct_ids(entries),
        spec_get(entries, id) is None,
        listing_sound(entries, out),
    ensures
        forall|k: int| 0 <= k < out.len() ==> (#[trigger] out[k]).0@ != id,
{
    crate::queue::lemma_get_characterization(entries, id);
    assert forall|k: int| 0 <= k < out.len() implies (#[trigger] out[k]).0@ != id by {
        let i = choose|i: int|
            0 <= i < entries.len() && (#[trigger] out[k]).0@ == (#[trigger] entries[i]).0@
                && spec_decode_fields(entries[i].1.deep_view()) == Some(out[k].1@);
        assert(entries[i].0@ != id);
    }
}

} // verus!
