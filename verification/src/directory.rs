//! The group directory: the persistent mapping from a participant to the
//! label of the group they belong to. A participant has at most one record;
//! absence means no group is assigned. Writes are idempotent upserts and
//! removals, as the store's own operations are.

use vstd::prelude::*;

verus! {

/// The label recorded for a participant, or nothing.
pub open spec fn spec_dir_get(s: Seq<(u64, String)>, participant: u64) -> Option<Seq<char>>
    decreases s.len(),
{
    if s.len() == 0 {
        None
    } else if s.last().0 == participant {
        Some(s.last().1@)
    } else {
        spec_dir_get(s.drop_last(), participant)
    }
}

/// Directory keys are distinct.
pub open spec fn distinct_participants(s: Seq<(u64, String)>) -> bool {
    forall|i: int, j: int|
        0 <= i < j < s.len() ==> (#[trigger] s[i]).0 != (#[trigger] s[j]).0
}

/// With distinct keys, `spec_dir_get` answers exactly by the record that
/// carries the participant, if any.
pub proof fn lemma_dir_get_characterization(s: Seq<(u64, String)>, participant: u64)
    requires
        distinct_participants(s),
    ensures
        match spec_dir_get(s, participant) {
            Some(v) => exists|i: int|
                0 <= i < s.len() && (#[trigger] s[i]).0 == participant && s[i].1@ == v,
            None => forall|i: int| 0 <= i < s.len() ==> (#[trigger] s[i]).0 != participant,
        },
        forall|i: int|
            0 <= i < s.len() && (#[trigger] s[i]).0 == participant ==> spec_dir_get(s, participant)
                == Some(s[i].1@),
    decreases s.len(),
{
    if s.len() > 0 {
        assert(distinct_participants(s.drop_last())) by {
            assert(forall|i: int|
                0 <= i < s.len() - 1 ==> s.drop_last()[i] == s[i]);
        }
        lemma_dir_get_characterization(s.drop_last(), participant);
        if s.last().0 == participant {
            assert(forall|i: int|
                0 <= i < s.len() - 1 ==> (#[trigger] s[i]).0 != s[s.len() - 1].0);
        } else {
            assert(forall|i: int|
                0 <= i < s.len() - 1 ==> s.drop_last()[i] == s[i]);
        }
    }
}

/// The persistent participant-to-group mapping.
#[derive(Debug)]
pub struct Directory {
    pub entries: Vec<(u64, String)>,
}

impl Directory {
    /// The recorded assignments.
    pub open spec fn contents(&self) -> Seq<(u64, String)> {
        self.entries@
    }

    pub open spec fn wf(&self) -> bool {
        distinct_participants(self.entries@)
    }

    /// An empty directory.
    pub fn new() -> (r: Self)
        ensures
            r.wf(),
            r.contents().len() == 0,
            forall|p: u64| spec_dir_get(r.contents(), p) is None,
    {
        Directory { entries: Vec::new() }
    }

    fn find_index(&self, participant: u64) -> (r: Option<usize>)
        ensures
            match r {
                Some(i) => i < self.entries@.len() && self.entries@[i as int].0 == participant,
                None => forall|i: int|
                    0 <= i < self.entries@.len() ==> (#[trigger] self.entries@[i]).0 != participant,
            },
    {
        let n = self.entries.len();
        let mut i: usize = 0;
        while i < n
            invariant
                0 <= i <= n,
                n == self.entries@.len(),
                forall|k: int| 0 <= k < i ==> (#[trigger] self.entries@[k]).0 != participant,
            decreases n - i,
        {
            if self.entries[i].0 == participant {
                return Some(i);
            }
            i = i + 1;
        }
        None
    }

    /// The label recorded for a participant, or nothing if no record exists.
    pub fn get_group(&self, participant: u64) -> (r: Option<&String>)
        requires
            self.wf(),
        ensures
            match r {
                Some(label) => spec_dir_get(self.contents(), participant) == Some(label@),
                None => spec_dir_get(self.contents(), participant) is None,
            },
    {
        proof {
            lemma_dir_get_characterization(self.entries@, participant);
        }
        match self.find_index(participant) {
            Some(i) => Some(&self.entries[i].1),
            None => None,
        }
    }

    /// Records the participant's group, overwriting any prior label.
    pub fn set_group(&mut self, participant: u64, label: String)
        requires
            old(self).wf(),
        ensures
            final(self).wf(),
            spec_dir_get(final(self).contents(), participant) == Some(label@),
            forall|q: u64|
                q != participant ==> spec_dir_get(final(self).contents(), q) == spec_dir_get(
                    old(self).contents(),
                    q,
                ),
    {
        let ghost pre = self.entries@;
        match self.find_index(participant) {
            Some(i) => {
                let ghost gi = i as int;
                self.entries.set(i, (participant, label));
                proof {
                    let post = self.entries@;
                    assert(forall|j: int| 0 <= j < post.len() && j != gi ==> post[j] == pre[j]);
                    assert(distinct_participants(post)) by {
                        assert(forall|a: int|
                            0 <= a < post.len() ==> (#[trigger] post[a]).0 == pre[a].0);
                    }
                    lemma_dir_get_characterization(post, participant);
                    assert(post[gi] == (participant, label));
                    assert(spec_dir_get(post, participant) == Some(label@));
                    assert forall|q: u64| q != participant implies spec_dir_get(post, q)
                        == spec_dir_get(pre, q) by {
                        lemma_dir_get_characterization(pre, q);
                        lemma_dir_get_characterization(post, q);
                        assert(forall|a: int|
                            0 <= a < post.len() ==> (#[trigger] post[a]).0 == pre[a].0);
                        match spec_dir_get(pre, q) {
                            Some(v) => {
                                let j = choose|j: int|
                                    0 <= j < pre.len() && (#[trigger] pre[j]).0 == q && pre[j].1@
                                        == v;
                                assert(j != gi);
                                assert(post[j] == pre[j]);
                            },
                            None => {
                                if spec_dir_get(post, q) is Some {
                                    let j = choose|j: int|
                                        0 <= j < post.len() && (#[trigger] post[j]).0 == q;
                                    assert(pre[j].0 == q);
                                }
                            },
                        }
                    }
                }
            },
            None => {
                self.entries.push((participant, label));
                proof {
                    let post = self.entries@;
                    assert(distinct_participants(post)) by {
                        assert(forall|a: int| 0 <= a < pre.len() ==> post[a] == pre[a]);
                    }
                    assert forall|q: u64| q != participant implies spec_dir_get(post, q)
                        == spec_dir_get(pre, q) by {
                        assert(post.drop_last() =~= pre);
                    }
                }
            },
        }
    }

    /// Removes the participant's record; removing an absent record is a no-op.
    pub fn clear_group(&mut self, participant: u64)
        requires
            old(self).wf(),
        ensures
            final(self).wf(),
            spec_dir_get(final(self).contents(), participant) is None,
            forall|q: u64|
                q != participant ==> spec_dir_get(final(self).contents(), q) == spec_dir_get(
                    old(self).contents(),
                    q,
                ),
    {
        let ghost pre = self.entries@;
        match self.find_index(participant) {
            Some(i) => {
                let ghost gi = i as int;
                self.entries.remove(i);
                proof {
                    let post = self.entries@;
                    assert(forall|j: int| 0 <= j < gi ==> post[j] == pre[j]);
                    assert(forall|j: int| gi <= j < post.len() ==> post[j] == pre[j + 1]);
                    assert(distinct_participants(post));
                    lemma_dir_get_characterization(post, participant);
                    assert(forall|j: int|
                        0 <= j < post.len() ==> (#[trigger] post[j]).0 != participant);
                    assert forall|q: u64| q != participant implies spec_dir_get(post, q)
                        == spec_dir_get(pre, q) by {
                        lemma_dir_get_characterization(pre, q);
                        lemma_dir_get_characterization(post, q);
                        match spec_dir_get(pre, q) {
                            Some(v) => {
                                let j = choose|j: int|
                                    0 <= j < pre.len() && (#[trigger] pre[j]).0 == q && pre[j].1@
                                        == v;
                                assert(j != gi);
                                if j < gi {
                                    assert(post[j] == pre[j]);
                                } else {
                                    assert(post[j - 1] == pre[j]);
                                }
                            },
                            None => {
                                if spec_dir_get(post, q) is Some {
                                    let j = choose|j: int|
                                        0 <= j < post.len() && (#[trigger] post[j]).0 == q;
                                    if j < gi {
                                        assert(pre[j].0 == q);
                                    } else {
                                        assert(pre[j + 1].0 == q);
                                    }
                                }
                            },
                        }
                    }
                }
            },
            None => {
                proof {
                    lemma_dir_get_characterization(pre, participant);
                }
            },
        }
    }
}

} // verus!
