//! The help-request queue: a persistent, identifier-keyed store of raw
//! records. Entries are kept as the store holds them — raw text fields under
//! an id — so a legacy or corrupt record can sit in the queue; enumeration
//! decodes each record and silently skips what does not decode. Ids are
//! distinct, as keys of a store are.

use vstd::prelude::*;

use crate::clock::now_millis;
use crate::errors::DecodeError;
use crate::records::{
    decode_record, encode_record, spec_decode_fields, spec_encode_fields, HelpRequest,
};
use crate::rng::{is_alnum_char, random_string};
use crate::text::str_eq;

verus! {

/// The raw fields stored under an id, or nothing.
pub open spec fn spec_get(s: Seq<(String, Vec<String>)>, id: Seq<char>) -> Option<Seq<Seq<char>>>
    decreases s.len(),
{
    if s.len() == 0 {
        None
    } else if s.last().0@ == id {
        Some(s.last().1.deep_view())
    } else {
        spec_get(s.drop_last(), id)
    }
}

/// Store keys are distinct.
pub open spec fn distinct_ids(s: Seq<(String, Vec<String>)>) -> bool {
    forall|i: int, j: int|
        0 <= i < j < s.len() ==> (#[trigger] s[i]).0@ != (#[trigger] s[j]).0@
}

/// With distinct ids, `spec_get` answers exactly by the entry that carries
/// the id, if any.
pub proof fn lemma_get_characterization(s: Seq<(String, Vec<String>)>, id: Seq<char>)
    requires
        distinct_ids(s),
    ensures
        match spec_get(s, id) {
            Some(v) => exists|i: int|
                0 <= i < s.len() && (#[trigger] s[i]).0@ == id && s[i].1.deep_view() == v,
            None => forall|i: int| 0 <= i < s.len() ==> (#[trigger] s[i]).0@ != id,
        },
        forall|i: int|
            0 <= i < s.len() && (#[trigger] s[i]).0@ == id ==> spec_get(s, id) == Some(
                s[i].1.deep_view(),
            ),
    decreases s.len(),
{
    if s.len() > 0 {
        assert(distinct_ids(s.drop_last())) by {
            assert(forall|i: int, j: int|
                0 <= i < j < s.drop_last().len() ==> s.drop_last()[i] == s[i]
                    && s.drop_last()[j] == s[j]);
        }
        lemma_get_characterization(s.drop_last(), id);
        if s.last().0@ == id {
            assert(forall|i: int|
                0 <= i < s.len() - 1 ==> (#[trigger] s[i]).0@ != id) by {
                assert(forall|i: int|
                    0 <= i < s.len() - 1 ==> (#[trigger] s[i]).0@ != s[s.len() - 1].0@);
            }
        } else {
            assert(forall|i: int|
                0 <= i < s.len() - 1 ==> s.drop_last()[i] == s[i]);
        }
    }
}

/// A list of decoded requests is sound for a store when every listed entry
/// sits in the store under its id and decodes to the listed request.
pub open spec fn listing_sound(
    entries: Seq<(String, Vec<String>)>,
    out: Seq<(String, HelpRequest)>,
) -> bool {
    forall|k: int|
        0 <= k < out.len() ==> exists|i: int|
            0 <= i < entries.len() && (#[trigger] out[k]).0@ == (#[trigger] entries[i]).0@
                && spec_decode_fields(entries[i].1.deep_view()) == Some(out[k].1@)
}

/// A list of decoded requests is complete for a store when every store entry
/// that decodes is listed under its id.
pub open spec fn listing_complete(
    entries: Seq<(String, Vec<String>)>,
    out: Seq<(String, HelpRequest)>,
) -> bool {
    forall|i: int|
        0 <= i < entries.len() ==> match spec_decode_fields(
            (#[trigger] entries[i]).1.deep_view(),
        ) {
            Some(m) => exists|k: int|
                0 <= k < out.len() && (#[trigger] out[k]).0@ == entries[i].0@ && out[k].1@ == m,
            None => true,
        }
}

/// The queue of help requests, as the store persists it.
pub struct RequestQueue {
    pub entries: Vec<(String, Vec<String>)>,
}

impl RequestQueue {
    /// The stored entries, raw.
    pub open spec fn contents(&self) -> Seq<(String, Vec<String>)> {
        self.entries@
    }

    pub open spec fn wf(&self) -> bool {
        distinct_ids(self.entries@)
    }

    /// An empty queue.
    pub fn new() -> (r: Self)
        ensures
            r.wf(),
            r.contents().len() == 0,
            forall|id: Seq<char>| spec_get(r.contents(), id) is None,
    {
        RequestQueue { entries: Vec::new() }
    }

    fn find_index(&self, id: &str) -> (r: Option<usize>)
        ensures
            match r {
                Some(i) => i < self.entries@.len() && self.entries@[i as int].0@ == id@,
                None => forall|i: int|
                    0 <= i < self.entries@.len() ==> (#[trigger] self.entries@[i]).0@ != id@,
            },
    {
        let n = self.entries.len();
        let mut i: usize = 0;
        while i < n
            invariant
                0 <= i <= n,
                n == self.entries@.len(),
                forall|k: int| 0 <= k < i ==> (#[trigger] self.entries@[k]).0@ != id@,
            decreases n - i,
        {
            if str_eq(self.entries[i].0.as_str(), id) {
                return Some(i);
            }
            i = i + 1;
        }
        None
    }

    /// Stores raw fields under an id, replacing whatever the id held. This is
    /// the shape in which records arrive from outside the queue's control, so
    /// nothing is asked of the fields.
    pub fn insert_raw(&mut self, id: String, fields: Vec<String>)
        requires
            old(self).wf(),
        ensures
            final(self).wf(),
            spec_get(final(self).contents(), id@) == Some(fields.deep_view()),
            forall|k: Seq<char>|
                k != id@ ==> spec_get(final(self).contents(), k) == spec_get(
                    old(self).contents(),
                    k,
                ),
    {
        let ghost pre = self.entries@;
        match self.find_index(id.as_str()) {
            Some(i) => {
                let ghost gi = i as int;
                self.entries.set(i, (id, fields));
                proof {
                    let post = self.entries@;
                    assert(forall|j: int| 0 <= j < post.len() && j != gi ==> post[j] == pre[j]);
                    assert(post[gi].0@ == pre[gi].0@);
                    assert(distinct_ids(post)) by {
                        assert(forall|a: int|
                            0 <= a < post.len() ==> (#[trigger] post[a]).0@ == pre[a].0@);
                    }
                    lemma_get_characterization(post, id@);
                    assert(spec_get(post, id@) == Some(fields.deep_view()));
                    assert forall|k: Seq<char>| k != id@ implies spec_get(post, k) == spec_get(
                        pre,
                        k,
                    ) by {
                        lemma_get_characterization(pre, k);
                        lemma_get_characterization(post, k);
                        assert(forall|a: int|
                            0 <= a < post.len() ==> (#[trigger] post[a]).0@ == pre[a].0@);
                        match spec_get(pre, k) {
                            Some(v) => {
                                let j = choose|j: int|
                                    0 <= j < pre.len() && (#[trigger] pre[j]).0@ == k
                                        && pre[j].1.deep_view() == v;
                                assert(j != gi);
                                assert(post[j] == pre[j]);
                                assert(spec_get(post, k) == Some(post[j].1.deep_view()));
                            },
                            None => {
                                if spec_get(post, k) is Some {
                                    let j = choose|j: int|
                                        0 <= j < post.len() && (#[trigger] post[j]).0@ == k;
                                    assert(pre[j].0@ == k);
                                }
                            },
                        }
                    }
                }
            },
            None => {
                self.entries.push((id, fields));
                proof {
                    let post = self.entries@;
                    assert(post.last() == (id, fields));
                    assert(distinct_ids(post)) by {
                        assert(forall|a: int| 0 <= a < pre.len() ==> post[a] == pre[a]);
                    }
                    assert(spec_get(post, id@) == Some(fields.deep_view()));
                    assert forall|k: Seq<char>| k != id@ implies spec_get(post, k) == spec_get(
                        pre,
                        k,
                    ) by {
                        assert(post.drop_last() =~= pre);
                    }
                }
            },
        }
    }

    /// The raw fields stored under an id.
    pub fn get_fields(&self, id: &str) -> (r: Option<&Vec<String>>)
        requires
            self.wf(),
        ensures
            match r {
                Some(fields) => spec_get(self.contents(), id@) == Some(fields.deep_view()),
                None => spec_get(self.contents(), id@) is None,
            },
    {
        proof {
            lemma_get_characterization(self.entries@, id@);
        }
        match self.find_index(id) {
            Some(i) => Some(&self.entries[i].1),
            None => None,
        }
    }

    /// Deletes the record under an id. Deleting an absent id is a no-op, not
    /// an error, so a completion may be re-issued freely.
    pub fn complete(&mut self, id: &str)
        requires
            old(self).wf(),
        ensures
            final(self).wf(),
            spec_get(final(self).contents(), id@) is None,
            forall|k: Seq<char>|
                k != id@ ==> spec_get(final(self).contents(), k) == spec_get(
                    old(self).contents(),
                    k,
                ),
    {
        let ghost pre = self.entries@;
        match self.find_index(id) {
            Some(i) => {
                let ghost gi = i as int;
                self.entries.remove(i);
                proof {
                    let post = self.entries@;
                    assert(forall|j: int| 0 <= j < gi ==> post[j] == pre[j]);
                    assert(forall|j: int| gi <= j < post.len() ==> post[j] == pre[j + 1]);
                    assert(distinct_ids(post));
                    lemma_get_characterization(pre, id@);
                    lemma_get_characterization(post, id@);
                    assert(forall|j: int|
                        0 <= j < post.len() ==> (#[trigger] post[j]).0@ != id@);
                    assert forall|k: Seq<char>| k != id@ implies spec_get(post, k) == spec_get(
                        pre,
                        k,
                    ) by {
                        lemma_get_characterization(pre, k);
                        lemma_get_characterization(post, k);
                        match spec_get(pre, k) {
                            Some(v) => {
                                let j = choose|j: int|
                                    0 <= j < pre.len() && (#[trigger] pre[j]).0@ == k
                                        && pre[j].1.deep_view() == v;
                                assert(j != gi);
                                if j < gi {
                                    assert(post[j] == pre[j]);
                                } else {
                                    assert(post[j - 1] == pre[j]);
                                }
                            },
                            None => {
                                if spec_get(post, k) is Some {
                                    let j = choose|j: int|
                                        0 <= j < post.len() && (#[trigger] post[j]).0@ == k;
                                    if j < gi {
                                        assert(pre[j].0@ == k);
                                    } else {
                                        assert(pre[j + 1].0@ == k);
                                    }
                                }
                            },
                        }
                    }
                }
            },
            None => {
                proof {
                    lemma_get_characterization(pre, id@);
                }
            },
        }
    }

    /// Stores a new request under the given id with the given creation time.
    pub fn enqueue_with(
        &mut self,
        id: String,
        description: String,
        link: String,
        attribution: String,
        timestamp: i64,
    )
        requires
            old(self).wf(),
        ensures
            final(self).wf(),
            spec_get(final(self).contents(), id@) == Some(
                spec_encode_fields(description@, link@, attribution@, timestamp as int),
            ),
            forall|k: Seq<char>|
                k != id@ ==> spec_get(final(self).contents(), k) == spec_get(
                    old(self).contents(),
                    k,
                ),
    {
        let request = HelpRequest { description, link, attribution, timestamp };
        let fields = encode_record(&request);
        self.insert_raw(id, fields);
    }

    /// Stores a new request under a fresh random eight-character alphanumeric
    /// id with the given creation time, and returns the id.
    pub fn add_help_request(
        &mut self,
        description: String,
        link: String,
        attribution: String,
        timestamp: i64,
    ) -> (id: String)
        requires
            old(self).wf(),
        ensures
            final(self).wf(),
            id@.len() == 8,
            forall|i: int| 0 <= i < id@.len() ==> is_alnum_char(#[trigger] id@[i]),
            spec_get(final(self).contents(), id@) == Some(
                spec_encode_fields(description@, link@, attribution@, timestamp as int),
            ),
            forall|k: Seq<char>|
                k != id@ ==> spec_get(final(self).contents(), k) == spec_get(
                    old(self).contents(),
                    k,
                ),
    {
        let id = random_string(8);
        self.enqueue_with(id.clone(), description, link, attribution, timestamp);
        id
    }

    /// Stores a new request under a fresh random eight-character alphanumeric
    /// id, stamped with the clock's idea of now — a non-negative millisecond
    /// count — and returns the id.
    pub fn enqueue(&mut self, description: String, link: String, attribution: String) -> (id:
        String)
        requires
            old(self).wf(),
        ensures
            final(self).wf(),
            id@.len() == 8,
            forall|i: int| 0 <= i < id@.len() ==> is_alnum_char(#[trigger] id@[i]),
            exists|ts: i64|
                ts >= 0 && spec_get(final(self).contents(), id@) == Some(
                    spec_encode_fields(description@, link@, attribution@, ts as int),
                ),
            forall|k: Seq<char>|
                k != id@ ==> spec_get(final(self).contents(), k) == spec_get(
                    old(self).contents(),
                    k,
                ),
    {
        let timestamp = now_millis();
        self.add_help_request(description, link, attribution, timestamp)
    }

    /// The record stored under an id, decoded: nothing if the id is absent,
    /// else the decoded request, or the failure if the record is unusable.
    pub fn get_help_request(&self, id: &str) -> (r: Option<Result<HelpRequest, DecodeError>>)
        requires
            self.wf(),
        ensures
            match r {
                None => spec_get(self.contents(), id@) is None,
                Some(d) => spec_get(self.contents(), id@) is Some && match d {
                    Ok(request) => spec_decode_fields(spec_get(self.contents(), id@)->Some_0)
                        == Some(request@) && request.wf(),
                    Err(_) => spec_decode_fields(spec_get(self.contents(), id@)->Some_0) is None,
                },
            },
    {
        match self.get_fields(id) {
            Some(fields) => Some(decode_record(fields)),
            None => None,
        }
    }

    /// Decodes every record that decodes, in store order, and skips the rest:
    /// a malformed or zero-stamped record is omitted, never an error. Each
    /// pending request appears once, under its id.
    #[verifier::rlimit(50)]
    pub fn list_pending(&self) -> (r: Vec<(String, HelpRequest)>)
        requires
            self.wf(),
        ensures
            listing_sound(self.contents(), r@),
            listing_complete(self.contents(), r@),
            forall|k: int| 0 <= k < r@.len() ==> (#[trigger] r@[k]).1.wf(),
            forall|k1: int, k2: int|
                0 <= k1 < k2 < r@.len() ==> (#[trigger] r@[k1]).0@ != (#[trigger] r@[k2]).0@,
    {
        let n = self.entries.len();
        let mut out: Vec<(String, HelpRequest)> = Vec::new();
        let mut i: usize = 0;
        while i < n
            invariant
                0 <= i <= n,
                n == self.entries@.len(),
                distinct_ids(self.entries@),
                listing_sound(self.entries@, out@),
                forall|k: int|
                    0 <= k < out@.len() ==> exists|j: int|
                        0 <= j < i && (#[trigger] out@[k]).0@ == (#[trigger] self.entries@[j]).0@,
                forall|j: int|
                    0 <= j < i ==> match spec_decode_fields(
                        (#[trigger] self.entries@[j]).1.deep_view(),
                    ) {
                        Some(m) => exists|k: int|
                            0 <= k < out@.len() && (#[trigger] out@[k]).0@ == self.entries@[j].0@
                                && out@[k].1@ == m,
                        None => true,
                    },
                forall|k: int| 0 <= k < out@.len() ==> (#[trigger] out@[k]).1.wf(),
                forall|k1: int, k2: int|
                    0 <= k1 < k2 < out@.len() ==> (#[trigger] out@[k1]).0@ != (
                    #[trigger] out@[k2]).0@,
            decreases n - i,
        {
            let ghost pre_out = out@;
            match decode_record(&self.entries[i].1) {
                Ok(request) => {
                    out.push((self.entries[i].0.clone(), request));
                    proof {
                        assert(forall|k: int|
                            0 <= k < pre_out.len() ==> out@[k] == pre_out[k]);
                        assert(out@.last().0@ == self.entries@[i as int].0@);
                        assert forall|k1: int, k2: int|
                            0 <= k1 < k2 < out@.len() implies (#[trigger] out@[k1]).0@ != (
                        #[trigger] out@[k2]).0@ by {
                            if k2 == out@.len() - 1 {
                                let j = choose|j: int|
                                    0 <= j < i && (#[trigger] out@[k1]).0@ == (
                                    #[trigger] self.entries@[j]).0@;
                                assert(self.entries@[j].0@ != self.entries@[i as int].0@);
                            }
                        }
                    }
                },
                Err(_) => {},
            }
            i = i + 1;
        }
        out
    }
}

} // verus!
