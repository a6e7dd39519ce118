//! Canonical names derived from a numeric table id: the group label shown on
//! the platform ("Table 7"), the lower-kebab channel name ("table-7"), the
//! label of the teamless role, and the store key of a help request. The
//! derivations are deterministic, so re-deriving them is idempotent, and
//! distinct numeric ids never collide.

use vstd::prelude::*;

use crate::text::{lemma_spec_digits_injective, spec_digits, u64_to_string};

verus! {

/// The label of the group derived from a numeric table id.
pub open spec fn spec_table_label(n: nat) -> Seq<char> {
    "Table "@ + spec_digits(n)
}

/// The platform channel name derived from a numeric table id.
pub open spec fn spec_channel_name(n: nat) -> Seq<char> {
    "table-"@ + spec_digits(n)
}

/// The label of the role that marks a participant as belonging to no group.
pub open spec fn spec_teamless_label() -> Seq<char> {
    "Teamless"@
}

/// The store key under which a help request with the given id is persisted.
pub open spec fn spec_request_key(id: Seq<char>) -> Seq<char> {
    "help_request:"@ + id
}

pub fn table_label(n: u64) -> (r: String)
    ensures
        r@ == spec_table_label(n as nat),
{
    let mut out = String::from_str("Table ");
    proof {
        reveal_strlit("Table ");
    }
    let digits = u64_to_string(n);
    out.append(digits.as_str());
    out
}

pub fn channel_name(n: u64) -> (r: String)
    ensures
        r@ == spec_channel_name(n as nat),
{
    let mut out = String::from_str("table-");
    proof {
        reveal_strlit("table-");
    }
    let digits = u64_to_string(n);
    out.append(digits.as_str());
    out
}

pub fn teamless_label() -> (r: String)
    ensures
        r@ == spec_teamless_label(),
{
    String::from_str("Teamless")
}

pub fn request_key(id: &str) -> (r: String)
    ensures
        r@ == spec_request_key(id@),
{
    let mut out = String::from_str("help_request:");
    proof {
        reveal_strlit("help_request:");
    }
    out.append(id);
    out
}

/// The request id held in a store key: the eight characters after the
/// `help_request:` prefix, or nothing if the key has no such shape.
pub open spec fn spec_key_request_id(key: Seq<char>) -> Option<Seq<char>> {
    if key.len() >= 21 && key.subrange(0, 13) == "help_request:"@ {
        Some(key.subrange(13, 21))
    } else {
        None
    }
}

pub fn key_request_id(key: &str) -> (r: Option<String>)
    ensures
        match r {
            Some(id) => spec_key_request_id(key@) == Some(id@),
            None => spec_key_request_id(key@) is None,
        },
{
    proof {
        reveal_strlit("help_request:");
    }
    if key.unicode_len() < 21 {
        return None;
    }
    if !crate::text::starts_with(key, "help_request:") {
        return None;
    }
    let id = key.substring_char(13, 21);
    Some(id.to_owned())
}

/// Distinct numeric table ids derive distinct labels.
pub proof fn lemma_table_label_injective(a: nat, b: nat)
    requires
        spec_table_label(a) == spec_table_label(b),
    ensures
        a == b,
{
    let la = spec_table_label(a);
    let pre = "Table "@;
    assert(la.subrange(pre.len() as int, la.len() as int) =~= spec_digits(a));
    assert(la.subrange(pre.len() as int, la.len() as int) =~= spec_digits(b));
    lemma_spec_digits_injective(a, b);
}

/// Distinct numeric table ids derive distinct channel names.
pub proof fn lemma_channel_name_injective(a: nat, b: nat)
    requires
        spec_channel_name(a) == spec_channel_name(b),
    ensures
        a == b,
{
    let ca = spec_channel_name(a);
    let pre = "table-"@;
    assert(ca.subrange(pre.len() as int, ca.len() as int) =~= spec_digits(a));
    assert(ca.subrange(pre.len() as int, ca.len() as int) =~= spec_digits(b));
    lemma_spec_digits_injective(a, b);
}

/// No table label is the teamless label.
pub proof fn lemma_table_label_not_teamless(n: nat)
    ensures
        spec_table_label(n) != spec_teamless_label(),
{
    reveal_strlit("Table ");
    reveal_strlit("Teamless");
    assert(spec_table_label(n)[1] == 'a');
    assert(spec_teamless_label()[1] == 'e');
}

} // verus!
