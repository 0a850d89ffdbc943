//! Names for new key records: a base name, or the base name with the first
//! number behind it that no record has yet.

use crate::decimal::{
    decimal_chars, decimal_digits, lemma_decimal_digits, lemma_decimal_digits_injective,
};
use crate::registry::{names, KeyRegistry};
use crate::text::{chars_of, extend, string_of};
use vstd::prelude::*;

verus! {

/// The base of the names that the setup gives to program keys.
pub const KEY_NAME_BASE: &'static str = "graffiti";

/// The name under which the demo's state account is stored.
pub const STATE_ACCOUNT_NAME: &'static str = "graffiti_wall_state";

/// The `k`-th name tried: the base itself, then the base with `_1`, `_2` and
/// so on behind it.
pub open spec fn candidate_name(base: Seq<char>, k: nat) -> Seq<char> {
    if k == 0 {
        base
    } else {
        base + seq!['_'] + decimal_digits(k)
    }
}

/// Whether the `k`-th name is free and all the names tried before it are taken.
pub open spec fn is_first_free(taken: Seq<Seq<char>>, base: Seq<char>, k: nat) -> bool {
    &&& !taken.contains(candidate_name(base, k))
    &&& forall|j: nat| j < k ==> taken.contains(#[trigger] candidate_name(base, j))
}

/// The first name tried that is not among `taken`.
pub open spec fn unique_name(taken: Seq<Seq<char>>, base: Seq<char>) -> Seq<char> {
    candidate_name(base, choose|k: nat| is_first_free(taken, base, k))
}

/// Names tried at different turns differ.
pub proof fn lemma_candidates_differ(base: Seq<char>, j: nat, k: nat)
    requires
        j != k,
    ensures
        candidate_name(base, j) != candidate_name(base, k),
{
    let a = candidate_name(base, j);
    let b = candidate_name(base, k);
    lemma_decimal_digits(j);
    lemma_decimal_digits(k);
    if j != 0 && k != 0 {
        if a == b {
            let from = base.len() + 1;
            assert(a.skip(from as int) =~= decimal_digits(j));
            assert(b.skip(from as int) =~= decimal_digits(k));
            lemma_decimal_digits_injective(j, k);
        }
    } else {
        assert(a.len() != b.len());
    }
}

/// Where the first `m` names tried are all taken, at least `m` names are taken.
pub proof fn lemma_taken_names_counted(taken: Seq<Seq<char>>, base: Seq<char>, m: nat)
    requires
        forall|j: nat| j < m ==> taken.contains(#[trigger] candidate_name(base, j)),
    ensures
        m <= taken.len(),
    decreases m,
{
    if m > 0 {
        let last = candidate_name(base, (m - 1) as nat);
        assert(taken.contains(last));
        let at = choose|i: int| 0 <= i < taken.len() && taken[i] == last;
        let rest = taken.remove(at);
        assert forall|j: nat| j < m - 1 implies rest.contains(#[trigger] candidate_name(base, j)) by {
            let name = candidate_name(base, j);
            lemma_candidates_differ(base, j, (m - 1) as nat);
            assert(taken.contains(name));
            let i = choose|i: int| 0 <= i < taken.len() && taken[i] == name;
            if i < at {
                assert(rest[i] == name);
            } else {
                assert(rest[i - 1] == name);
            }
        }
        lemma_taken_names_counted(rest, base, (m - 1) as nat);
    }
}

/// Only one name is the first free one.
pub proof fn lemma_first_free_unique(taken: Seq<Seq<char>>, base: Seq<char>, k: nat)
    requires
        is_first_free(taken, base, k),
    ensures
        unique_name(taken, base) == candidate_name(base, k),
        !taken.contains(unique_name(taken, base)),
{
    let chosen = choose|c: nat| is_first_free(taken, base, c);
    assert(is_first_free(taken, base, chosen));
    if chosen < k {
        assert(taken.contains(candidate_name(base, chosen)));
    } else if k < chosen {
        assert(taken.contains(candidate_name(base, k)));
    }
}

/// Among the names tried from the `k`-th on, one is free, given that those
/// before it are all taken.
proof fn lemma_first_free_exists(taken: Seq<Seq<char>>, base: Seq<char>, k: nat)
    requires
        forall|j: nat| j < k ==> taken.contains(#[trigger] candidate_name(base, j)),
    ensures
        exists|f: nat| is_first_free(taken, base, f),
    decreases taken.len() + 1 - k,
{
    lemma_taken_names_counted(taken, base, k);
    if taken.contains(candidate_name(base, k)) {
        lemma_taken_names_counted(taken, base, k + 1);
        lemma_first_free_exists(taken, base, k + 1);
    } else {
        assert(is_first_free(taken, base, k));
    }
}

/// The name chosen is never one of those taken: it is the first free one of
/// the names tried, and no more names are tried than are taken, and one.
pub proof fn lemma_unique_name_is_free(taken: Seq<Seq<char>>, base: Seq<char>)
    ensures
        !taken.contains(unique_name(taken, base)),
        exists|k: nat|
            k <= taken.len() && is_first_free(taken, base, k) && unique_name(taken, base)
                == candidate_name(base, k),
{
    lemma_first_free_exists(taken, base, 0);
    let k = choose|k: nat| is_first_free(taken, base, k);
    lemma_taken_names_counted(taken, base, k);
}

/// The `k`-th name tried.
fn candidate(base: &Vec<char>, k: usize) -> (name: String)
    ensures
        name@ == candidate_name(base@, k as nat),
{
    let mut out: Vec<char> = Vec::new();
    extend(&mut out, base);
    if k != 0 {
        out.push('_');
        let digits = decimal_chars(k as u64);
        extend(&mut out, &digits);
    }
    string_of(&out)
}

/// A name that no record of `registry` has: `base` where it is free, else
/// `base_1`, `base_2` and so on, the first that is free.
pub fn unique_key_name(registry: &KeyRegistry, base: &str) -> (name: String)
    ensures
        name@ == unique_name(names(registry@), base@),
        !names(registry@).contains(name@),
{
    let base_chars = chars_of(base);
    let stored = registry.len();
    let mut k: usize = 0;
    while k < stored
        invariant
            k <= stored,
            base_chars@ == base@,
            stored == registry@.len(),
            forall|j: nat| j < k ==> names(registry@).contains(#[trigger] candidate_name(base@, j)),
        decreases stored - k,
    {
        let name = candidate(&base_chars, k);
        if !registry.contains_name(name.as_str()) {
            proof {
                lemma_first_free_unique(names(registry@), base@, k as nat);
            }
            return name;
        }
        k += 1;
    }
    // As many names are taken as there are records, so the next one is free.
    let name = candidate(&base_chars, k);
    proof {
        if names(registry@).contains(name@) {
            lemma_taken_names_counted(names(registry@), base@, (k + 1) as nat);
        }
        lemma_first_free_unique(names(registry@), base@, k as nat);
    }
    name
}

/// A name for a new program key that no record of `registry` has:
/// `graffiti`, else `graffiti_1`, `graffiti_2` and so on, the first that is
/// free.
pub fn create_unique_key_name(registry: &KeyRegistry) -> (name: String)
    ensures
        name@ == unique_name(names(registry@), KEY_NAME_BASE@),
        !names(registry@).contains(name@),
{
    unique_key_name(registry, KEY_NAME_BASE)
}

} // verus!
