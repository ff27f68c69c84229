//! The protocol classifier: decides whether a transaction carries mining
//! protocol state, for which generation, and through which output.
//!
//! Every output is first tested against the second generation's rule; only
//! when none matches are the outputs tested against the first generation's,
//! so the second generation takes priority whenever both could match. The
//! first output satisfying the winning generation's rule is the candidate;
//! a transaction with no matching output simply yields none.

use vstd::prelude::*;
use crate::chain::{MultiassetData, TxData, TxOutputData};
use crate::constants::{
    spec_v1_address, spec_v1_asset_name, spec_v1_policy, spec_v2_address, spec_v2_asset_prefix,
    spec_v2_policy, tuna_v1_address, tuna_v1_asset_name, tuna_v1_policy, tuna_v2_address,
    tuna_v2_asset_prefix, tuna_v2_policy,
};

verus! {

/// A generation of the on-chain mining protocol. Each generation fixes a
/// receiving address, a policy identifier and an asset-name rule.
#[derive(Clone, Copy, Debug, PartialEq, Eq, Structural)]
pub enum Generation {
    V1,
    V2,
}

/// One transaction output identified as protocol state: the generation whose
/// rule it satisfies and its position in the transaction's output list. The
/// transaction's full input list stays alongside as the candidates for the
/// prior-state redeemer.
#[derive(Clone, Copy, Debug, PartialEq, Eq, Structural)]
pub struct TunaCandidate {
    pub generation: Generation,
    pub output_index: usize,
}

/// The receiving address of a generation's state output.
pub open spec fn spec_generation_address(gen: Generation) -> Seq<u8> {
    match gen {
        Generation::V1 => spec_v1_address(),
        Generation::V2 => spec_v2_address(),
    }
}

/// The multi-asset policy that marks a generation's state.
pub open spec fn spec_generation_policy(gen: Generation) -> Seq<u8> {
    match gen {
        Generation::V1 => spec_v1_policy(),
        Generation::V2 => spec_v2_policy(),
    }
}

/// The asset-name rule: an exact name for the first generation, a fixed
/// 4-byte prefix for the second.
pub open spec fn spec_asset_name_matches(gen: Generation, name: Seq<u8>) -> bool {
    match gen {
        Generation::V1 => name == spec_v1_asset_name(),
        Generation::V2 => name.len() >= spec_v2_asset_prefix().len() && name.take(
            spec_v2_asset_prefix().len() as int,
        ) == spec_v2_asset_prefix(),
    }
}

/// Whether one multi-asset entry marks protocol state of `gen`: the policy is
/// the generation's, and some asset name obeys the generation's name rule.
pub open spec fn spec_multiasset_matches(entry: MultiassetData, gen: Generation) -> bool {
    &&& entry.policy_id@ == spec_generation_policy(gen)
    &&& exists|j: int|
        0 <= j < entry.assets@.len() && spec_asset_name_matches(gen, #[trigger] entry.assets@[j].name@)
}

/// Whether an output satisfies `gen`'s rule: it is received at the
/// generation's address and carries a matching multi-asset entry.
pub open spec fn spec_output_matches(output: TxOutputData, gen: Generation) -> bool {
    &&& output.address@ == spec_generation_address(gen)
    &&& exists|i: int|
        0 <= i < output.assets@.len() && spec_multiasset_matches(#[trigger] output.assets@[i], gen)
}

/// Whether any output of the list satisfies `gen`'s rule.
pub open spec fn spec_has_match(outputs: Seq<TxOutputData>, gen: Generation) -> bool {
    exists|i: int| 0 <= i < outputs.len() && spec_output_matches(#[trigger] outputs[i], gen)
}

/// The position of the first output satisfying `gen`'s rule, or -1 when none
/// does.
pub open spec fn spec_first_match(outputs: Seq<TxOutputData>, gen: Generation) -> int
    decreases outputs.len(),
{
    if outputs.len() == 0 {
        -1
    } else if spec_output_matches(outputs[0], gen) {
        0
    } else {
        let rest = spec_first_match(outputs.drop_first(), gen);
        if rest < 0 {
            -1
        } else {
            rest + 1
        }
    }
}

/// `spec_first_match` finds -1 exactly when no output matches, and otherwise
/// the least matching position.
pub proof fn lemma_first_match(outputs: Seq<TxOutputData>, gen: Generation)
    ensures
        spec_first_match(outputs, gen) == -1 <==> !spec_has_match(outputs, gen),
        spec_has_match(outputs, gen) ==> {
            let i = spec_first_match(outputs, gen);
            &&& 0 <= i < outputs.len()
            &&& spec_output_matches(outputs[i], gen)
            &&& forall|j: int| 0 <= j < i ==> !spec_output_matches(#[trigger] outputs[j], gen)
        },
    decreases outputs.len(),
{
    if outputs.len() == 0 {
        assert(!spec_has_match(outputs, gen));
    } else if spec_output_matches(outputs[0], gen) {
        assert(spec_has_match(outputs, gen));
    } else {
        let rest = outputs.drop_first();
        lemma_first_match(rest, gen);
        assert(forall|k: int| 0 <= k < rest.len() ==> #[trigger] rest[k] == outputs[k + 1]);
        if spec_has_match(outputs, gen) {
            let w = choose|i: int|
                0 <= i < outputs.len() && spec_output_matches(#[trigger] outputs[i], gen);
            assert(w != 0);
            assert(rest[w - 1] == outputs[w]);
            assert(spec_has_match(rest, gen));
        }
        if spec_has_match(rest, gen) {
            let r = spec_first_match(rest, gen);
            assert(outputs[r + 1] == rest[r]);
            assert(spec_output_matches(outputs[r + 1], gen));
            assert(spec_has_match(outputs, gen));
        }
        if spec_has_match(outputs, gen) {
            let i = spec_first_match(outputs, gen);
            let r = spec_first_match(rest, gen);
            assert(i == r + 1);
            assert forall|j: int| 0 <= j < i implies !spec_output_matches(
                #[trigger] outputs[j],
                gen,
            ) by {
                if j > 0 {
                    assert(rest[j - 1] == outputs[j]);
                    assert(!spec_output_matches(rest[j - 1], gen));
                }
            }
        }
    }
}

/// What the classifier returns: the first second-generation output when one
/// exists, else the first first-generation output, else nothing.
pub open spec fn spec_classify(tx: TxData) -> Option<TunaCandidate> {
    if spec_has_match(tx.outputs@, Generation::V2) {
        Some(
            TunaCandidate {
                generation: Generation::V2,
                output_index: spec_first_match(tx.outputs@, Generation::V2) as usize,
            },
        )
    } else if spec_has_match(tx.outputs@, Generation::V1) {
        Some(
            TunaCandidate {
                generation: Generation::V1,
                output_index: spec_first_match(tx.outputs@, Generation::V1) as usize,
            },
        )
    } else {
        None
    }
}

/// Decides whether one asset name obeys `gen`'s name rule.
fn asset_name_matches(gen: Generation, name: &Vec<u8>) -> (r: bool)
    ensures
        r == spec_asset_name_matches(gen, name@),
{
    match gen {
        Generation::V1 => {
            let want = tuna_v1_asset_name();
            crate::bytes_eq(name.as_slice(), want.as_slice())
        },
        Generation::V2 => {
            let prefix = tuna_v2_asset_prefix();
            crate::bytes_start_with(name.as_slice(), prefix.as_slice())
        },
    }
}

/// Decides whether one multi-asset entry marks protocol state of `gen`.
fn multiasset_matches(entry: &MultiassetData, gen: Generation) -> (r: bool)
    ensures
        r == spec_multiasset_matches(*entry, gen),
{
    let policy = match gen {
        Generation::V1 => tuna_v1_policy(),
        Generation::V2 => tuna_v2_policy(),
    };
    if !crate::bytes_eq(entry.policy_id.as_slice(), policy.as_slice()) {
        return false;
    }
    let mut j: usize = 0;
    while j < entry.assets.len()
        invariant
            j <= entry.assets@.len(),
            entry.policy_id@ == spec_generation_policy(gen),
            forall|k: int|
                0 <= k < j ==> !spec_asset_name_matches(gen, #[trigger] entry.assets@[k].name@),
        decreases entry.assets@.len() - j,
    {
        if asset_name_matches(gen, &entry.assets[j].name) {
            return true;
        }
        j = j + 1;
    }
    false
}

/// Decides whether an output satisfies `gen`'s rule.
pub fn output_matches(output: &TxOutputData, gen: Generation) -> (r: bool)
    ensures
        r == spec_output_matches(*output, gen),
{
    let address = match gen {
        Generation::V1 => tuna_v1_address(),
        Generation::V2 => tuna_v2_address(),
    };
    if !crate::bytes_eq(output.address.as_slice(), address.as_slice()) {
        return false;
    }
    let mut i: usize = 0;
    while i < output.assets.len()
        invariant
            i <= output.assets@.len(),
            output.address@ == spec_generation_address(gen),
            forall|k: int|
                0 <= k < i ==> !spec_multiasset_matches(#[trigger] output.assets@[k], gen),
        decreases output.assets@.len() - i,
    {
        if multiasset_matches(&output.assets[i], gen) {
            return true;
        }
        i = i + 1;
    }
    false
}

/// Finds the first output of the list satisfying `gen`'s rule.
fn first_matching_output(outputs: &Vec<TxOutputData>, gen: Generation) -> (r: Option<usize>)
    ensures
        match r {
            Some(i) => i == spec_first_match(outputs@, gen) && i < outputs@.len()
                && spec_output_matches(outputs@[i as int], gen),
            None => !spec_has_match(outputs@, gen),
        },
{
    proof {
        lemma_first_match(outputs@, gen);
    }
    let mut i: usize = 0;
    while i < outputs.len()
        invariant
            i <= outputs@.len(),
            forall|k: int| 0 <= k < i ==> !spec_output_matches(#[trigger] outputs@[k], gen),
        decreases outputs@.len() - i,
    {
        if output_matches(&outputs[i], gen) {
            proof {
                lemma_first_match(outputs@, gen);
                let f = spec_first_match(outputs@, gen);
                assert(spec_output_matches(outputs@[f], gen));
                assert(f == i) by {
                    if f < i {
                        assert(!spec_output_matches(outputs@[f], gen));
                    }
                    if f > i {
                        assert(!spec_output_matches(outputs@[i as int], gen));
                    }
                };
            }
            return Some(i);
        }
        i = i + 1;
    }
    None
}

/// Classifies one transaction: the second generation's rule is tried over
/// every output first, the first generation's only when no output matches it,
/// and the first matching output becomes the candidate.
pub fn classify(tx: &TxData) -> (r: Option<TunaCandidate>)
    ensures
        r == spec_classify(*tx),
        r is Some <==> spec_has_match(tx.outputs@, Generation::V2) || spec_has_match(
            tx.outputs@,
            Generation::V1,
        ),
        r matches Some(c) ==> {
            &&& c.output_index < tx.outputs@.len()
            &&& spec_output_matches(tx.outputs@[c.output_index as int], c.generation)
            &&& forall|j: int|
                0 <= j < c.output_index ==> !spec_output_matches(
                    #[trigger] tx.outputs@[j],
                    c.generation,
                )
            &&& (c.generation == Generation::V2 <==> spec_has_match(tx.outputs@, Generation::V2))
        },
{
    proof {
        lemma_first_match(tx.outputs@, Generation::V2);
        lemma_first_match(tx.outputs@, Generation::V1);
    }
    if let Some(i) = first_matching_output(&tx.outputs, Generation::V2) {
        return Some(TunaCandidate { generation: Generation::V2, output_index: i });
    }
    if let Some(i) = first_matching_output(&tx.outputs, Generation::V1) {
        return Some(TunaCandidate { generation: Generation::V1, output_index: i });
    }
    None
}

/// Classification does not depend on the order of a transaction's outputs:
/// two transactions whose output lists hold the same outputs, in any order,
/// are either both irrelevant or candidates of the same generation.
pub proof fn lemma_classify_order_independent(tx1: TxData, tx2: TxData)
    requires
        tx1.outputs@.to_multiset() == tx2.outputs@.to_multiset(),
    ensures
        (spec_classify(tx1) is Some) == (spec_classify(tx2) is Some),
        spec_classify(tx1) is Some ==> spec_classify(tx1)->Some_0.generation == spec_classify(
            tx2,
        )->Some_0.generation,
{
    lemma_has_match_multiset(tx1.outputs@, tx2.outputs@, Generation::V1);
    lemma_has_match_multiset(tx1.outputs@, tx2.outputs@, Generation::V2);
}

/// Whether some output matches `gen` depends only on which outputs the list
/// holds, not on their order.
proof fn lemma_has_match_multiset(a: Seq<TxOutputData>, b: Seq<TxOutputData>, gen: Generation)
    requires
        a.to_multiset() == b.to_multiset(),
    ensures
        spec_has_match(a, gen) == spec_has_match(b, gen),
{
    broadcast use vstd::seq_lib::to_multiset_contains;

    if spec_has_match(a, gen) {
        let i = choose|i: int| 0 <= i < a.len() && spec_output_matches(#[trigger] a[i], gen);
        assert(a.contains(a[i]));
        assert(a.to_multiset().count(a[i]) > 0);
        assert(b.to_multiset().count(a[i]) > 0);
        assert(b.contains(a[i]));
        let j = choose|j: int| 0 <= j < b.len() && b[j] == a[i];
        assert(spec_output_matches(b[j], gen));
        assert(spec_has_match(b, gen));
    }
    if spec_has_match(b, gen) {
        let i = choose|i: int| 0 <= i < b.len() && spec_output_matches(#[trigger] b[i], gen);
        assert(b.contains(b[i]));
        assert(b.to_multiset().count(b[i]) > 0);
        assert(a.to_multiset().count(b[i]) > 0);
        assert(a.contains(b[i]));
        let j = choose|j: int| 0 <= j < a.len() && a[j] == b[i];
        assert(spec_output_matches(a[j], gen));
        assert(spec_has_match(a, gen));
    }
}

} // verus!
