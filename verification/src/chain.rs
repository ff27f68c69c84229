//! Plain data mirrored out of the transport layer: chain points, transaction
//! inputs and outputs with their asset bundles, and the ordered chain events
//! the replication state machine consumes. The core operates only on these
//! types; the boundary copies them out of whatever the transport delivers.

use vstd::prelude::*;
use crate::value::PlutusValue;

verus! {

/// A position on the canonical chain.
pub struct ChainPoint {
    pub slot: u64,
    pub hash: Vec<u8>,
}

/// The mathematical value of a [`ChainPoint`].
pub struct ChainPointView {
    pub slot: u64,
    pub hash: Seq<u8>,
}

impl View for ChainPoint {
    type V = ChainPointView;

    open spec fn view(&self) -> ChainPointView {
        ChainPointView { slot: self.slot, hash: self.hash@ }
    }
}

impl ChainPoint {
    /// A field-for-field copy of this point.
    pub fn duplicate(&self) -> (r: ChainPoint)
        ensures
            r@ == self@,
    {
        ChainPoint { slot: self.slot, hash: crate::copy_bytes(&self.hash) }
    }
}

/// One asset inside a multi-asset entry; only its name takes part in
/// classification.
pub struct AssetData {
    pub name: Vec<u8>,
}

/// A multi-asset entry of an output: an issuance policy and its assets.
pub struct MultiassetData {
    pub policy_id: Vec<u8>,
    pub assets: Vec<AssetData>,
}

/// Why an authorization payload was attached to an input.
#[derive(Clone, Copy, Debug, PartialEq, Eq, Structural)]
pub enum RedeemerPurpose {
    Spend,
    Mint,
    Cert,
    Reward,
    Other,
}

/// The authorization payload of a spent input: its purpose and its
/// structured-value payload.
pub struct RedeemerData {
    pub purpose: RedeemerPurpose,
    pub payload: PlutusValue,
}

/// A transaction output: receiving address, multi-asset bundle, and the
/// optional structured value attached to it.
pub struct TxOutputData {
    pub address: Vec<u8>,
    pub assets: Vec<MultiassetData>,
    pub datum: Option<PlutusValue>,
}

/// A transaction input: the previously-produced output it consumes, when the
/// transport resolved it, and the optional authorization payload.
pub struct TxInputData {
    pub as_output: Option<TxOutputData>,
    pub redeemer: Option<RedeemerData>,
}

/// One transaction: its hash and its full input and output lists.
pub struct TxData {
    pub hash: Vec<u8>,
    pub inputs: Vec<TxInputData>,
    pub outputs: Vec<TxOutputData>,
}

/// One event of the ordered stream that drives replication: a block applied
/// at the tip, a block undone from the tip, or a realignment to a new
/// intersection point.
pub enum ChainEvent {
    Apply { header: ChainPoint, txs: Vec<TxData> },
    Undo { header: ChainPoint },
    Reset { point: ChainPoint },
}

} // verus!
