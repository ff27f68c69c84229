//! The fixed on-chain identity of the mining protocol, one set per
//! generation: the receiving address of the state output, the multi-asset
//! policy that marks it, and the asset-name rule, together with the
//! protocol-era genesis point used when no position has been replicated yet.

use vstd::prelude::*;
use crate::chain::{ChainPoint, ChainPointView};

verus! {

/// The receiving address of the first-generation state output.
pub open spec fn spec_v1_address() -> Seq<u8> {
    seq![
        0x71u8, 0x62, 0x13, 0xbb, 0x18, 0xad, 0x17, 0x31, 0x8f, 0x4a, 0x79, 0xf1, 0x0b, 0x9d,
        0x0a, 0x2b, 0xa8, 0xd0, 0xd6, 0xb2, 0x89, 0x22, 0x86, 0x8e, 0x8e, 0x4d, 0x34, 0x37, 0x66,
    ]
}

/// The multi-asset policy that marks first-generation state.
pub open spec fn spec_v1_policy() -> Seq<u8> {
    seq![
        0x27u8, 0x9f, 0x84, 0x2c, 0x33, 0xee, 0xd9, 0x05, 0x4b, 0x9e, 0x3c, 0x70, 0xcd, 0x6a,
        0x3b, 0x32, 0x29, 0x82, 0x59, 0xc2, 0x4b, 0x78, 0xb8, 0x95, 0xcb, 0x41, 0xd9, 0x1a,
    ]
}

/// The exact asset name of first-generation state: the bytes of "lord tuna".
pub open spec fn spec_v1_asset_name() -> Seq<u8> {
    seq![0x6cu8, 0x6f, 0x72, 0x64, 0x20, 0x74, 0x75, 0x6e, 0x61]
}

/// The receiving address of the second-generation state output.
pub open spec fn spec_v2_address() -> Seq<u8> {
    seq![
        0x71u8, 0xc4, 0x57, 0x21, 0x4b, 0x9c, 0x2b, 0x0d, 0x3f, 0x9a, 0x6e, 0x6f, 0xd2, 0x13,
        0x75, 0x8e, 0xb2, 0x3c, 0x0f, 0x8a, 0xc2, 0x8d, 0x60, 0x5f, 0x17, 0x19, 0x27, 0x0e, 0xf5,
    ]
}

/// The multi-asset policy that marks second-generation state.
pub open spec fn spec_v2_policy() -> Seq<u8> {
    seq![
        0xc9u8, 0x81, 0xad, 0x3e, 0x2f, 0x4b, 0x6e, 0x0a, 0x8e, 0x7c, 0x51, 0xfa, 0xd0, 0x21,
        0x35, 0x72, 0x4c, 0x9f, 0x12, 0x48, 0xd6, 0x53, 0x9e, 0xbb, 0x05, 0x6e, 0x10, 0x3b,
    ]
}

/// The 4-byte prefix of second-generation asset names: the bytes of "TUNA".
pub open spec fn spec_v2_asset_prefix() -> Seq<u8> {
    seq![0x54u8, 0x55, 0x4e, 0x41]
}

/// The slot of the protocol-era genesis point.
pub open spec fn spec_initial_slot() -> u64 {
    65093149
}

/// The block hash of the protocol-era genesis point.
pub open spec fn spec_initial_hash() -> Seq<u8> {
    seq![
        0x43u8, 0xb5, 0x27, 0x1e, 0xdc, 0x6d, 0x9a, 0x7f, 0x12, 0x85, 0x1b, 0x60, 0x3a, 0x9e,
        0x5e, 0xc4, 0x7c, 0xb1, 0x0e, 0xf0, 0x82, 0x4d, 0x3f, 0x91, 0x66, 0x2a, 0x08, 0xd4,
        0xb0, 0x59, 0xc7, 0x35,
    ]
}

/// The receiving address of the first-generation state output.
pub fn tuna_v1_address() -> (r: Vec<u8>)
    ensures
        r@ == spec_v1_address(),
{
    let v: Vec<u8> = vec![
        0x71u8, 0x62, 0x13, 0xbb, 0x18, 0xad, 0x17, 0x31, 0x8f, 0x4a, 0x79, 0xf1, 0x0b, 0x9d,
        0x0a, 0x2b, 0xa8, 0xd0, 0xd6, 0xb2, 0x89, 0x22, 0x86, 0x8e, 0x8e, 0x4d, 0x34, 0x37, 0x66,
    ];
    proof {
        assert(v@ =~= spec_v1_address());
    }
    v
}

/// The multi-asset policy that marks first-generation state.
pub fn tuna_v1_policy() -> (r: Vec<u8>)
    ensures
        r@ == spec_v1_policy(),
{
    let v: Vec<u8> = vec![
        0x27u8, 0x9f, 0x84, 0x2c, 0x33, 0xee, 0xd9, 0x05, 0x4b, 0x9e, 0x3c, 0x70, 0xcd, 0x6a,
        0x3b, 0x32, 0x29, 0x82, 0x59, 0xc2, 0x4b, 0x78, 0xb8, 0x95, 0xcb, 0x41, 0xd9, 0x1a,
    ];
    proof {
        assert(v@ =~= spec_v1_policy());
    }
    v
}

/// The exact asset name of first-generation state: the bytes of "lord tuna".
pub fn tuna_v1_asset_name() -> (r: Vec<u8>)
    ensures
        r@ == spec_v1_asset_name(),
{
    let v: Vec<u8> = vec![0x6cu8, 0x6f, 0x72, 0x64, 0x20, 0x74, 0x75, 0x6e, 0x61];
    proof {
        assert(v@ =~= spec_v1_asset_name());
    }
    v
}

/// The receiving address of the second-generation state output.
pub fn tuna_v2_address() -> (r: Vec<u8>)
    ensures
        r@ == spec_v2_address(),
{
    let v: Vec<u8> = vec![
        0x71u8, 0xc4, 0x57, 0x21, 0x4b, 0x9c, 0x2b, 0x0d, 0x3f, 0x9a, 0x6e, 0x6f, 0xd2, 0x13,
        0x75, 0x8e, 0xb2, 0x3c, 0x0f, 0x8a, 0xc2, 0x8d, 0x60, 0x5f, 0x17, 0x19, 0x27, 0x0e, 0xf5,
    ];
    proof {
        assert(v@ =~= spec_v2_address());
    }
    v
}

/// The multi-asset policy that marks second-generation state.
pub fn tuna_v2_policy() -> (r: Vec<u8>)
    ensures
        r@ == spec_v2_policy(),
{
    let v: Vec<u8> = vec![
        0xc9u8, 0x81, 0xad, 0x3e, 0x2f, 0x4b, 0x6e, 0x0a, 0x8e, 0x7c, 0x51, 0xfa, 0xd0, 0x21,
        0x35, 0x72, 0x4c, 0x9f, 0x12, 0x48, 0xd6, 0x53, 0x9e, 0xbb, 0x05, 0x6e, 0x10, 0x3b,
    ];
    proof {
        assert(v@ =~= spec_v2_policy());
    }
    v
}

/// The 4-byte prefix of second-generation asset names: the bytes of "TUNA".
pub fn tuna_v2_asset_prefix() -> (r: Vec<u8>)
    ensures
        r@ == spec_v2_asset_prefix(),
{
    let v: Vec<u8> = vec![0x54u8, 0x55, 0x4e, 0x41];
    proof {
        assert(v@ =~= spec_v2_asset_prefix());
    }
    v
}

/// The protocol-era genesis point as a mathematical value.
pub open spec fn spec_initial_point() -> ChainPointView {
    ChainPointView { slot: spec_initial_slot(), hash: spec_initial_hash() }
}

/// The protocol-era genesis point: where streaming starts when nothing has
/// been replicated yet.
pub fn initial_point() -> (r: ChainPoint)
    ensures
        r@ == spec_initial_point(),
{
    let hash: Vec<u8> = vec![
        0x43u8, 0xb5, 0x27, 0x1e, 0xdc, 0x6d, 0x9a, 0x7f, 0x12, 0x85, 0x1b, 0x60, 0x3a, 0x9e,
        0x5e, 0xc4, 0x7c, 0xb1, 0x0e, 0xf0, 0x82, 0x4d, 0x3f, 0x91, 0x66, 0x2a, 0x08, 0xd4,
        0xb0, 0x59, 0xc7, 0x35,
    ];
    proof {
        assert(hash@ =~= spec_initial_hash());
    }
    ChainPoint { slot: 65093149, hash }
}

} // verus!
