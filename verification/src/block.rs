//! The block reconstructor: decodes a candidate output's structured value
//! into a baseline mined-block record, then consults the matching spent
//! input's authorization payload to fill in the nonce and, for the second
//! generation, the miner credential.

use vstd::prelude::*;
use crate::chain::{RedeemerPurpose, TxData, TxInputData};
use crate::classify::{spec_output_matches, output_matches, Generation, TunaCandidate};
use crate::value::{
    spec_field, spec_field_bytes, spec_field_integer, field_bytes, field_integer, DecodeError,
    DecodeReason, PlutusValue,
};

verus! {

/// The constructor discriminant that marks a key-hash miner credential.
pub const KEY_CREDENTIAL_TAG: u64 = 121;

/// The constructor discriminant that marks an asset-based miner credential.
pub const ASSET_CREDENTIAL_TAG: u64 = 122;

/// Who mined a block, as recorded by the second generation: either a payment
/// key hash, or the policy and name of an asset held by the miner.
#[derive(Debug)]
pub enum MinerCredential {
    Payment(Vec<u8>),
    Asset { policy: Vec<u8>, name: Vec<u8> },
}

/// The mathematical value of a [`MinerCredential`].
pub enum MinerCredentialView {
    Payment(Seq<u8>),
    Asset { policy: Seq<u8>, name: Seq<u8> },
}

impl View for MinerCredential {
    type V = MinerCredentialView;

    open spec fn view(&self) -> MinerCredentialView {
        match self {
            MinerCredential::Payment(key) => MinerCredentialView::Payment(key@),
            MinerCredential::Asset { policy, name } => MinerCredentialView::Asset {
                policy: policy@,
                name: name@,
            },
        }
    }
}

/// The reconstructed mined-block record. The first six fields are read
/// verbatim from the candidate output's structured value; the nonce and
/// credential come from the prior-state input's authorization payload when
/// one exists.
#[derive(Debug)]
pub struct TunaBlock {
    pub number: u64,
    pub current_hash: Vec<u8>,
    pub leading_zeros: u64,
    pub target_number: u64,
    pub epoch_time: u64,
    pub current_posix_time: u64,
    pub nonce: Option<Vec<u8>>,
    pub credential: Option<MinerCredential>,
    pub extra_data: Option<Vec<u8>>,
}

/// The mathematical value of a [`TunaBlock`].
pub struct TunaBlockView {
    pub number: u64,
    pub current_hash: Seq<u8>,
    pub leading_zeros: u64,
    pub target_number: u64,
    pub epoch_time: u64,
    pub current_posix_time: u64,
    pub nonce: Option<Seq<u8>>,
    pub credential: Option<MinerCredentialView>,
    pub extra_data: Option<Seq<u8>>,
}

impl View for TunaBlock {
    type V = TunaBlockView;

    open spec fn view(&self) -> TunaBlockView {
        TunaBlockView {
            number: self.number,
            current_hash: self.current_hash@,
            leading_zeros: self.leading_zeros,
            target_number: self.target_number,
            epoch_time: self.epoch_time,
            current_posix_time: self.current_posix_time,
            nonce: match self.nonce {
                Some(ref n) => Some(n@),
                None => None,
            },
            credential: match self.credential {
                Some(ref c) => Some(c@),
                None => None,
            },
            extra_data: match self.extra_data {
                Some(ref d) => Some(d@),
                None => None,
            },
        }
    }
}

/// What decoding an output's structured value as the baseline record
/// returns: a constructor with at least six positional fields holding the
/// block number, current hash, leading-zeros count, target number, epoch
/// time and POSIX time, in that order. An absent value, another kind of
/// node, or any mismatched field rejects the whole record.
pub open spec fn spec_decode_state(datum: Option<PlutusValue>) -> Result<
    TunaBlockView,
    DecodeError,
> {
    match datum {
        None => Err(DecodeError { reason: DecodeReason::MissingDatum, field: 0 }),
        Some(v) => match v {
            PlutusValue::Constr { tag, fields } => match spec_field_integer(fields@, 0) {
                Err(e) => Err(e),
                Ok(number) => match spec_field_bytes(fields@, 1) {
                    Err(e) => Err(e),
                    Ok(current_hash) => match spec_field_integer(fields@, 2) {
                        Err(e) => Err(e),
                        Ok(leading_zeros) => match spec_field_integer(fields@, 3) {
                            Err(e) => Err(e),
                            Ok(target_number) => match spec_field_integer(fields@, 4) {
                                Err(e) => Err(e),
                                Ok(epoch_time) => match spec_field_integer(fields@, 5) {
                                    Err(e) => Err(e),
                                    Ok(current_posix_time) => Ok(
                                        TunaBlockView {
                                            number,
                                            current_hash,
                                            leading_zeros,
                                            target_number,
                                            epoch_time,
                                            current_posix_time,
                                            nonce: None,
                                            credential: None,
                                            extra_data: None,
                                        },
                                    ),
                                },
                            },
                        },
                    },
                },
            },
            _ => Err(DecodeError { reason: DecodeReason::ExpectedConstructor, field: 0 }),
        },
    }
}

/// What decoding a prior-state input's authorization payload returns: the
/// nonce byte string at field 0 and, for the second generation only, the
/// miner credential described by the constructor at field 1, whose
/// discriminant selects a key credential or an asset credential; any other
/// discriminant is an unknown credential shape.
pub open spec fn spec_decode_redeemer(gen: Generation, payload: PlutusValue) -> Result<
    (Seq<u8>, Option<MinerCredentialView>),
    DecodeError,
> {
    match payload {
        PlutusValue::Constr { tag, fields } => match spec_field_bytes(fields@, 0) {
            Err(e) => Err(e),
            Ok(nonce) => match gen {
                Generation::V1 => Ok((nonce, None)),
                Generation::V2 => match spec_field(fields@, 1) {
                    Some(inner) => match inner {
                        PlutusValue::Constr { tag: ctag, fields: cfields } => if ctag
                            == KEY_CREDENTIAL_TAG {
                            match spec_field_bytes(cfields@, 0) {
                                Err(e) => Err(e),
                                Ok(key) => Ok((nonce, Some(MinerCredentialView::Payment(key)))),
                            }
                        } else if ctag == ASSET_CREDENTIAL_TAG {
                            match spec_field_bytes(cfields@, 0) {
                                Err(e) => Err(e),
                                Ok(policy) => match spec_field_bytes(cfields@, 1) {
                                    Err(e) => Err(e),
                                    Ok(name) => Ok(
                                        (nonce, Some(MinerCredentialView::Asset { policy, name })),
                                    ),
                                },
                            }
                        } else {
                            Err(
                                DecodeError {
                                    reason: DecodeReason::UnknownCredentialTag,
                                    field: 1,
                                },
                            )
                        },
                        _ => Err(DecodeError { reason: DecodeReason::ExpectedConstructor, field: 1 }),
                    },
                    None => Err(DecodeError { reason: DecodeReason::MissingField, field: 1 }),
                },
            },
        },
        _ => Err(DecodeError { reason: DecodeReason::ExpectedConstructor, field: 0 }),
    }
}

/// Whether an input is the prior-state input of `gen`: the output it spends
/// satisfies the same generation's classification rule, and it carries an
/// authorization payload attached for spending.
pub open spec fn spec_is_prior_input(input: TxInputData, gen: Generation) -> bool {
    &&& input.as_output matches Some(o) && spec_output_matches(o, gen)
    &&& input.redeemer matches Some(rd) && rd.purpose == RedeemerPurpose::Spend
}

/// The position of the first prior-state input, or -1 when none exists.
pub open spec fn spec_first_prior(inputs: Seq<TxInputData>, gen: Generation) -> int
    decreases inputs.len(),
{
    if inputs.len() == 0 {
        -1
    } else if spec_is_prior_input(inputs[0], gen) {
        0
    } else {
        let rest = spec_first_prior(inputs.drop_first(), gen);
        if rest < 0 {
            -1
        } else {
            rest + 1
        }
    }
}

/// Whether any input of the list is a prior-state input of `gen`.
pub open spec fn spec_has_prior(inputs: Seq<TxInputData>, gen: Generation) -> bool {
    exists|i: int| 0 <= i < inputs.len() && spec_is_prior_input(#[trigger] inputs[i], gen)
}

/// `spec_first_prior` finds -1 exactly when no input qualifies, and
/// otherwise the least qualifying position.
pub proof fn lemma_first_prior(inputs: Seq<TxInputData>, gen: Generation)
    ensures
        spec_first_prior(inputs, gen) == -1 <==> !spec_has_prior(inputs, gen),
        spec_has_prior(inputs, gen) ==> {
            let i = spec_first_prior(inputs, gen);
            &&& 0 <= i < inputs.len()
            &&& spec_is_prior_input(inputs[i], gen)
            &&& forall|j: int| 0 <= j < i ==> !spec_is_prior_input(#[trigger] inputs[j], gen)
        },
    decreases inputs.len(),
{
    if inputs.len() == 0 {
        assert(!spec_has_prior(inputs, gen));
    } else if spec_is_prior_input(inputs[0], gen) {
        assert(spec_has_prior(inputs, gen));
    } else {
        let rest = inputs.drop_first();
        lemma_first_prior(rest, gen);
        assert(forall|k: int| 0 <= k < rest.len() ==> #[trigger] rest[k] == inputs[k + 1]);
        if spec_has_prior(inputs, gen) {
            let w = choose|i: int|
                0 <= i < inputs.len() && spec_is_prior_input(#[trigger] inputs[i], gen);
            assert(w != 0);
            assert(rest[w - 1] == inputs[w]);
            assert(spec_has_prior(rest, gen));
        }
        if spec_has_prior(rest, gen) {
            let r = spec_first_prior(rest, gen);
            assert(inputs[r + 1] == rest[r]);
            assert(spec_is_prior_input(inputs[r + 1], gen));
            assert(spec_has_prior(inputs, gen));
        }
        if spec_has_prior(inputs, gen) {
            let i = spec_first_prior(inputs, gen);
            let r = spec_first_prior(rest, gen);
            assert(i == r + 1);
            assert forall|j: int| 0 <= j < i implies !spec_is_prior_input(
                #[trigger] inputs[j],
                gen,
            ) by {
                if j > 0 {
                    assert(rest[j - 1] == inputs[j]);
                    assert(!spec_is_prior_input(rest[j - 1], gen));
                }
            }
        }
    }
}

/// What reconstructing a classified transaction returns: the baseline record
/// decoded from the candidate output, completed with the nonce and
/// credential of the first prior-state input's payload when such an input
/// exists. Without one the nonce and credential stay absent; any decode
/// failure rejects the whole record.
pub open spec fn spec_reconstruct(tx: TxData, gen: Generation, output_index: int) -> Result<
    TunaBlockView,
    DecodeError,
> {
    match spec_decode_state(tx.outputs@[output_index].datum) {
        Err(e) => Err(e),
        Ok(base) => {
            let p = spec_first_prior(tx.inputs@, gen);
            if p < 0 {
                Ok(base)
            } else {
                match spec_decode_redeemer(gen, tx.inputs@[p].redeemer->Some_0.payload) {
                    Err(e) => Err(e),
                    Ok(filled) => Ok(
                        TunaBlockView {
                            nonce: Some(filled.0),
                            credential: filled.1,
                            ..base
                        },
                    ),
                }
            }
        },
    }
}

/// The mathematical value of an optional credential.
pub open spec fn spec_opt_cred_view(c: Option<MinerCredential>) -> Option<MinerCredentialView> {
    match c {
        Some(cred) => Some(cred@),
        None => None,
    }
}

impl TunaBlock {
    /// Decodes an output's structured value as the baseline record.
    pub fn from_datum(datum: &Option<PlutusValue>) -> (r: Result<TunaBlock, DecodeError>)
        ensures
            match r {
                Ok(b) => spec_decode_state(*datum) == Ok::<TunaBlockView, DecodeError>(b@),
                Err(e) => spec_decode_state(*datum) == Err::<TunaBlockView, DecodeError>(e),
            },
    {
        let fields = match datum {
            None => {
                return Err(DecodeError { reason: DecodeReason::MissingDatum, field: 0 });
            },
            Some(PlutusValue::Constr { tag: _, fields }) => fields,
            Some(_) => {
                return Err(DecodeError { reason: DecodeReason::ExpectedConstructor, field: 0 });
            },
        };
        let number = match field_integer(fields, 0) {
            Ok(n) => n,
            Err(e) => {
                return Err(e);
            },
        };
        let current_hash = match field_bytes(fields, 1) {
            Ok(b) => b,
            Err(e) => {
                return Err(e);
            },
        };
        let leading_zeros = match field_integer(fields, 2) {
            Ok(n) => n,
            Err(e) => {
                return Err(e);
            },
        };
        let target_number = match field_integer(fields, 3) {
            Ok(n) => n,
            Err(e) => {
                return Err(e);
            },
        };
        let epoch_time = match field_integer(fields, 4) {
            Ok(n) => n,
            Err(e) => {
                return Err(e);
            },
        };
        let current_posix_time = match field_integer(fields, 5) {
            Ok(n) => n,
            Err(e) => {
                return Err(e);
            },
        };
        Ok(
            TunaBlock {
                number,
                current_hash,
                leading_zeros,
                target_number,
                epoch_time,
                current_posix_time,
                nonce: None,
                credential: None,
                extra_data: None,
            },
        )
    }
}

/// Decides whether an input is the prior-state input of `gen`.
fn input_is_prior(input: &TxInputData, gen: Generation) -> (r: bool)
    ensures
        r == spec_is_prior_input(*input, gen),
{
    let spends = match &input.redeemer {
        Some(rd) => rd.purpose == RedeemerPurpose::Spend,
        None => false,
    };
    if !spends {
        return false;
    }
    match &input.as_output {
        Some(o) => output_matches(o, gen),
        None => false,
    }
}

/// Finds the first prior-state input of `gen` in the list.
fn first_prior_input(inputs: &Vec<TxInputData>, gen: Generation) -> (r: Option<usize>)
    ensures
        match r {
            Some(i) => i == spec_first_prior(inputs@, gen) && i < inputs@.len()
                && spec_is_prior_input(inputs@[i as int], gen),
            None => !spec_has_prior(inputs@, gen) && spec_first_prior(inputs@, gen) == -1,
        },
{
    proof {
        lemma_first_prior(inputs@, gen);
    }
    let mut i: usize = 0;
    while i < inputs.len()
        invariant
            i <= inputs@.len(),
            forall|k: int| 0 <= k < i ==> !spec_is_prior_input(#[trigger] inputs@[k], gen),
        decreases inputs@.len() - i,
    {
        if input_is_prior(&inputs[i], gen) {
            proof {
                lemma_first_prior(inputs@, gen);
                let f = spec_first_prior(inputs@, gen);
                assert(f == i) by {
                    if f < i {
                        assert(!spec_is_prior_input(inputs@[f], gen));
                    }
                    if f > i {
                        assert(!spec_is_prior_input(inputs@[i as int], gen));
                    }
                };
            }
            return Some(i);
        }
        i = i + 1;
    }
    None
}

/// Decodes a prior-state input's authorization payload into the nonce and,
/// for the second generation, the miner credential.
fn decode_redeemer(gen: Generation, payload: &PlutusValue) -> (r: Result<
    (Vec<u8>, Option<MinerCredential>),
    DecodeError,
>)
    ensures
        match r {
            Ok(p) => spec_decode_redeemer(gen, *payload) == Ok::<
                (Seq<u8>, Option<MinerCredentialView>),
                DecodeError,
            >((p.0@, spec_opt_cred_view(p.1))),
            Err(e) => spec_decode_redeemer(gen, *payload) == Err::<
                (Seq<u8>, Option<MinerCredentialView>),
                DecodeError,
            >(e),
        },
{
    let fields = match payload {
        PlutusValue::Constr { tag: _, fields } => fields,
        _ => {
            return Err(DecodeError { reason: DecodeReason::ExpectedConstructor, field: 0 });
        },
    };
    let nonce = match field_bytes(fields, 0) {
        Ok(b) => b,
        Err(e) => {
            return Err(e);
        },
    };
    match gen {
        Generation::V1 => Ok((nonce, None)),
        Generation::V2 => {
            if fields.len() <= 1 {
                return Err(DecodeError { reason: DecodeReason::MissingField, field: 1 });
            }
            let cfields = match &fields[1] {
                Some(PlutusValue::Constr { tag, fields: cfields }) => {
                    if *tag == KEY_CREDENTIAL_TAG {
                        let key = match field_bytes(cfields, 0) {
                            Ok(b) => b,
                            Err(e) => {
                                return Err(e);
                            },
                        };
                        return Ok((nonce, Some(MinerCredential::Payment(key))));
                    }
                    if *tag == ASSET_CREDENTIAL_TAG {
                        let policy = match field_bytes(cfields, 0) {
                            Ok(b) => b,
                            Err(e) => {
                                return Err(e);
                            },
                        };
                        let name = match field_bytes(cfields, 1) {
                            Ok(b) => b,
                            Err(e) => {
                                return Err(e);
                            },
                        };
                        return Ok((nonce, Some(MinerCredential::Asset { policy, name })));
                    }
                    return Err(
                        DecodeError { reason: DecodeReason::UnknownCredentialTag, field: 1 },
                    );
                },
                Some(_) => {
                    return Err(
                        DecodeError { reason: DecodeReason::ExpectedConstructor, field: 1 },
                    );
                },
                None => {
                    return Err(DecodeError { reason: DecodeReason::MissingField, field: 1 });
                },
            };
        },
    }
}

/// Reconstructs the finalized record of a classified transaction: decodes
/// the candidate output's structured value, then merges in the nonce and
/// credential from the first prior-state input when one exists. Without a
/// prior-state input the nonce and credential stay absent.
pub fn reconstruct(tx: &TxData, candidate: &TunaCandidate) -> (r: Result<TunaBlock, DecodeError>)
    requires
        candidate.output_index < tx.outputs@.len(),
    ensures
        match r {
            Ok(b) => spec_reconstruct(*tx, candidate.generation, candidate.output_index as int)
                == Ok::<TunaBlockView, DecodeError>(b@),
            Err(e) => spec_reconstruct(*tx, candidate.generation, candidate.output_index as int)
                == Err::<TunaBlockView, DecodeError>(e),
        },
        r matches Ok(b) ==> (!spec_has_prior(tx.inputs@, candidate.generation) ==> b@.nonce is None
            && b@.credential is None),
{
    proof {
        lemma_first_prior(tx.inputs@, candidate.generation);
    }
    let output = &tx.outputs[candidate.output_index];
    let mut base = match TunaBlock::from_datum(&output.datum) {
        Ok(b) => b,
        Err(e) => {
            return Err(e);
        },
    };
    match first_prior_input(&tx.inputs, candidate.generation) {
        None => Ok(base),
        Some(p) => {
            let redeemer = match &tx.inputs[p].redeemer {
                Some(rd) => rd,
                None => {
                    proof {
                        assert(spec_is_prior_input(tx.inputs@[p as int], candidate.generation));
                        assert(false);
                    }
                    return Ok(base);
                },
            };
            match decode_redeemer(candidate.generation, &redeemer.payload) {
                Err(e) => Err(e),
                Ok((nonce, credential)) => {
                    base.nonce = Some(nonce);
                    base.credential = credential;
                    Ok(base)
                },
            }
        },
    }
}

/// A prior-state input whose payload carries a nonce at field 0 and a
/// key-credential constructor at field 1 completes the record with exactly
/// that nonce and that payment credential.
pub proof fn lemma_reconstruct_prior_key_credential(
    tx: TxData,
    output_index: int,
    nonce_bytes: Seq<u8>,
    key_bytes: Seq<u8>,
)
    requires
        0 <= output_index < tx.outputs@.len(),
        spec_decode_state(tx.outputs@[output_index].datum) is Ok,
        spec_has_prior(tx.inputs@, Generation::V2),
        ({
            let p = spec_first_prior(tx.inputs@, Generation::V2);
            &&& tx.inputs@[p].redeemer->Some_0.payload matches PlutusValue::Constr { tag, fields }
            &&& spec_field_bytes(
                tx.inputs@[p].redeemer->Some_0.payload->Constr_fields@,
                0,
            ) == Ok::<Seq<u8>, DecodeError>(nonce_bytes)
            &&& spec_field(tx.inputs@[p].redeemer->Some_0.payload->Constr_fields@, 1) matches Some(
                inner,
            )
            &&& inner matches PlutusValue::Constr { tag: ctag, fields: cfields }
            &&& ctag == KEY_CREDENTIAL_TAG
            &&& spec_field_bytes(inner->Constr_fields@, 0) == Ok::<Seq<u8>, DecodeError>(key_bytes)
        }),
    ensures
        spec_reconstruct(tx, Generation::V2, output_index) matches Ok(b) && b.nonce == Some(
            nonce_bytes,
        ) && b.credential == Some(MinerCredentialView::Payment(key_bytes)),
{
    lemma_first_prior(tx.inputs@, Generation::V2);
}

} // verus!
