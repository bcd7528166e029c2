//! Decoding of the counter contract's logs.
//!
//! The contract declares one event, `Incremented(uint256)`. Its parameter is not
//! indexed, so a log of it carries one topic, the hash of the event's signature,
//! and one 32-byte word of data.

use alloy_sol_types::{sol_data, SolType};
use vstd::prelude::*;
use vstd::slice::*;
use vstd::string::StringSliceAdditionalSpecFns;
use crate::primitives::B256;

verus! {

/// The Keccak-256 digest of a byte string.
pub uninterp spec fn keccak256_of(bytes: Seq<u8>) -> Seq<u8>;

/// Calls `alloy_primitives::keccak256`. Not proved: that the digest depends on
/// the bytes alone, which is what naming it `keccak256_of` claims.
#[verifier::external_body]
pub(crate) fn keccak256(bytes: &[u8]) -> (digest: B256)
    ensures
        digest@ == keccak256_of(bytes@),
{
    B256 { bytes: alloy_primitives::keccak256(bytes).0 }
}

/// Calls `abi_decode_sequence` of `alloy_sol_types::SolType` for the tuple of
/// one `uint256`, with validation on. Not proved: that it accepts exactly the
/// data of 32 bytes, and reads them as the number's bytes, the most
/// significant first.
#[verifier::external_body]
fn abi_decode_uint256(data: &[u8]) -> (word: Option<B256>)
    ensures
        word is Some <==> data@.len() == 32,
        word matches Some(w) ==> w@ == data@,
{
    match <(sol_data::Uint<256>,)>::abi_decode_sequence(data, true) {
        Ok((value,)) => Some(B256 { bytes: value.to_be_bytes::<32>() }),
        Err(_) => None,
    }
}

/// An event of the counter contract.
#[derive(Clone, Copy, Debug, PartialEq, Eq)]
pub enum CounterEvent {
    /// The counter was incremented; `count` is the emitted `uint256`, big-endian.
    Incremented { count: B256 },
}

/// What an event states, as plain values.
pub enum EventFact {
    Incremented { count: Seq<u8> },
}

impl View for CounterEvent {
    type V = EventFact;

    open spec fn view(&self) -> EventFact {
        match *self {
            CounterEvent::Incremented { count } => EventFact::Incremented { count: count@ },
        }
    }
}

/// Why a log is not an event of the counter contract.
#[derive(Clone, Copy, Debug, PartialEq, Eq, Structural)]
pub enum DecodeError {
    /// The log has no topic, or its first topic is not the event's selector.
    UnknownEvent,
    /// The data is not exactly one 32-byte word.
    MalformedData,
}

/// The selector of `Incremented(uint256)`: the hash of its signature.
pub open spec fn incremented_selector() -> Seq<u8> {
    keccak256_of("Incremented(uint256)".spec_bytes())
}

/// What a log with these topics and data decodes to, given the event's selector.
pub open spec fn decoded(selector: Seq<u8>, topics: Seq<B256>, data: Seq<u8>) -> Result<
    EventFact,
    DecodeError,
> {
    if topics.len() == 0 || topics[0]@ != selector {
        Err(DecodeError::UnknownEvent)
    } else if data.len() != 32 {
        Err(DecodeError::MalformedData)
    } else {
        Ok(EventFact::Incremented { count: data })
    }
}

/// A decoding result with its event taken as plain values.
pub open spec fn outcome(result: Result<CounterEvent, DecodeError>) -> Result<EventFact, DecodeError> {
    match result {
        Ok(event) => Ok(event@),
        Err(e) => Err(e),
    }
}

/// Decodes a log against a given selector.
pub fn decode_with_selector(selector: &B256, topics: &[B256], data: &[u8]) -> (result: Result<
    CounterEvent,
    DecodeError,
>)
    ensures
        outcome(result) == decoded(selector@, topics@, data@),
{
    if topics.len() == 0 || !topics[0].same_as(selector) {
        return Err(DecodeError::UnknownEvent);
    }
    match abi_decode_uint256(data) {
        Some(count) => Ok(CounterEvent::Incremented { count }),
        None => Err(DecodeError::MalformedData),
    }
}

/// Decodes a log of the counter contract. Malformed and foreign logs are an
/// ordinary outcome, reported as an error value.
pub fn decode(topics: &[B256], data: &[u8]) -> (result: Result<CounterEvent, DecodeError>)
    ensures
        outcome(result) == decoded(incremented_selector(), topics@, data@),
{
    let selector = keccak256("Incremented(uint256)".as_bytes());
    decode_with_selector(&selector, topics, data)
}

/// Decoding is a function of the topics and the data: equal inputs decode alike.
pub proof fn lemma_decode_deterministic(
    topics_a: Seq<B256>,
    data_a: Seq<u8>,
    topics_b: Seq<B256>,
    data_b: Seq<u8>,
)
    requires
        topics_a =~= topics_b,
        data_a =~= data_b,
    ensures
        decoded(incremented_selector(), topics_a, data_a) == decoded(
            incremented_selector(),
            topics_b,
            data_b,
        ),
{
}

} // verus!
