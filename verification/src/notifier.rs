//! The call that relays a state root to the L1 contract, and the settings it
//! is made with.

use vstd::prelude::*;
use crate::hex::{all_hex, big_endian, hex_bytes};
use crate::primitives::{Address, B256};

verus! {

/// The gas allowance of every state-root call.
pub const STATE_ROOT_GAS_LIMIT: u64 = 5_000_000;

/// The order of the secp256k1 curve's group. A signing key is a number below it.
pub open spec fn curve_order() -> nat {
    0xffff_ffff_ffff_ffff_ffff_ffff_ffff_fffe_baae_dce6_af48_a03b_bfd2_5e8c_d036_4141nat
}

/// A blank that may stand between the digits of an L1 address.
pub open spec fn is_blank(c: char) -> bool {
    c == ' ' || c == '\r' || c == '\n' || c == '\t'
}

/// The address that a text spells for the L1: after an optional `0x`, and with
/// blanks left out, exactly 40 hex digits.
pub open spec fn h160_of(text: Seq<char>) -> Option<Seq<u8>> {
    let body = if text.len() >= 2 && text[0] == '0' && text[1] == 'x' {
        text.skip(2)
    } else {
        text
    };
    let digits = body.filter(|c: char| !is_blank(c));
    if digits.len() == 40 && all_hex(digits) {
        Some(hex_bytes(digits))
    } else {
        None
    }
}

/// The signing key that a text spells: exactly 64 hex digits whose number is
/// not zero and lies below the curve's order.
pub open spec fn secret_key_of(text: Seq<char>) -> Option<Seq<u8>> {
    if text.len() == 64 && all_hex(text) && 0 < big_endian(hex_bytes(text)) < curve_order() {
        Some(hex_bytes(text))
    } else {
        None
    }
}

/// Calls `from_str` of `web3::types::Address` (the `H160` of `ethereum-types`).
/// Not proved: that it strips one leading `0x`, skips spaces, tabs, carriage
/// returns and line feeds, and then accepts exactly 40 hex digits of either
/// case, which it reads two to a byte.
#[verifier::external_body]
fn parse_h160(text: &str) -> (parsed: Option<Address>)
    ensures
        parsed is Some <==> h160_of(text@) is Some,
        parsed matches Some(address) ==> h160_of(text@) == Some(address@),
{
    match text.parse::<web3::types::Address>() {
        Ok(address) => Some(Address { bytes: address.0 }),
        Err(_) => None,
    }
}

/// Calls `from_str` of `secp256k1::SecretKey`. Not proved: that it accepts
/// exactly 64 hex digits of either case, without a prefix, and of those the
/// keys that the curve admits: the numbers from 1 to the order less 1.
#[verifier::external_body]
fn parse_secret_key(text: &str) -> (parsed: Option<[u8; 32]>)
    ensures
        parsed is Some <==> secret_key_of(text@) is Some,
        parsed matches Some(bytes) ==> secret_key_of(text@) == Some(bytes@),
{
    match text.parse::<secp256k1::SecretKey>() {
        Ok(key) => Some(key.secret_bytes()),
        Err(_) => None,
    }
}

/// A call of the L1 contract's method `changeStateRoot`, ready to be signed
/// and submitted.
#[derive(Clone, Copy, Debug, PartialEq, Eq)]
pub struct ContractCall {
    pub contract: Address,
    pub state_root: B256,
    pub gas: u64,
}

impl ContractCall {
    /// The name of the contract method that the call invokes.
    pub fn method(&self) -> (name: &'static str)
        ensures
            name@ == "changeStateRoot"@,
    {
        "changeStateRoot"
    }

    /// The argument of the call: the 32 bytes of the state root.
    pub fn argument(&self) -> (bytes: Vec<u8>)
        ensures
            bytes@ == self.state_root@,
    {
        let mut bytes: Vec<u8> = Vec::new();
        let mut i: usize = 0;
        while i < 32
            invariant
                i <= 32,
                bytes@ == self.state_root@.take(i as int),
            decreases 32 - i,
        {
            bytes.push(self.state_root.bytes[i]);
            assert(self.state_root@.take(i + 1) =~= self.state_root@.take(i as int).push(
                self.state_root@[i as int],
            ));
            i += 1;
        }
        assert(self.state_root@.take(32) =~= self.state_root@);
        bytes
    }
}

/// The L1 contract that keeps the state root.
#[derive(Clone, Copy, Debug, PartialEq, Eq)]
pub struct StateRootContract {
    pub address: Address,
}

impl StateRootContract {
    /// The contract at the address that the text holds, if it holds one.
    pub fn new(address: &str) -> (contract: Option<StateRootContract>)
        ensures
            contract is Some <==> h160_of(address@) is Some,
            contract matches Some(c) ==> h160_of(address@) == Some(c.address@),
    {
        match parse_h160(address) {
            Some(address) => Some(StateRootContract { address }),
            None => None,
        }
    }

    /// The call that sets the contract's state root, with the fixed gas
    /// allowance.
    pub fn update_state_root(&self, state_root: B256) -> (call: ContractCall)
        ensures
            call.contract == self.address,
            call.state_root == state_root,
            call.gas == STATE_ROOT_GAS_LIMIT,
    {
        ContractCall { contract: self.address, state_root, gas: STATE_ROOT_GAS_LIMIT }
    }
}

/// The key that signs the calls.
#[derive(Clone, Copy)]
pub struct Credential {
    pub secret: [u8; 32],
}

impl Credential {
    /// The key that the text holds, if it holds a valid one.
    pub fn parse(text: &str) -> (credential: Option<Credential>)
        ensures
            credential is Some <==> secret_key_of(text@) is Some,
            credential matches Some(c) ==> secret_key_of(text@) == Some(c.secret@),
    {
        match parse_secret_key(text) {
            Some(secret) => Some(Credential { secret }),
            None => None,
        }
    }
}

} // verus!
