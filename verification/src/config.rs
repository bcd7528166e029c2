//! The settings of the bridge, resolved from the texts that the environment
//! gives for them.

use vstd::prelude::*;
use crate::hex::{all_hex, hex_bytes};
use crate::notifier::{h160_of, secret_key_of, Credential, StateRootContract};
use crate::primitives::Address;

verus! {

/// A setting that the bridge reads.
#[derive(Clone, Copy, Debug, PartialEq, Eq, Structural)]
pub enum Setting {
    /// The address of the counter contract whose events are extracted.
    CounterContractAddress,
    /// The URL of the L1's RPC endpoint.
    L1RpcAddress,
    /// The address of the L1 contract that keeps the state root.
    StateRootContractAddress,
    /// The private key that signs the state-root calls.
    PrefundedSecret,
}

impl Setting {
    /// The name of the environment variable that holds the setting.
    pub fn name(&self) -> (name: &'static str)
        ensures
            name@ == match *self {
                Setting::CounterContractAddress => "COUNTER_CONTRACT_ADDRESS"@,
                Setting::L1RpcAddress => "L1_RPC_ADDRESS"@,
                Setting::StateRootContractAddress => "STATE_ROOT_CONTRACT_ADDRESS"@,
                Setting::PrefundedSecret => "PREFUNDED_SECRET"@,
            },
    {
        match self {
            Setting::CounterContractAddress => "COUNTER_CONTRACT_ADDRESS",
            Setting::L1RpcAddress => "L1_RPC_ADDRESS",
            Setting::StateRootContractAddress => "STATE_ROOT_CONTRACT_ADDRESS",
            Setting::PrefundedSecret => "PREFUNDED_SECRET",
        }
    }
}

/// Why the settings cannot be resolved.
#[derive(Clone, Copy, Debug, PartialEq, Eq, Structural)]
pub enum ConfigError {
    /// The setting has no value.
    Missing(Setting),
    /// The setting's value cannot be read.
    Malformed(Setting),
}

/// The address that a text spells for the chain that is watched: after an
/// optional `0x` or `0X`, exactly 40 hex digits.
pub open spec fn alloy_address_of(text: Seq<char>) -> Option<Seq<u8>> {
    let digits = if text.len() >= 2 && text[0] == '0' && (text[1] == 'x' || text[1] == 'X') {
        text.skip(2)
    } else {
        text
    };
    if digits.len() == 40 && all_hex(digits) {
        Some(hex_bytes(digits))
    } else {
        None
    }
}

/// Calls `from_str` of `alloy_primitives::Address`. Not proved: that it strips
/// one leading `0x` or `0X` and then accepts exactly 40 hex digits of either
/// case, which it reads two to a byte.
#[verifier::external_body]
fn parse_alloy_address(text: &str) -> (parsed: Option<Address>)
    ensures
        parsed is Some <==> alloy_address_of(text@) is Some,
        parsed matches Some(address) ==> alloy_address_of(text@) == Some(address@),
{
    match text.parse::<alloy_primitives::Address>() {
        Ok(address) => Some(Address { bytes: address.0.0 }),
        Err(_) => None,
    }
}

/// The characters of a setting's value, if it has one.
pub open spec fn text_of(value: Option<&str>) -> Option<Seq<char>> {
    match value {
        Some(text) => Some(text@),
        None => None,
    }
}

/// The address of the counter contract that a value of the setting gives.
pub open spec fn resolved_counter_contract(value: Option<Seq<char>>) -> Result<Seq<u8>, ConfigError> {
    match value {
        None => Err(ConfigError::Missing(Setting::CounterContractAddress)),
        Some(text) => match alloy_address_of(text) {
            None => Err(ConfigError::Malformed(Setting::CounterContractAddress)),
            Some(bytes) => Ok(bytes),
        },
    }
}

/// Resolves the address of the counter contract.
pub fn counter_contract(value: Option<&str>) -> (resolved: Result<Address, ConfigError>)
    ensures
        match resolved {
            Ok(address) => resolved_counter_contract(text_of(value)) == Ok::<
                Seq<u8>,
                ConfigError,
            >(address@),
            Err(e) => resolved_counter_contract(text_of(value)) == Err::<
                Seq<u8>,
                ConfigError,
            >(e),
        },
{
    match value {
        None => Err(ConfigError::Missing(Setting::CounterContractAddress)),
        Some(text) => match parse_alloy_address(text) {
            None => Err(ConfigError::Malformed(Setting::CounterContractAddress)),
            Some(address) => Ok(address),
        },
    }
}

/// What a state-root call is made with: where it goes and who signs it.
pub struct L1Settings {
    pub rpc_url: String,
    pub contract: StateRootContract,
    pub signer: Credential,
}

/// The settings of the L1 as plain values.
pub struct L1Facts {
    pub rpc_url: Seq<char>,
    pub contract: Seq<u8>,
    pub secret: Seq<u8>,
}

impl View for L1Settings {
    type V = L1Facts;

    open spec fn view(&self) -> L1Facts {
        L1Facts {
            rpc_url: self.rpc_url@,
            contract: self.contract.address@,
            secret: self.signer.secret@,
        }
    }
}

/// The L1 settings that the three values give. The first setting that is
/// missing or malformed decides the error: the endpoint, then the contract,
/// then the key.
pub open spec fn resolved_l1(
    rpc: Option<Seq<char>>,
    contract: Option<Seq<char>>,
    secret: Option<Seq<char>>,
) -> Result<L1Facts, ConfigError> {
    if rpc is None {
        Err(ConfigError::Missing(Setting::L1RpcAddress))
    } else if contract is None {
        Err(ConfigError::Missing(Setting::StateRootContractAddress))
    } else if h160_of(contract->0) is None {
        Err(ConfigError::Malformed(Setting::StateRootContractAddress))
    } else if secret is None {
        Err(ConfigError::Missing(Setting::PrefundedSecret))
    } else if secret_key_of(secret->0) is None {
        Err(ConfigError::Malformed(Setting::PrefundedSecret))
    } else {
        Ok(
            L1Facts {
                rpc_url: rpc->0,
                contract: h160_of(contract->0)->0,
                secret: secret_key_of(secret->0)->0,
            },
        )
    }
}

/// Resolves the settings that a state-root call needs.
pub fn l1_settings(rpc: Option<&str>, contract: Option<&str>, secret: Option<&str>) -> (resolved:
    Result<L1Settings, ConfigError>)
    ensures
        match resolved {
            Ok(settings) => resolved_l1(
                text_of(rpc),
                text_of(contract),
                text_of(secret),
            ) == Ok::<L1Facts, ConfigError>(settings@),
            Err(e) => resolved_l1(
                text_of(rpc),
                text_of(contract),
                text_of(secret),
            ) == Err::<L1Facts, ConfigError>(e),
        },
{
    let rpc_url = match rpc {
        None => return Err(ConfigError::Missing(Setting::L1RpcAddress)),
        Some(text) => text.to_owned(),
    };
    let contract = match contract {
        None => return Err(ConfigError::Missing(Setting::StateRootContractAddress)),
        Some(text) => match StateRootContract::new(text) {
            None => return Err(ConfigError::Malformed(Setting::StateRootContractAddress)),
            Some(contract) => contract,
        },
    };
    let signer = match secret {
        None => return Err(ConfigError::Missing(Setting::PrefundedSecret)),
        Some(text) => match Credential::parse(text) {
            None => return Err(ConfigError::Malformed(Setting::PrefundedSecret)),
            Some(signer) => signer,
        },
    };
    Ok(L1Settings { rpc_url, contract, signer })
}

} // verus!
