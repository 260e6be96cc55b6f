//! TON addresses, and the wallet that pays claims out.

use std::str::FromStr;
use tonlib_core::cell::TonCellError;
use tonlib_core::wallet::error::MnemonicError;
use tonlib_core::wallet::mnemonic::Mnemonic;
use tonlib_core::wallet::ton_wallet::TonWallet;
use tonlib_core::{TonAddress, TonAddressParseError};
use vstd::prelude::*;

verus! {

#[verifier::external_type_specification]
#[verifier::external_body]
pub struct ExTonAddressParseError(TonAddressParseError);

#[verifier::external_type_specification]
#[verifier::external_body]
pub struct ExTonCellError(TonCellError);

#[verifier::external_type_specification]
#[verifier::external_body]
pub struct ExMnemonicError(MnemonicError);

// ---------------------------------------------------------------------------
// Addresses
// ---------------------------------------------------------------------------

/// The address of an account.
#[derive(Clone, Copy, Debug)]
pub struct Address {
    pub workchain: i32,
    pub hash: [u8; 32],
}

/// What an [`Address`] stands for.
#[verifier::ext_equal]
pub struct AddressView {
    pub workchain: i32,
    pub hash: Seq<u8>,
}

impl Address {
    pub open spec fn view(&self) -> AddressView {
        AddressView { workchain: self.workchain, hash: self.hash@ }
    }
}

/// The address that `TonAddress::from_str` reads from a text; `None` where it
/// refuses the text.
pub uninterp spec fn address_of_text(text: Seq<char>) -> Option<AddressView>;

/// The text that `TonAddress::to_base64_url` writes for an address.
pub uninterp spec fn text_of_address(address: AddressView) -> Seq<char>;

/// Calls `TonAddress::from_str`. Claimed of it: whether the text is an address,
/// and which, depends on the text alone.
#[verifier::external_body]
pub(crate) fn parse_address(text: &str) -> (r: Result<Address, TonAddressParseError>)
    ensures
        match r {
            Ok(address) => address_of_text(text@) == Some(address@),
            Err(_) => address_of_text(text@) is None,
        },
{
    let address = TonAddress::from_str(text)?;
    Ok(Address { workchain: address.workchain, hash: address.hash_part.into() })
}

/// Calls `TonAddress::to_base64_url`. Claimed of it: the text depends on the
/// address alone.
#[verifier::external_body]
fn address_text(address: &Address) -> (r: String)
    ensures
        r@ == text_of_address(address@),
{
    TonAddress::new(address.workchain, address.hash.into()).to_base64_url()
}

impl Address {
    /// The address in its user-friendly form.
    pub fn to_base64_url(&self) -> (r: String)
        ensures
            r@ == text_of_address(self@),
    {
        address_text(self)
    }
}

// ---------------------------------------------------------------------------
// Keys
// ---------------------------------------------------------------------------

/// A key pair for signing.
#[derive(Clone)]
pub struct KeyPair {
    pub public_key: Vec<u8>,
    pub secret_key: Vec<u8>,
}

/// What a [`KeyPair`] stands for.
#[verifier::ext_equal]
pub struct KeyPairView {
    pub public_key: Seq<u8>,
    pub secret_key: Seq<u8>,
}

impl KeyPair {
    pub open spec fn view(&self) -> KeyPairView {
        KeyPairView { public_key: self.public_key@, secret_key: self.secret_key@ }
    }
}

/// A password, where there is one.
pub open spec fn password_view(password: Option<String>) -> Option<Seq<char>> {
    match password {
        Some(s) => Some(s@),
        None => None,
    }
}

/// The key pair that `Mnemonic::to_key_pair` makes of the words that
/// `Mnemonic::from_str` reads with a password or none; `None` where either
/// refuses.
pub uninterp spec fn key_pair_of_mnemonic(
    words: Seq<char>,
    password: Option<Seq<char>>,
) -> Option<KeyPairView>;

/// Calls `Mnemonic::from_str`, then `Mnemonic::to_key_pair`. Claimed of them:
/// whether there is a key pair, and which, depends on the words and the password
/// alone.
#[verifier::external_body]
fn mnemonic_key_pair(words: &str, password: &Option<String>) -> (r: Result<KeyPair, MnemonicError>)
    ensures
        match r {
            Ok(keys) => key_pair_of_mnemonic(words@, password_view(*password)) == Some(keys@),
            Err(_) => key_pair_of_mnemonic(words@, password_view(*password)) is None,
        },
{
    let keys = Mnemonic::from_str(words, password)?.to_key_pair()?;
    Ok(KeyPair { public_key: keys.public_key, secret_key: keys.secret_key })
}

// ---------------------------------------------------------------------------
// Wallets
// ---------------------------------------------------------------------------

/// Which wallet contract is used.
#[derive(Clone, Copy, Debug, PartialEq, Eq, Structural)]
pub enum WalletVersion {
    V5R1,
}

/// The wallet id of a V5R1 wallet on the test network.
pub const DEFAULT_WALLET_ID_V5R1_TESTNET: i32 = 0x7FFFFFFD;

/// The wallet that pays claims out.
#[derive(Clone)]
pub struct Wallet {
    pub version: WalletVersion,
    pub key_pair: KeyPair,
    pub address: Address,
    pub wallet_id: i32,
}

/// What a [`Wallet`] stands for.
#[verifier::ext_equal]
pub struct WalletView {
    pub version: WalletVersion,
    pub key_pair: KeyPairView,
    pub address: AddressView,
    pub wallet_id: i32,
}

impl Wallet {
    pub open spec fn view(&self) -> WalletView {
        WalletView {
            version: self.version,
            key_pair: self.key_pair@,
            address: self.address@,
            wallet_id: self.wallet_id,
        }
    }
}

/// The address of the wallet that `TonWallet::new_with_params` makes; `None`
/// where it refuses.
pub uninterp spec fn wallet_address(
    version: WalletVersion,
    key_pair: KeyPairView,
    workchain: i32,
    wallet_id: i32,
) -> Option<AddressView>;

/// Calls `TonWallet::new_with_params` and hands out the wallet's address.
/// Claimed of it: whether there is a wallet, and at which address, depends on
/// the version, the keys, the workchain and the wallet id alone.
#[verifier::external_body]
fn derive_address(version: WalletVersion, keys: &KeyPair, workchain: i32, wallet_id: i32) -> (r:
    Result<Address, TonCellError>)
    ensures
        match r {
            Ok(address) => wallet_address(version, keys@, workchain, wallet_id) == Some(address@),
            Err(_) => wallet_address(version, keys@, workchain, wallet_id) is None,
        },
{
    let version = match version {
        WalletVersion::V5R1 => tonlib_core::wallet::wallet_version::WalletVersion::V5R1,
    };
    let keys = tonlib_core::wallet::mnemonic::KeyPair {
        public_key: keys.public_key.clone(),
        secret_key: keys.secret_key.clone(),
    };
    let address = TonWallet::new_with_params(version, keys, workchain, wallet_id)?.address;
    Ok(Address { workchain: address.workchain, hash: address.hash_part.into() })
}

/// Why there is no wallet.
#[derive(Debug)]
pub enum WalletError {
    Mnemonic(MnemonicError),
    Cell(TonCellError),
}

/// The faucet's wallet for a key pair whose wallet has that address: a V5R1
/// wallet of the test network.
pub open spec fn faucet_wallet(key_pair: KeyPairView, address: AddressView) -> WalletView {
    WalletView {
        version: WalletVersion::V5R1,
        key_pair,
        address,
        wallet_id: DEFAULT_WALLET_ID_V5R1_TESTNET,
    }
}

/// The address of the faucet's wallet for a key pair, in workchain 0.
pub open spec fn faucet_address(key_pair: KeyPairView) -> Option<AddressView> {
    wallet_address(WalletVersion::V5R1, key_pair, 0, DEFAULT_WALLET_ID_V5R1_TESTNET)
}

impl Wallet {
    /// The faucet's wallet for a key pair.
    pub fn from_key_pair(key_pair: KeyPair) -> (r: Result<Wallet, TonCellError>)
        ensures
            match r {
                Ok(wallet) => faucet_address(key_pair@) == Some(wallet.address@) && wallet@
                    == faucet_wallet(key_pair@, wallet.address@),
                Err(_) => faucet_address(key_pair@) is None,
            },
            wallet_address(WalletVersion::V5R1, key_pair@, 0, 0x7FFF_FFFD) == (match r {
                Ok(wallet) => Some(wallet.address@),
                Err(_) => None,
            }),
            r matches Ok(wallet) ==> wallet.version == WalletVersion::V5R1 && wallet.key_pair
                == key_pair && wallet.wallet_id == 0x7FFF_FFFD,
    {
        match derive_address(WalletVersion::V5R1, &key_pair, 0, DEFAULT_WALLET_ID_V5R1_TESTNET) {
            Ok(address) => Ok(
                Wallet {
                    version: WalletVersion::V5R1,
                    key_pair,
                    address,
                    wallet_id: DEFAULT_WALLET_ID_V5R1_TESTNET,
                },
            ),
            Err(e) => Err(e),
        }
    }

    /// The faucet's wallet for a mnemonic that has no password.
    pub fn new(mnemonic: &str) -> (r: Result<Wallet, WalletError>)
        ensures
            match r {
                Ok(wallet) => {
                    &&& key_pair_of_mnemonic(mnemonic@, None) == Some(wallet.key_pair@)
                    &&& faucet_address(wallet.key_pair@) == Some(wallet.address@)
                    &&& wallet@ == faucet_wallet(wallet.key_pair@, wallet.address@)
                },
                Err(WalletError::Mnemonic(_)) => key_pair_of_mnemonic(mnemonic@, None) is None,
                Err(WalletError::Cell(_)) => key_pair_of_mnemonic(mnemonic@, None) is Some
                    && faucet_address(key_pair_of_mnemonic(mnemonic@, None)->0) is None,
            },
            r matches Ok(wallet) ==> {
                &&& wallet.version == WalletVersion::V5R1
                &&& wallet.wallet_id == 0x7FFF_FFFD
                &&& wallet_address(WalletVersion::V5R1, wallet.key_pair@, 0, 0x7FFF_FFFD) == Some(
                    wallet.address@,
                )
            },
    {
        match mnemonic_key_pair(mnemonic, &None) {
            Ok(key_pair) => match Self::from_key_pair(key_pair) {
                Ok(wallet) => Ok(wallet),
                Err(e) => Err(WalletError::Cell(e)),
            },
            Err(e) => Err(WalletError::Mnemonic(e)),
        }
    }
}

} // verus!
