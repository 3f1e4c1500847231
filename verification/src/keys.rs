//! New addresses and their private keys.

use crate::config::addr_fits;
use crate::text::{begins_with, same};
use vstd::prelude::*;

verus! {

/// The chains that addresses are made for. The test networks share the form
/// of their addresses.
#[derive(Clone, Copy, Debug, PartialEq, Eq, Structural)]
pub enum Chain {
    Bitcoin,
    Testnet,
    Regtest,
}

/// The chain of a network.
pub open spec fn chain_of(net: Seq<char>) -> Chain {
    if net == "testnet4"@ { Chain::Testnet } else if net == "regtest"@ { Chain::Regtest } else { Chain::Bitcoin }
}

/// What the addresses of a chain begin with.
pub open spec fn chain_prefix(chain: Chain) -> Seq<char> {
    match chain {
        Chain::Bitcoin => "bc1"@,
        Chain::Testnet => "tb1"@,
        Chain::Regtest => "bcrt1"@,
    }
}

/// The compressed public key of a secret key.
pub uninterp spec fn public_key(secret: Seq<u8>) -> Seq<u8>;

/// The pay-to-witness-public-key-hash address of a public key; nothing where
/// the bytes are no public key.
pub uninterp spec fn witness_address(public: Seq<u8>, chain: Chain) -> Option<Seq<char>>;

/// The wallet import format of a secret key; nothing where the bytes are no
/// secret key.
pub uninterp spec fn wif_text(secret: Seq<u8>, chain: Chain) -> Option<Seq<char>>;

/// `Secp256k1::generate_keypair` with the thread's random numbers: a secret
/// key and its public key, both of which can be used. Which one is left to
/// chance.
#[verifier::external_body]
fn random_keys() -> (r: ([u8; 32], [u8; 33]))
    ensures
        r.1@ == public_key(r.0@),
        forall|c: Chain| #[trigger] witness_address(r.1@, c) is Some,
        forall|c: Chain| #[trigger] wif_text(r.0@, c) is Some,
{
    let secp = bitcoin::secp256k1::Secp256k1::new();
    let (sk, pk) = secp.generate_keypair(&mut bitcoin::secp256k1::rand::thread_rng());
    (sk.secret_bytes(), pk.serialize())
}

/// `Address::p2wpkh` of `CompressedPublicKey::from_slice`, written out: a
/// function of the key and the chain, which begins as the chain's addresses
/// do.
#[verifier::external_body]
fn p2wpkh(public: &[u8; 33], chain: Chain) -> (r: Option<String>)
    ensures
        match r {
            Some(s) => witness_address(public@, chain) == Some(s@) && begins_with(s@, chain_prefix(chain)),
            None => witness_address(public@, chain) is None,
        },
{
    let network = match chain {
        Chain::Bitcoin => bitcoin::Network::Bitcoin,
        Chain::Testnet => bitcoin::Network::Testnet,
        Chain::Regtest => bitcoin::Network::Regtest,
    };
    let key = bitcoin::CompressedPublicKey::from_slice(public).ok()?;
    Some(bitcoin::Address::p2wpkh(&key, network).to_string())
}

/// `PrivateKey::to_wif` of `PrivateKey::from_slice`: a function of the key and
/// the chain.
#[verifier::external_body]
fn to_wif(secret: &[u8; 32], chain: Chain) -> (r: Option<String>)
    ensures
        match r {
            Some(s) => wif_text(secret@, chain) == Some(s@),
            None => wif_text(secret@, chain) is None,
        },
{
    let network = match chain {
        Chain::Bitcoin => bitcoin::Network::Bitcoin,
        Chain::Testnet => bitcoin::Network::Testnet,
        Chain::Regtest => bitcoin::Network::Regtest,
    };
    bitcoin::PrivateKey::from_slice(secret, network).ok().map(|key| key.to_wif())
}

/// Looks a network's chain up.
pub fn net_chain(net: &str) -> (r: Chain)
    ensures
        r == chain_of(net@),
{
    if same(net, "testnet4") {
        Chain::Testnet
    } else if same(net, "regtest") {
        Chain::Regtest
    } else {
        Chain::Bitcoin
    }
}

/// What begins as a chain's addresses do is of the kind of its network.
proof fn lemma_prefix_fits(net: Seq<char>, a: Seq<char>)
    requires
        begins_with(a, chain_prefix(chain_of(net))),
    ensures
        addr_fits(net, a),
{
}

/// The address and the private key, as text, of a pair of keys; nothing where
/// the bytes are no keys.
pub fn address_of(secret: &[u8; 32], public: &[u8; 33], net: &str) -> (r: Option<(String, String)>)
    ensures
        match r {
            Some((addr, wif)) => {
                &&& witness_address(public@, chain_of(net@)) == Some(addr@)
                &&& wif_text(secret@, chain_of(net@)) == Some(wif@)
                &&& begins_with(addr@, chain_prefix(chain_of(net@)))
                &&& addr_fits(net@, addr@)
            },
            None => witness_address(public@, chain_of(net@)) is None || wif_text(secret@, chain_of(net@)) is None,
        },
{
    let chain = net_chain(net);
    match (p2wpkh(public, chain), to_wif(secret, chain)) {
        (Some(addr), Some(wif)) => {
            proof {
                lemma_prefix_fits(net@, addr@);
            }
            Some((addr, wif))
        },
        _ => None,
    }
}

/// Whether an address and a private key belong together.
pub open spec fn belong_together(addr: Seq<char>, wif: Seq<char>, net: Seq<char>) -> bool {
    exists|secret: Seq<u8>|
        #[trigger] wif_text(secret, chain_of(net)) == Some(wif) && witness_address(public_key(secret), chain_of(net))
            == Some(addr)
}

/// Generates an address for a network, with its private key. The address
/// always begins as the network's witness addresses do.
pub fn gen_address(net: &str) -> (r: Option<(String, String)>)
    ensures
        match r {
            Some((addr, wif)) => {
                &&& begins_with(addr@, chain_prefix(chain_of(net@)))
                &&& addr_fits(net@, addr@)
                &&& belong_together(addr@, wif@, net@)
            },
            None => false,
        },
{
    let (secret, public) = random_keys();
    assert(witness_address(public@, chain_of(net@)) is Some);
    assert(wif_text(secret@, chain_of(net@)) is Some);
    address_of(&secret, &public, net)
}

/// Law: the addresses of a network are made on its chain, and begin as those of
/// that network do.
pub proof fn law_chains_fit_their_networks(net: Seq<char>)
    ensures
        net == "mainnet"@ ==> chain_prefix(chain_of(net)) == "bc1"@,
        net == "testnet4"@ ==> chain_prefix(chain_of(net)) == "tb1"@,
        net == "regtest"@ ==> chain_prefix(chain_of(net)) == "bcrt1"@,
{
    reveal_strlit("mainnet");
    reveal_strlit("testnet4");
    reveal_strlit("regtest");
    assert("mainnet"@.len() == 7 && "mainnet"@[0] == 'm');
    assert("testnet4"@.len() == 8);
    assert("regtest"@.len() == 7 && "regtest"@[0] == 'r');
}

} // verus!
