//! Selection of the Solana cluster that the wallet talks to, and parsing of
//! the command line's base58-encoded keypairs.

use vstd::prelude::*;

use crate::bytes::read_block;
use crate::curve::{pt_valid, valid_keypair_bytes};
use crate::error::Error;
use crate::serialization::{b58_dec, bs58_decode};
use crate::tss::KeyPair;

verus! {

/// One of the three public Solana clusters.
#[derive(Clone, Copy, Debug, PartialEq, Eq, Structural)]
pub enum Network {
    Mainnet,
    Testnet,
    Devnet,
}

impl Network {
    /// The RPC endpoint of the chosen cluster.
    pub fn get_cluster_url(&self) -> (url: &'static str)
        ensures
            *self == Network::Mainnet ==> url@ == "https://api.mainnet-beta.solana.com"@,
            *self == Network::Testnet ==> url@ == "https://api.testnet.solana.com"@,
            *self == Network::Devnet ==> url@ == "https://api.devnet.solana.com"@,
    {
        match self {
            Network::Mainnet => "https://api.mainnet-beta.solana.com",
            Network::Testnet => "https://api.testnet.solana.com",
            Network::Devnet => "https://api.devnet.solana.com",
        }
    }

    /// Parse a network name as the command line spells it.
    pub fn from_str_name(s: &str) -> (r: Option<Network>)
        ensures
            (s@ == "mainnet"@ || s@ == "Mainnet"@) ==> r == Some(Network::Mainnet),
            (s@ == "testnet"@ || s@ == "Testnet"@) ==> r == Some(Network::Testnet),
            (s@ == "devnet"@ || s@ == "Devnet"@) ==> r == Some(Network::Devnet),
            (s@ != "mainnet"@ && s@ != "Mainnet"@ && s@ != "testnet"@ && s@ != "Testnet"@ && s@
                != "devnet"@ && s@ != "Devnet"@) ==> r is None,
    {
        proof {
            reveal_strlit("mainnet");
            reveal_strlit("Mainnet");
            reveal_strlit("testnet");
            reveal_strlit("Testnet");
            reveal_strlit("devnet");
            reveal_strlit("Devnet");
            assert("testnet"@[0] != "mainnet"@[0] && "testnet"@[0] != "Mainnet"@[0]);
            assert("Testnet"@[0] != "mainnet"@[0] && "Testnet"@[0] != "Mainnet"@[0]);
            assert("devnet"@[0] != "mainnet"@[0] && "devnet"@[0] != "Mainnet"@[0]);
            assert("Devnet"@[0] != "mainnet"@[0] && "Devnet"@[0] != "Mainnet"@[0]);
            assert("devnet"@[0] != "testnet"@[0] && "devnet"@[0] != "Testnet"@[0]);
            assert("Devnet"@[0] != "testnet"@[0] && "Devnet"@[0] != "Testnet"@[0]);
        }
        let owned = s.to_owned();
        if owned == "mainnet".to_owned() || owned == "Mainnet".to_owned() {
            Some(Network::Mainnet)
        } else if owned == "testnet".to_owned() || owned == "Testnet".to_owned() {
            Some(Network::Testnet)
        } else if owned == "devnet".to_owned() || owned == "Devnet".to_owned() {
            Some(Network::Devnet)
        } else {
            None
        }
    }
}

impl core::str::FromStr for Network {
    type Err = Error;

    fn from_str(s: &str) -> Result<Network, Error> {
        match Network::from_str_name(s) {
            Some(n) => Ok(n),
            None => Err(Error::WrongNetwork(s.to_owned())),
        }
    }
}

/// Parse a base58-encoded 64-byte keypair: the secret seed, then the public
/// key, which must decode to a curve point.
pub fn parse_keypair_bs58(s: &str) -> (r: Result<KeyPair, Error>)
    ensures
        b58_dec(s@) is None ==> (r matches Err(e) && e is BadBase58),
        b58_dec(s@) matches Some(v) ==> match r {
            Ok(kp) => v.len() == 64 && pt_valid(v.subrange(32, 64)) && kp.secret@ == v.subrange(
                0,
                32,
            ) && kp.public@ == v.subrange(32, 64),
            Err(e) => !(v.len() == 64 && pt_valid(v.subrange(32, 64))) && e is WrongKeyPair,
        },
{
    let decoded = match bs58_decode(s) {
        Err(m) => {
            return Err(Error::BadBase58(m));
        },
        Ok(v) => v,
    };
    if !valid_keypair_bytes(&decoded) {
        return Err(Error::WrongKeyPair("the bytes do not form an Ed25519 keypair".to_owned()));
    }
    let secret: [u8; 32] = read_block(decoded.as_slice(), 0);
    let public: [u8; 32] = read_block(decoded.as_slice(), 32);
    Ok(KeyPair { secret, public })
}

} // verus!
