use vstd::prelude::*;
use crate::error::Error;

verus! {

use vstd::string::StringSliceAdditionalSpecFns;

/// Which collaborator endpoint a network name should resolve to.
#[derive(Clone, Copy, Debug, PartialEq, Eq, Structural)]
pub enum UrlType {
    Rpc,
    Horizon,
}

/// Compares two byte slices for equality of their contents.
pub fn bytes_eq(a: &[u8], b: &[u8]) -> (r: bool)
    ensures
        r == (a@ == b@),
{
    if a.len() != b.len() {
        return false;
    }
    let mut i: usize = 0;
    while i < a.len()
        invariant
            a@.len() == b@.len(),
            i <= a@.len(),
            forall|j: int| 0 <= j < i ==> a@[j] == b@[j],
        decreases a@.len() - i,
    {
        if a[i] != b[i] {
            return false;
        }
        i += 1;
    }
    proof {
        assert(a@ =~= b@);
    }
    true
}

/// Compares two string slices for equality of their character contents.
pub fn str_eq(a: &str, b: &str) -> (r: bool)
    ensures
        r == (a@ == b@),
{
    let r = bytes_eq(a.as_bytes(), b.as_bytes());
    proof {
        if a.spec_bytes() == b.spec_bytes() {
            vstd::utf8::encode_utf8_decode_utf8(a@);
            vstd::utf8::encode_utf8_decode_utf8(b@);
        }
    }
    r
}

/// The RPC endpoint a well-known network name stands for, if any.
pub open spec fn rpc_url_spec(network: Seq<char>) -> Option<Seq<char>> {
    if network == "mainnet"@ {
        Some("https://mainnet.sorobanrpc.com"@)
    } else if network == "testnet"@ {
        Some("https://soroban-testnet.stellar.org"@)
    } else if network == "futurenet"@ {
        Some("https://rpc-futurenet.stellar.org"@)
    } else if network == "local"@ || network == "standalone"@ {
        Some("http://localhost:8000/soroban/rpc"@)
    } else {
        None
    }
}

/// Hardcoded RPC endpoints for well-known networks. Custom networks are the
/// caller's concern: they come from local configuration, which is outside the
/// library.
pub fn rpc_url_from_network(network: &str) -> (r: Result<String, Error>)
    ensures
        match rpc_url_spec(network@) {
            Some(u) => r matches Ok(s) && s@ == u,
            None => r matches Err(e) && e == Error::InvalidNetwork,
        },
{
    if str_eq(network, "mainnet") {
        Ok("https://mainnet.sorobanrpc.com".to_owned())
    } else if str_eq(network, "testnet") {
        Ok("https://soroban-testnet.stellar.org".to_owned())
    } else if str_eq(network, "futurenet") {
        Ok("https://rpc-futurenet.stellar.org".to_owned())
    } else if str_eq(network, "local") || str_eq(network, "standalone") {
        Ok("http://localhost:8000/soroban/rpc".to_owned())
    } else {
        Err(Error::InvalidNetwork)
    }
}

/// The historical-data index endpoint a well-known network name stands for.
/// `None` with `true` marks a network that exists but has no such endpoint.
pub open spec fn horizon_url_spec(network: Seq<char>) -> Option<Seq<char>> {
    if network == "testnet"@ {
        Some("https://horizon-testnet.stellar.org/"@)
    } else if network == "futurenet"@ {
        Some("https://horizon-futurenet.stellar.org/"@)
    } else if network == "mainnet"@ {
        Some("https://horizon.stellar.org/"@)
    } else {
        None
    }
}

/// Hardcoded historical-data index endpoints for well-known networks.
pub fn horizon_url_from_network(network: &str) -> (r: Result<String, Error>)
    ensures
        match horizon_url_spec(network@) {
            Some(u) => r matches Ok(s) && s@ == u,
            None => r matches Err(e) && (e == Error::HorizonUrlNotAvailable <==> (
                network@ == "local"@ || network@ == "standalone"@)) && (e
                == Error::HorizonUrlNotAvailable || e == Error::InvalidNetwork),
        },
{
    if str_eq(network, "testnet") {
        Ok("https://horizon-testnet.stellar.org/".to_owned())
    } else if str_eq(network, "futurenet") {
        Ok("https://horizon-futurenet.stellar.org/".to_owned())
    } else if str_eq(network, "mainnet") {
        Ok("https://horizon.stellar.org/".to_owned())
    } else if str_eq(network, "local") || str_eq(network, "standalone") {
        Err(Error::HorizonUrlNotAvailable)
    } else {
        Err(Error::InvalidNetwork)
    }
}

/// The endpoint, or the failure, that a network name resolves to for each
/// endpoint kind.
pub open spec fn url_spec(network: Seq<char>, url_type: UrlType) -> Result<Seq<char>, Error> {
    match url_type {
        UrlType::Rpc => match rpc_url_spec(network) {
            Some(u) => Ok(u),
            None => Err(Error::InvalidNetwork),
        },
        UrlType::Horizon => match horizon_url_spec(network) {
            Some(u) => Ok(u),
            None => if network == "local"@ || network == "standalone"@ {
                Err(Error::HorizonUrlNotAvailable)
            } else {
                Err(Error::InvalidNetwork)
            },
        },
    }
}

/// Resolves a network name to the endpoint of the requested kind. A name that
/// is not well-known is reported as `InvalidNetwork`; resolving such a name
/// through local configuration is file I/O and stays outside the library.
pub fn url_for_network(network: &str, url_type: UrlType) -> (r: Result<String, Error>)
    ensures
        match url_spec(network@, url_type) {
            Ok(u) => r matches Ok(s) && s@ == u,
            Err(e) => r matches Err(e2) && e2 == e,
        },
{
    match url_type {
        UrlType::Rpc => rpc_url_from_network(network),
        UrlType::Horizon => horizon_url_from_network(network),
    }
}

} // verus!
