use vstd::prelude::*;
use crate::error::Error;
use crate::network_config::{url_for_network, url_spec, UrlType};

verus! {

use vstd::string::StrSliceExecFns;
use vstd::string::StringExecFns;

/// The invocation options, as plain values. Reading them from the command
/// line and the environment happens outside the library.
#[derive(Debug)]
pub struct Config {
    /// Target contract id
    pub contract_id: Option<String>,
    /// Admin address to classify directly, bypassing storage resolution
    pub admin: Option<String>,
    /// RPC endpoint override
    pub rpc_url: Option<String>,
    /// Network name
    pub network: Option<String>,
    /// Admin storage slot key to search for
    pub key: String,
    /// Historical-data index endpoint override
    pub horizon: Option<String>,
}

/// The URL with the trailing slash that endpoints are normalized to.
pub open spec fn with_trailing_slash(s: Seq<char>) -> Seq<char> {
    if s.len() > 0 && s.last() == '/' {
        s
    } else {
        s.push('/')
    }
}

/// Appends a trailing slash to a URL that does not already end with one.
pub fn ensure_trailing_slash(url: String) -> (r: String)
    ensures
        r@ == with_trailing_slash(url@),
{
    let n = url.as_str().unicode_len();
    if n > 0 {
        let last = url.as_str().get_char(n - 1);
        if last == '/' {
            return url;
        }
    }
    let ghost u = url@;
    let r = url.concat("/");
    proof {
        reveal_strlit("/");
        assert(r@ =~= with_trailing_slash(u));
    }
    r
}

impl Config {
    /// Picks the endpoint of the requested kind: an explicit override wins,
    /// otherwise the network name is resolved; either way the result is
    /// normalized to end with a slash. A failed network resolution is handed
    /// through unchanged.
    pub fn get_url(&self, network: &Result<String, Error>, url_type: UrlType) -> (r: Result<
        String,
        Error,
    >)
        ensures
            ({
                let override_url = if url_type == UrlType::Rpc {
                    self.rpc_url
                } else {
                    self.horizon
                };
                match override_url {
                    Some(u) => r matches Ok(s) && s@ == with_trailing_slash(u@),
                    None => match *network {
                        Ok(n) => match url_spec(n@, url_type) {
                            Ok(u) => r matches Ok(s) && s@ == with_trailing_slash(u),
                            Err(e) => r matches Err(e2) && e2 == e,
                        },
                        Err(e) => r matches Err(e2) && e2 == e,
                    },
                }
            }),
    {
        let base: Result<String, Error> = match url_type {
            UrlType::Rpc => match &self.rpc_url {
                Some(u) => Ok(u.clone()),
                None => match network {
                    Ok(n) => url_for_network(n.as_str(), UrlType::Rpc),
                    Err(e) => Err(e.clone()),
                },
            },
            UrlType::Horizon => match &self.horizon {
                Some(u) => Ok(u.clone()),
                None => match network {
                    Ok(n) => url_for_network(n.as_str(), UrlType::Horizon),
                    Err(e) => Err(e.clone()),
                },
            },
        };
        match base {
            Ok(u) => Ok(ensure_trailing_slash(u)),
            Err(e) => Err(e),
        }
    }
}

} // verus!
