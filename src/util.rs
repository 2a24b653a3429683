use vstd::prelude::*;
use vstd::string::{StrSliceExecFns, StringExecFns};

verus! {

/// A malformed network setting.
#[derive(Debug, PartialEq, Eq, Structural)]
pub enum NetError {
    InvalidNetworkAddress,
}

impl NetError {
    /// The error's name, as printed for users.
    pub fn describe(&self) -> (r: String)
        ensures
            r@ == "InvalidNetworkAddress"@,
    {
        "InvalidNetworkAddress".to_owned()
    }
}

/// `p` is the position of the only colon in `s`.
pub open spec fn single_colon_at(s: Seq<char>, p: int) -> bool {
    &&& 0 <= p < s.len()
    &&& s[p] == ':'
    &&& forall|j: int| 0 <= j < s.len() && j != p ==> s[j] != ':'
}

/// Splits `user:password` at its colon. A string without exactly one colon is
/// refused.
pub fn parse_proxy_auth(s: &str) -> (r: Result<(String, String), NetError>)
    ensures
        match r {
            Ok((user, passwd)) => single_colon_at(s@, user@.len() as int) && user@ == s@.subrange(
                0,
                user@.len() as int,
            ) && passwd@ == s@.subrange(user@.len() as int + 1, s@.len() as int),
            Err(_) => forall|p: int| !single_colon_at(s@, p),
        },
{
    let n = s.unicode_len();
    let mut colons: usize = 0;
    let mut pos: usize = 0;
    let mut i: usize = 0;
    while i < n
        invariant
            n == s@.len(),
            i <= n,
            colons <= 2,
            colons == 0 ==> forall|j: int| 0 <= j < i ==> s@[j] != ':',
            colons >= 1 ==> pos < i && s@[pos as int] == ':' && forall|j: int|
                0 <= j < pos ==> s@[j] != ':',
            colons == 1 ==> forall|j: int| pos < j < i ==> s@[j] != ':',
            colons == 2 ==> exists|j: int| pos < j < i && s@[j] == ':',
        decreases n - i,
    {
        if s.get_char(i) == ':' && colons < 2 {
            if colons == 0 {
                pos = i;
            }
            colons = colons + 1;
        }
        i = i + 1;
    }
    if colons != 1 {
        proof {
            assert forall|p: int| !single_colon_at(s@, p) by {
                if single_colon_at(s@, p) {
                    if colons == 2 {
                        let j = choose|j: int| pos < j < i && s@[j] == ':';
                    }
                }
            }
        }
        return Err(NetError::InvalidNetworkAddress);
    }
    let user = s.substring_char(0, pos).to_owned();
    let passwd = s.substring_char(pos + 1, n).to_owned();
    Ok((user, passwd))
}

/// The JSON-RPC endpoint of a node at `host` (`host:port`): the node itself, or
/// one wallet of it.
pub fn rpc_url(host: &str, wallet: &Option<String>) -> (r: String)
    ensures
        r@ == match wallet {
            Some(w) => "http://"@ + host@ + "/wallet/"@ + w@,
            None => "http://"@ + host@,
        },
{
    let mut url = "http://".to_owned();
    url.append(host);
    if let Some(w) = wallet {
        url.append("/wallet/");
        url.append(w.as_str());
    }
    url
}

} // verus!
