use dustbuster::util::{parse_proxy_auth, rpc_url, NetError};

#[test]
fn proxy_auth_splits_at_colon() {
    let (user, passwd) = parse_proxy_auth("user:password").unwrap();
    assert_eq!(user, "user");
    assert_eq!(passwd, "password");
}

#[test]
fn proxy_auth_allows_empty_parts() {
    let (user, passwd) = parse_proxy_auth(":").unwrap();
    assert_eq!(user, "");
    assert_eq!(passwd, "");
}

#[test]
fn proxy_auth_without_colon_is_refused() {
    assert_eq!(parse_proxy_auth("userpassword"), Err(NetError::InvalidNetworkAddress));
    assert_eq!(parse_proxy_auth(""), Err(NetError::InvalidNetworkAddress));
}

#[test]
fn proxy_auth_with_two_colons_is_refused() {
    assert_eq!(parse_proxy_auth("a:b:c"), Err(NetError::InvalidNetworkAddress));
}

#[test]
fn proxy_auth_keeps_unicode() {
    let (user, passwd) = parse_proxy_auth("jürgen:pässwörd").unwrap();
    assert_eq!(user, "jürgen");
    assert_eq!(passwd, "pässwörd");
}

#[test]
fn net_error_describes_itself() {
    assert_eq!(NetError::InvalidNetworkAddress.describe(), "InvalidNetworkAddress");
}

#[test]
fn rpc_url_with_and_without_wallet() {
    assert_eq!(rpc_url("127.0.0.1:48332", &None), "http://127.0.0.1:48332");
    assert_eq!(
        rpc_url("localhost:18443", &Some("w1".to_string())),
        "http://localhost:18443/wallet/w1"
    );
}
