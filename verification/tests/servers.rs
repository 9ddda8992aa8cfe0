use uwupm::servers::{
    add_server_decision, server_listed_vec, supported_scheme, trim_vec, AddServerDecision,
};

#[test]
fn trim_strips_surrounding_whitespace_only() {
    assert_eq!(trim_vec(&b"  http://a  ".to_vec()), b"http://a".to_vec());
    assert_eq!(trim_vec(&b"\thttp://a\t".to_vec()), b"http://a".to_vec());
    assert_eq!(trim_vec(&b"no-space".to_vec()), b"no-space".to_vec());
    assert_eq!(trim_vec(&b"   ".to_vec()), b"".to_vec());
    assert_eq!(trim_vec(&b"a b".to_vec()), b"a b".to_vec());
}

#[test]
fn membership_compares_trimmed_lines() {
    let list = b"http://one\n  http://two  \n".to_vec();
    assert!(server_listed_vec(&list, &b"http://one".to_vec()));
    assert!(server_listed_vec(&list, &b"http://two".to_vec()));
    assert!(server_listed_vec(&list, &b"  http://two".to_vec()));
    assert!(!server_listed_vec(&list, &b"http://three".to_vec()));
    assert!(!server_listed_vec(&list, &b"http://on".to_vec()));
}

#[test]
fn only_http_and_https_schemes_are_supported() {
    assert!(supported_scheme(&b"http://server:8080".to_vec()));
    assert!(supported_scheme(&b"https://server".to_vec()));
    assert!(!supported_scheme(&b"ftp://server".to_vec()));
    assert!(!supported_scheme(&b"http:/server".to_vec()));
    assert!(!supported_scheme(&b"server".to_vec()));
    assert!(!supported_scheme(&b"".to_vec()));
}

#[test]
fn add_decision_table() {
    assert_eq!(add_server_decision(false, true, true), AddServerDecision::Append);
    assert_eq!(add_server_decision(true, true, true), AddServerDecision::AlreadyListed);
    assert_eq!(add_server_decision(true, false, false), AddServerDecision::AlreadyListed);
    assert_eq!(add_server_decision(false, true, false), AddServerDecision::MissingScheme);
    assert_eq!(add_server_decision(false, false, false), AddServerDecision::MissingScheme);
    assert_eq!(add_server_decision(false, false, true), AddServerDecision::Unreachable);
}
