use uwupm::download::{archive_file_name, join_url, package_archive_url_vec};
use uwupm::errors::unknown_command;
use uwupm::index::{parse_line_vec, parse_package_list, parse_server_list};

#[test]
fn parses_two_well_formed_lines() {
    let text = b"a http://x\nb http://y\n".to_vec();
    let idx = parse_package_list(&text);
    assert_eq!(idx.len(), 2);
    assert_eq!(idx[0].name, b"a".to_vec());
    assert_eq!(idx[0].url, b"http://x".to_vec());
    assert_eq!(idx[1].name, b"b".to_vec());
    assert_eq!(idx[1].url, b"http://y".to_vec());
}

#[test]
fn drops_malformed_and_blank_lines() {
    let text = b"onlyname\n\n   \nc http://z extra tokens\n".to_vec();
    let idx = parse_package_list(&text);
    assert_eq!(idx.len(), 1);
    assert_eq!(idx[0].name, b"c".to_vec());
    assert_eq!(idx[0].url, b"http://z".to_vec());
}

#[test]
fn tolerates_tabs_and_leading_whitespace() {
    let text = b"\t pkg \t http://server/pkg \n".to_vec();
    let idx = parse_package_list(&text);
    assert_eq!(idx.len(), 1);
    assert_eq!(idx[0].name, b"pkg".to_vec());
    assert_eq!(idx[0].url, b"http://server/pkg".to_vec());
}

#[test]
fn carriage_return_is_treated_as_whitespace() {
    let text = b"a http://x\r\n".to_vec();
    let idx = parse_package_list(&text);
    assert_eq!(idx.len(), 1);
    assert_eq!(idx[0].url, b"http://x".to_vec());
}

#[test]
fn single_line_without_newline_parses() {
    let line = b"name http://u".to_vec();
    let e = parse_line_vec(&line).unwrap();
    assert_eq!(e.name, b"name".to_vec());
    assert_eq!(e.url, b"http://u".to_vec());
    assert!(parse_line_vec(&b"justone".to_vec()).is_none());
    assert!(parse_line_vec(&b"".to_vec()).is_none());
}

#[test]
fn server_list_skips_blank_lines() {
    let text = b"http://one\n\n   \nhttps://two\n".to_vec();
    let servers = parse_server_list(&text);
    assert_eq!(servers.len(), 2);
    assert_eq!(servers[0], b"http://one".to_vec());
    assert_eq!(servers[1], b"https://two".to_vec());
}

#[test]
fn join_url_trims_trailing_slashes() {
    let joined = join_url(&b"http://s//".to_vec(), &b"p.txt".to_vec());
    assert_eq!(joined, b"http://s/p.txt".to_vec());
    let joined = join_url(&b"http://s".to_vec(), &b"p.txt".to_vec());
    assert_eq!(joined, b"http://s/p.txt".to_vec());
}

#[test]
fn archive_names_and_urls() {
    assert_eq!(archive_file_name(&b"pkg".to_vec()), b"pkg.tar.gz".to_vec());
    let url = package_archive_url_vec(&b"http://s/".to_vec(), &b"pkg".to_vec());
    assert_eq!(url, b"http://s/pkg.tar.gz".to_vec());
}

#[test]
fn unknown_command_report() {
    let (code, message) = unknown_command(&b"frobnicate".to_vec());
    assert_eq!(code, "SH005");
    assert_eq!(message, b"Unknown command \"frobnicate\"".to_vec());
}
