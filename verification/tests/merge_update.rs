use uwupm::errors::UpdateError;
use uwupm::index::parse_package_list;
use uwupm::update::{fetch_targets, merge_listings, packagelist_file_name};

#[test]
fn merge_keeps_both_listings_in_server_order() {
    let listings = vec![b"a http://x\n".to_vec(), b"b http://y\n".to_vec()];
    let merged = merge_listings(&listings);
    assert_eq!(merged, b"a http://x\n\nb http://y\n\n".to_vec());
    let idx = parse_package_list(&merged);
    assert_eq!(idx.len(), 2);
    assert_eq!(idx[0].name, b"a".to_vec());
    assert_eq!(idx[0].url, b"http://x".to_vec());
    assert_eq!(idx[1].name, b"b".to_vec());
    assert_eq!(idx[1].url, b"http://y".to_vec());
}

#[test]
fn merge_of_no_listings_parses_to_an_empty_index() {
    let merged = merge_listings(&Vec::new());
    assert!(merged.is_empty());
    assert!(parse_package_list(&merged).is_empty());
}

#[test]
fn listings_without_trailing_newline_do_not_run_together() {
    let listings = vec![b"a http://x".to_vec(), b"b http://y".to_vec()];
    let merged = merge_listings(&listings);
    let idx = parse_package_list(&merged);
    assert_eq!(idx.len(), 2);
    assert_eq!(idx[0].name, b"a".to_vec());
    assert_eq!(idx[1].name, b"b".to_vec());
}

#[test]
fn update_with_no_servers_is_refused() {
    let r = fetch_targets(&Vec::new());
    assert_eq!(r, Err(UpdateError::NoServersConfigured));
    assert_eq!(UpdateError::NoServersConfigured.code(), "IP007");
    assert_eq!(UpdateError::IndexFetch.code(), "DW010");
}

#[test]
fn update_fetches_each_servers_listing_in_order() {
    let servers = vec![b"http://one/".to_vec(), b"https://two".to_vec()];
    let urls = fetch_targets(&servers).unwrap();
    assert_eq!(urls.len(), 2);
    assert_eq!(urls[0], b"http://one/packagelist.txt".to_vec());
    assert_eq!(urls[1], b"https://two/packagelist.txt".to_vec());
}

#[test]
fn the_listing_file_name_is_stable() {
    assert_eq!(packagelist_file_name(), b"packagelist.txt".to_vec());
}
