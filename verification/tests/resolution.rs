use uwupm::errors::ResolveError;
use uwupm::index::PackageEntry;
use uwupm::queue::resolve;

fn entry(name: &[u8], url: &[u8]) -> PackageEntry {
    PackageEntry { name: name.to_vec(), url: url.to_vec() }
}

#[test]
fn missing_name_without_skip_fails_with_no_queue() {
    let index = vec![entry(b"a", b"http://s/1"), entry(b"b", b"http://s/2")];
    let requested = vec![b"a".to_vec(), b"c".to_vec()];
    let r = resolve(&index, &requested, false);
    match r {
        Err(ResolveError::PackagesUnavailable { missing }) => {
            assert_eq!(missing, vec![b"c".to_vec()]);
        }
        Ok(_) => panic!("resolution must fail when a name is missing and skip is off"),
    }
}

#[test]
fn missing_name_with_skip_queues_the_found_subset() {
    let index = vec![entry(b"a", b"http://s/1"), entry(b"b", b"http://s/2")];
    let requested = vec![b"a".to_vec(), b"c".to_vec()];
    let r = resolve(&index, &requested, true).unwrap();
    assert_eq!(r.queue.len(), 1);
    assert_eq!(r.queue[0].name, b"a".to_vec());
    assert_eq!(r.queue[0].url, b"http://s/1".to_vec());
    assert_eq!(r.missing, vec![b"c".to_vec()]);
}

#[test]
fn all_names_found_resolves_in_request_order() {
    let index = vec![entry(b"a", b"http://s/1"), entry(b"b", b"http://s/2")];
    let requested = vec![b"b".to_vec(), b"a".to_vec()];
    let r = resolve(&index, &requested, false).unwrap();
    assert_eq!(r.queue.len(), 2);
    assert_eq!(r.queue[0].name, b"b".to_vec());
    assert_eq!(r.queue[1].name, b"a".to_vec());
    assert!(r.missing.is_empty());
}

#[test]
fn first_index_match_wins_for_duplicate_names() {
    let index = vec![entry(b"a", b"http://first"), entry(b"a", b"http://second")];
    let requested = vec![b"a".to_vec()];
    let r = resolve(&index, &requested, false).unwrap();
    assert_eq!(r.queue.len(), 1);
    assert_eq!(r.queue[0].url, b"http://first".to_vec());
}

#[test]
fn requesting_a_name_twice_queues_it_twice() {
    let index = vec![entry(b"a", b"http://s/1")];
    let requested = vec![b"a".to_vec(), b"a".to_vec()];
    let r = resolve(&index, &requested, false).unwrap();
    assert_eq!(r.queue.len(), 2);
}

#[test]
fn resolve_error_code_is_stable() {
    let e = ResolveError::PackagesUnavailable { missing: vec![b"c".to_vec()] };
    assert_eq!(e.code(), "IP009");
}
