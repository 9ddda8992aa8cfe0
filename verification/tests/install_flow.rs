use uwupm::download::require_content_length;
use uwupm::errors::EntryError;
use uwupm::install::{aggregate, parse_install_args};

#[test]
fn flags_are_separated_from_package_names() {
    let args = vec![
        b"-s".to_vec(),
        b"foo".to_vec(),
        b"--no-confirm".to_vec(),
        b"bar".to_vec(),
    ];
    let req = parse_install_args(&args);
    assert_eq!(req.packages, vec![b"foo".to_vec(), b"bar".to_vec()]);
    assert!(req.skip_unavailable);
    assert!(req.no_confirm);
}

#[test]
fn long_and_short_flag_spellings_agree() {
    let args = vec![b"--skip".to_vec(), b"pkg".to_vec()];
    let req = parse_install_args(&args);
    assert!(req.skip_unavailable);
    assert!(!req.no_confirm);

    let args = vec![b"-y".to_vec(), b"pkg".to_vec()];
    let req = parse_install_args(&args);
    assert!(!req.skip_unavailable);
    assert!(req.no_confirm);

    let args = vec![b"pkg".to_vec()];
    let req = parse_install_args(&args);
    assert!(!req.skip_unavailable);
    assert!(!req.no_confirm);
}

#[test]
fn an_unrecognized_flag_is_not_a_package() {
    let args = vec![b"-q".to_vec(), b"pkg".to_vec()];
    let req = parse_install_args(&args);
    assert_eq!(req.packages, vec![b"pkg".to_vec()]);
    assert!(!req.skip_unavailable);
    assert!(!req.no_confirm);
}

#[test]
fn aggregate_succeeds_only_when_every_worker_did() {
    let all_good: Vec<Result<(), EntryError>> = vec![Ok(()), Ok(())];
    let outcome = aggregate(&all_good);
    assert!(outcome.success);
    assert!(outcome.wipe_staging);

    let one_bad: Vec<Result<(), EntryError>> =
        vec![Ok(()), Err(EntryError::Transport), Ok(())];
    let outcome = aggregate(&one_bad);
    assert!(!outcome.success);
    assert!(outcome.wipe_staging);
}

#[test]
fn aggregate_of_no_results_succeeds_and_still_wipes() {
    let results: Vec<Result<(), EntryError>> = Vec::new();
    let outcome = aggregate(&results);
    assert!(outcome.success);
    assert!(outcome.wipe_staging);
}

#[test]
fn rerunning_with_unchanged_results_reaches_the_same_outcome() {
    let results: Vec<Result<(), EntryError>> = vec![Ok(()), Err(EntryError::CorruptArchive)];
    let first = aggregate(&results);
    let second = aggregate(&results);
    assert_eq!(first.success, second.success);
    assert_eq!(first.wipe_staging, second.wipe_staging);
}

#[test]
fn content_length_is_required_before_streaming() {
    assert_eq!(require_content_length(Some(17)), Ok(17));
    assert_eq!(
        require_content_length(None),
        Err(EntryError::ContentLengthUnknown)
    );
    assert_eq!(EntryError::ContentLengthUnknown.code(), "DW010");
}
