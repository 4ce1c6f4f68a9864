use web_link::device::FileInfo;
use web_link::error::{NormalizedError, normalize};

#[test]
fn failure_text_is_kept() {
    let e = NormalizedError::from_description(String::from("input/output error (5)"));
    assert_eq!(e.message(), "input/output error (5)");
}

#[test]
fn empty_failure_text_still_surfaces() {
    let e = NormalizedError::from_description(String::new());
    assert!(!e.message().is_empty());
    assert_eq!(e.message(), "device reported an unspecified failure");
}

#[test]
fn success_passes_through_untouched() {
    let r: Result<u32, NormalizedError> = normalize(Ok(7));
    assert_eq!(r.unwrap(), 7);
}

#[test]
fn empty_listing_is_a_success_not_an_error() {
    // A directory with no entries comes back as an empty ordered sequence.
    let r: Result<Vec<FileInfo>, NormalizedError> = normalize(Ok(Vec::new()));
    assert_eq!(r.unwrap(), Vec::new());
}

#[test]
fn every_failure_surfaces_nonempty_text() {
    for text in ["device is busy", "permission denied", ""] {
        let r: Result<(), NormalizedError> = normalize(Err(String::from(text)));
        match r {
            Ok(_) => panic!("a collaborator failure must not become a success"),
            Err(e) => assert!(!e.message().is_empty()),
        }
    }
}
