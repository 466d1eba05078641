//! The runtime dispatch model: probe order, extraction modes, and the
//! exhaustiveness-failure outcome.

use enum_typer::dispatch::{dispatch_move, dispatch_ref, first_match, Handle};

#[test]
fn test_first_probe_wins() {
    // Two probes could both match the handle's variant; the earlier arm's
    // body is the one reached.
    let probes = vec![3u64, 7, 3];
    assert_eq!(first_match(&probes, 3), Some(0));
    assert_eq!(first_match(&probes, 7), Some(1));
    assert_eq!(first_match(&probes, 9), None);
}

#[test]
fn test_unique_arm_reached_in_both_modes() {
    // A record dispatched against an arm list with exactly one arm for its
    // variant reaches that arm, borrowed or transferred.
    let probes = vec![0u64, 1, 2];
    let h = Handle { tag: 1u64, payload: 41i64 };
    let (idx, payload) = dispatch_ref(&h, &probes).unwrap();
    assert_eq!(idx, 1);
    assert_eq!(*payload, 41);
    let (idx2, owned) = dispatch_move(h, &probes).unwrap();
    assert_eq!(idx2, 1);
    assert_eq!(owned, 41);
}

#[test]
fn test_exhaustiveness_failure() {
    // Dispatching a handle against an arm list omitting its actual variant
    // reports the miss instead of silently continuing or returning a
    // default; a transferred handle comes back unconsumed.
    let probes = vec![0u64, 1];
    let h = Handle { tag: 5u64, payload: String::from("kept") };
    assert!(dispatch_ref(&h, &probes).is_none());
    match dispatch_move(h, &probes) {
        Ok(_) => panic!("a miss must not extract"),
        Err(back) => {
            assert_eq!(back.tag, 5);
            assert_eq!(back.payload, "kept");
        },
    }
}
