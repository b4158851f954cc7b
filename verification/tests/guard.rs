use kf2_map_install::{Disposal, DownloadFile};
use std::collections::HashMap;

/// Carries out what a guard decides at release, on a directory in memory.
fn let_go(guard: &DownloadFile, dir: &mut HashMap<String, Vec<u8>>) {
    let exists = dir.contains_key(guard.destination());
    if guard.release(exists) == Disposal::Remove {
        dir.remove(guard.destination());
    }
}

#[test]
fn fresh_guard_is_not_complete() {
    let guard = DownloadFile::acquire(String::from("KF-Test.kfm"));
    assert!(!guard.is_complete());
    assert_eq!(guard.destination(), "KF-Test.kfm");
}

#[test]
fn partial_file_is_removed_when_transfer_failed() {
    let mut dir: HashMap<String, Vec<u8>> = HashMap::new();
    let guard = DownloadFile::acquire(String::from("KF-Test.kfm"));
    let file = dir.entry(String::from("KF-Test.kfm")).or_default();
    file.extend_from_slice(&[1, 2, 3]);
    file.extend_from_slice(&[4, 5]);
    // the third chunk fails; the guard is released without being marked
    let_go(&guard, &mut dir);
    assert!(!dir.contains_key("KF-Test.kfm"));
}

#[test]
fn complete_file_is_kept_with_its_bytes() {
    let mut dir: HashMap<String, Vec<u8>> = HashMap::new();
    let mut guard = DownloadFile::acquire(String::from("KF-Test.kfm"));
    dir.insert(String::from("KF-Test.kfm"), vec![9, 8, 7, 6]);
    guard.mark_complete();
    assert!(guard.is_complete());
    let_go(&guard, &mut dir);
    assert_eq!(dir.get("KF-Test.kfm"), Some(&vec![9, 8, 7, 6]));
}

#[test]
fn release_without_a_file_removes_nothing() {
    let guard = DownloadFile::acquire(String::from("KF-Test.kfm"));
    assert_eq!(guard.release(false), Disposal::Keep);
    assert_eq!(guard.release(true), Disposal::Remove);
}

#[test]
fn release_of_a_complete_guard_always_keeps() {
    let mut guard = DownloadFile::acquire(String::from("KF-Test.kfm"));
    guard.mark_complete();
    assert_eq!(guard.release(false), Disposal::Keep);
    assert_eq!(guard.release(true), Disposal::Keep);
}

#[test]
fn other_files_are_left_alone() {
    let mut dir: HashMap<String, Vec<u8>> = HashMap::new();
    dir.insert(String::from("KF-Other.kfm"), vec![1]);
    dir.insert(String::from("KF-Test.kfm"), vec![2]);
    let guard = DownloadFile::acquire(String::from("KF-Test.kfm"));
    let_go(&guard, &mut dir);
    assert_eq!(dir.len(), 1);
    assert_eq!(dir.get("KF-Other.kfm"), Some(&vec![1]));
}
