use kf2_map_install::{percent, render, ProgressBar, TransferProgress};

#[test]
fn render_nothing_done() {
    assert_eq!(render(0, 100), "[--------------------]0%");
}

#[test]
fn render_all_done() {
    assert_eq!(render(100, 100), "[====================]100%");
}

#[test]
fn render_half_done() {
    assert_eq!(render(50, 100), "[==========----------]50%");
}

#[test]
fn render_two_of_five_rounds_to_forty() {
    assert_eq!(percent(2, 5), 40);
    assert_eq!(render(2, 5), "[========------------]40%");
}

#[test]
fn percent_rounds_halves_up() {
    assert_eq!(percent(1, 200), 1);
    assert_eq!(percent(1, 201), 0);
    assert_eq!(percent(1, 3), 33);
    assert_eq!(percent(2, 3), 67);
    assert_eq!(percent(199, 200), 100);
}

#[test]
fn percent_of_largest_values_does_not_overflow() {
    assert_eq!(percent(u64::MAX, u64::MAX), 100);
    assert_eq!(percent(u64::MAX, 1), 100 * (u64::MAX as u128));
}

#[test]
fn bar_stays_full_beyond_the_total() {
    assert_eq!(render(150, 100), "[====================]150%");
}

#[test]
fn progress_bar_renders_like_render() {
    let bar = ProgressBar { current: 7, total: 9 };
    assert_eq!(bar.render(), render(7, 9));
    assert_eq!(bar.render(), "[===============-----]78%");
}

#[test]
fn transfer_progress_with_total_draws_bar() {
    let mut progress = TransferProgress::new(Some(2048));
    assert_eq!(progress.render(), "[--------------------]0%");
    progress.record(1024);
    assert_eq!(progress.render(), "[==========----------]50%");
    progress.record(2048);
    assert_eq!(progress.render(), "[====================]100%");
}

#[test]
fn transfer_progress_without_total_counts_bytes() {
    let mut progress = TransferProgress::new(None);
    assert_eq!(progress.render(), "0");
    progress.record(65536);
    assert_eq!(progress.render(), "65536");
    progress.record(u64::MAX);
    assert_eq!(progress.render(), "18446744073709551615");
}

#[test]
fn transfer_progress_with_zero_total_counts_bytes() {
    let mut progress = TransferProgress::new(Some(0));
    progress.record(12);
    assert_eq!(progress.render(), "12");
}

#[test]
fn transfer_progress_never_goes_back() {
    let mut progress = TransferProgress::new(Some(10));
    progress.record(6);
    progress.record(4);
    assert_eq!(progress.bytes_transferred(), 6);
    assert_eq!(progress.total_bytes(), Some(10));
}

#[test]
fn bar_is_drawn_against_a_total_above_zero_only() {
    assert_eq!(TransferProgress::new(Some(9)).bar_total(), Some(9));
    assert_eq!(TransferProgress::new(Some(0)).bar_total(), None);
    assert_eq!(TransferProgress::new(None).bar_total(), None);
}
