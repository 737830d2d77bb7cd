use tpbackup::estimator::{detect_last_item, Estimate};
use tpbackup::sim::SimCollection;

fn collection(n: usize) -> SimCollection {
    SimCollection { items: (0..n).map(|i| i.to_string()).collect(), fail_at: None }
}

// The search returns the exact collection size, whichever phase it ends in.

#[test]
fn empty_collection_estimates_zero() {
    assert_eq!(detect_last_item(&collection(0)), 0);
}

#[test]
fn single_item_collection_is_exact() {
    assert_eq!(detect_last_item(&collection(1)), 1);
}

#[test]
fn size_at_initial_guess_is_exact() {
    assert_eq!(detect_last_item(&collection(500)), 500);
}

#[test]
fn size_just_past_initial_guess_is_exact() {
    // The first probe at 500 is the last item's offset: the expanding phase
    // returns the full size directly.
    assert_eq!(detect_last_item(&collection(501)), 501);
}

#[test]
fn large_collection_requires_doublings() {
    assert_eq!(detect_last_item(&collection(10000)), 10000);
}

#[test]
fn doubled_guess_boundary_is_exact() {
    assert_eq!(detect_last_item(&collection(1001)), 1001);
}

#[test]
fn small_collection_is_exact() {
    assert_eq!(detect_last_item(&collection(42)), 42);
}

#[test]
fn search_starts_by_probing_the_initial_guess() {
    let e = Estimate::start();
    assert_eq!(e.probe(), Some(500));
    assert_eq!(e.result(), None);
}

#[test]
fn search_doubles_while_pages_continue() {
    let e = Estimate::start();
    // Non-empty page with a next cursor: expand.
    let e = e.step(1, true);
    assert_eq!(e.probe(), Some(1000));
    // Empty page: switch to bisecting between 500 and 1000.
    let e = e.step(0, false);
    assert_eq!(e.probe(), Some(750));
}

#[test]
fn search_ends_on_a_last_page_without_next() {
    let e = Estimate::start();
    // Non-empty page at 500 without a next cursor: the size is 501.
    let e = e.step(1, false);
    assert_eq!(e.result(), Some(501));
    assert_eq!(e.probe(), None);
}
