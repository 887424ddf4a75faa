use obrewin::levels::{Level, PRICE_MAX, PRICE_MIN};
use obrewin::market::{split_best, validate_levels, Orderbook, UnsizedOrderbook};
use obrewin::utils::WrappedIterator;

fn collect(mut it: WrappedIterator<Level>) -> Vec<Level> {
    let mut out = Vec::new();
    while let Some(level) = it.next() {
        out.push(level);
    }
    out
}

fn sample_book() -> UnsizedOrderbook {
    let mut book = UnsizedOrderbook::new();
    book.apply_delta(101, 3, true);
    book.apply_delta(100, 5, true);
    book.apply_delta(98, 4, false);
    book.apply_delta(99, 2, false);
    book
}

#[test]
fn empty_book_reports_sentinels() {
    let book = UnsizedOrderbook::new();
    let (ap, aq, rest_a) = book.best_ask();
    assert_eq!((ap, aq), (PRICE_MIN, 0));
    assert!(collect(rest_a).is_empty());
    let (bp, bq, rest_b) = book.best_bid();
    assert_eq!((bp, bq), (PRICE_MAX, 0));
    assert!(collect(rest_b).is_empty());
    assert!(book.validate());
}

#[test]
fn default_book_is_empty() {
    let book = UnsizedOrderbook::default();
    assert!(collect(book.iter_ask()).is_empty());
    assert!(collect(book.iter_bid()).is_empty());
}

#[test]
fn sample_book_validates_and_iterates_in_order() {
    let book = sample_book();
    assert!(book.validate());
    assert_eq!(collect(book.iter_ask()), vec![(100, 5), (101, 3)]);
    assert_eq!(collect(book.iter_bid()), vec![(99, 2), (98, 4)]);
}

#[test]
fn best_levels_return_the_rest() {
    let book = sample_book();
    let (ap, aq, rest_a) = book.best_ask();
    assert_eq!((ap, aq), (100, 5));
    assert_eq!(collect(rest_a), vec![(101, 3)]);
    let (bp, bq, rest_b) = book.best_bid();
    assert_eq!((bp, bq), (99, 2));
    assert_eq!(collect(rest_b), vec![(98, 4)]);
}

#[test]
fn stale_zero_level_fails_validation() {
    let mut book = UnsizedOrderbook::new();
    book.apply_delta(100, 5, true);
    book.apply_delta(100, -5, true);
    assert_eq!(collect(book.iter_ask()), vec![(100, 0)]);
    assert!(!book.validate());
}

#[test]
fn zero_level_deeper_in_book_fails_validation() {
    let mut book = sample_book();
    book.apply_delta(98, -4, false);
    assert!(!book.validate());
}

#[test]
fn crossed_book_fails_validation() {
    let mut book = UnsizedOrderbook::new();
    book.apply_delta(99, 1, true);
    book.apply_delta(100, 1, false);
    assert!(!book.validate());
}

#[test]
fn touching_book_validates() {
    let mut book = UnsizedOrderbook::new();
    book.apply_delta(100, 1, true);
    book.apply_delta(100, 1, false);
    assert!(book.validate());
}

#[test]
fn one_sided_books_validate() {
    let mut asks_only = UnsizedOrderbook::new();
    asks_only.apply_delta(100, 1, true);
    assert!(asks_only.validate());
    let mut bids_only = UnsizedOrderbook::new();
    bids_only.apply_delta(100, 1, false);
    assert!(bids_only.validate());
}

#[test]
fn positive_uncrossed_deltas_validate() {
    let mut book = UnsizedOrderbook::new();
    for i in 0..50i128 {
        book.apply_delta(200 + i, 1 + i, true);
        book.apply_delta(199 - i, 2 + i, false);
        book.apply_delta(200 + (i % 7), 3, true);
    }
    assert!(book.validate());
}

#[test]
fn delta_round_trip_keeps_quantity() {
    let mut book = sample_book();
    book.apply_delta(100, 7, true);
    assert_eq!(book.best_ask().1, 12);
    book.apply_delta(100, -7, true);
    assert_eq!(collect(book.iter_ask()), vec![(100, 5), (101, 3)]);
    assert_eq!(collect(book.iter_bid()), vec![(99, 2), (98, 4)]);
    assert!(book.validate());
}

#[test]
fn many_random_deltas_never_panic() {
    let mut book = UnsizedOrderbook::new();
    let mut state: u64 = 0x2545_f491_4f6c_dd1d;
    for _ in 0..10_000 {
        state = state.wrapping_mul(6_364_136_223_846_793_005).wrapping_add(1_442_695_040_888_963_407);
        let price = ((state >> 33) % 1_000) as i128;
        let size = ((state >> 13) % 100) as i128 + 1;
        let quantity = if (state >> 7) & 1 == 0 { size } else { -size };
        let is_ask = (state >> 3) & 1 == 0;
        book.apply_delta(price, quantity, is_ask);
    }
    let _ = book.validate();
}

fn levels(items: Vec<Level>) -> WrappedIterator<Level> {
    WrappedIterator::new(items)
}

#[test]
fn out_of_order_asks_fail_validation() {
    assert!(!validate_levels(levels(vec![(101, 1), (100, 1)]), levels(vec![])));
    assert!(validate_levels(levels(vec![(100, 1), (101, 1)]), levels(vec![])));
}

#[test]
fn out_of_order_bids_fail_validation() {
    assert!(!validate_levels(levels(vec![]), levels(vec![(98, 1), (99, 1)])));
    assert!(validate_levels(levels(vec![]), levels(vec![(99, 1), (98, 1)])));
}

#[test]
fn equal_adjacent_prices_pass_ordering() {
    assert!(validate_levels(levels(vec![(100, 1), (100, 2)]), levels(vec![(90, 1), (90, 2)])));
}

#[test]
fn ask_at_sentinel_price_counts_as_absent() {
    assert!(validate_levels(levels(vec![(PRICE_MIN, 0)]), levels(vec![(100, 1)])));
    assert!(validate_levels(levels(vec![(100, 1)]), levels(vec![(PRICE_MAX, 0)])));
}

#[test]
fn split_best_takes_first_or_sentinel() {
    let (p, q, rest) = split_best(levels(vec![(5, 6), (7, 8)]), PRICE_MIN);
    assert_eq!((p, q), (5, 6));
    assert_eq!(collect(rest), vec![(7, 8)]);
    let (p, q, rest) = split_best(levels(vec![]), PRICE_MAX);
    assert_eq!((p, q), (PRICE_MAX, 0));
    assert!(collect(rest).is_empty());
}
