use obrewin::misc::DateTimeUTC;
use obrewin::order::{OrderResponse, OrderResponseStatus};
use obrewin::utils::{IntoOption, WrapIterator, WrappedIterator};

#[test]
fn wrapped_iterator_yields_in_order() {
    let mut it = WrappedIterator::new(vec![1u8, 2, 3]);
    assert_eq!(it.next(), Some(1));
    assert_eq!(it.next(), Some(2));
    assert_eq!(it.next(), Some(3));
    assert_eq!(it.next(), None);
    assert_eq!(it.next(), None);
}

#[test]
fn wrap_iter_keeps_items() {
    let mut it = vec![(1i128, 2i128)].wrap_iter();
    assert_eq!(it.next(), Some((1, 2)));
    assert_eq!(it.next(), None);
}

#[test]
fn into_option_converts_or_gives_none() {
    let fits: Option<u8> = 200i32.into_option();
    assert_eq!(fits, Some(200));
    let too_big: Option<u8> = 300i32.into_option();
    assert_eq!(too_big, None);
}

#[test]
fn timestamp_parts_round_trip() {
    let d = DateTimeUTC::from_timestamp(1_700_000_000, 123).unwrap();
    assert_eq!(d.timestamp(), 1_700_000_000);
    assert_eq!(d.timestamp_subsec_nanos(), 123);
    let back = DateTimeUTC::from_parts(d.to_parts()).unwrap();
    assert_eq!(back.to_parts(), (1_700_000_000, 123));
}

#[test]
fn timestamp_out_of_range_is_refused() {
    assert!(DateTimeUTC::from_timestamp(0, 2_000_000_000).is_none());
    assert!(DateTimeUTC::from_timestamp(i64::MAX, 0).is_none());
    assert!(DateTimeUTC::from_timestamp(0, 1_500_000_000).is_none());
    assert!(DateTimeUTC::from_timestamp(59, 1_500_000_000).is_some());
}

#[test]
fn notional_value_of_fill_and_others() {
    let filled = OrderResponse {
        status: OrderResponseStatus::Filled { executed_price: 250, executed_quantity: -4 },
        client_order_id: "a".to_string(),
    };
    assert_eq!(filled.notional_value(), -1000);
    let rejected = OrderResponse {
        status: OrderResponseStatus::Rejected { code: Some(3), message: None },
        client_order_id: "b".to_string(),
    };
    assert_eq!(rejected.notional_value(), 0);
    let accepted = OrderResponse { status: OrderResponseStatus::Accepted, client_order_id: "c".to_string() };
    assert_eq!(accepted.notional_value(), 0);
}
