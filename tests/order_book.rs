use std::collections::HashMap;
use trade_pipeline::exchange::{Order, Pair};
use trade_pipeline::okex::calculate_size_increment;
use trade_pipeline::order_book::{add_to_ask_orders, add_to_bid_orders, create_updated_pair};

fn o(price: u64, amount: u64) -> Order {
    Order { price, amount }
}

#[test]
fn calculate_size_increment_test() {
    assert_eq!(Some(3), calculate_size_increment(&String::from("0.001")));
    assert_eq!(Some(0), calculate_size_increment(&String::from("1")));
    assert_eq!(Some(0), calculate_size_increment(&String::from("10")));
    assert_eq!(Some(2), calculate_size_increment(&String::from("0.01")));
}

#[test]
fn size_increment_with_too_many_places_is_none() {
    let long = format!("0.{}", "1".repeat(128));
    assert_eq!(None, calculate_size_increment(&long));
    let edge = format!("0.{}", "1".repeat(127));
    assert_eq!(Some(127), calculate_size_increment(&edge));
}

#[test]
fn unit_test_add_to_ask_orders() {
    let mut orders = vec![o(0, 1), o(1, 2), o(3, 1)];
    add_to_ask_orders(&mut orders, o(2, 1));
    assert_eq!(vec![o(0, 1), o(1, 2), o(2, 1), o(3, 1)], orders);

    let mut orders = vec![o(0, 1), o(1, 2), o(2, 1)];
    add_to_ask_orders(&mut orders, o(2, 2));
    assert_eq!(vec![o(0, 1), o(1, 2), o(2, 2)], orders);

    let mut orders = vec![o(0, 1), o(1, 2), o(2, 1), o(3, 1)];
    add_to_ask_orders(&mut orders, o(2, 0));
    assert_eq!(vec![o(0, 1), o(1, 2), o(3, 1)], orders);
}

#[test]
fn unit_test_add_to_bid_orders() {
    let mut orders = vec![o(3, 1), o(1, 2), o(0, 1)];
    add_to_bid_orders(&mut orders, o(2, 1));
    assert_eq!(vec![o(3, 1), o(2, 1), o(1, 2), o(0, 1)], orders);
}

#[test]
fn zero_amount_for_unknown_price_leaves_book() {
    let mut orders = vec![o(1, 1), o(3, 1)];
    add_to_ask_orders(&mut orders, o(2, 0));
    assert_eq!(vec![o(1, 1), o(3, 1)], orders);
    add_to_ask_orders(&mut orders, o(9, 4));
    assert_eq!(vec![o(1, 1), o(3, 1), o(9, 4)], orders);
}

#[test]
fn updated_pair_merges_into_stored_books() {
    let mut store: HashMap<u128, Pair> = HashMap::new();
    let first = create_updated_pair(&mut store, 7, vec![o(5, 1), o(4, 1)], vec![o(6, 1)]);
    assert_eq!(Pair { id: 7, bid_orders: vec![o(5, 1), o(4, 1)], ask_orders: vec![o(6, 1)] }, first);
    let second = create_updated_pair(&mut store, 7, vec![o(5, 0), o(3, 2)], vec![o(7, 1)]);
    assert_eq!(Pair { id: 7, bid_orders: vec![o(4, 1), o(3, 2)], ask_orders: vec![o(6, 1), o(7, 1)] }, second);
    assert_eq!(second, store[&7]);
}
