use node_protocol::ident::decimal_string;
use node_protocol::ident::generate_id;

#[test]
fn decimal_of_small_numbers() {
    assert_eq!(decimal_string(0), "0");
    assert_eq!(decimal_string(7), "7");
    assert_eq!(decimal_string(9), "9");
    assert_eq!(decimal_string(10), "10");
    assert_eq!(decimal_string(11), "11");
    assert_eq!(decimal_string(100), "100");
    assert_eq!(decimal_string(1005), "1005");
}

#[test]
fn decimal_writes_every_digit() {
    assert_eq!(decimal_string(1234567890), "1234567890");
}

#[test]
fn decimal_of_the_largest_number() {
    assert_eq!(decimal_string(usize::MAX), usize::MAX.to_string());
}

#[test]
fn decimal_agrees_with_the_standard_library() {
    let mut n: usize = 1;
    for _ in 0..19 {
        assert_eq!(decimal_string(n), n.to_string());
        assert_eq!(decimal_string(n - 1), (n - 1).to_string());
        assert_eq!(decimal_string(n + 1), (n + 1).to_string());
        n = n.saturating_mul(10);
    }
}

#[test]
fn identifier_is_name_dash_counter() {
    assert_eq!(generate_id("n3", 1), "n3-1");
    assert_eq!(generate_id("n3", 0), "n3-0");
    assert_eq!(generate_id("n12", 340), "n12-340");
    assert_eq!(generate_id("", 5), "-5");
}

#[test]
fn identifier_keeps_a_name_with_dashes_apart() {
    assert_eq!(generate_id("n-1", 2), "n-1-2");
    assert_ne!(generate_id("n-1", 2), generate_id("n", 12));
    assert_ne!(generate_id("n1", 1), generate_id("n", 11));
}

#[test]
fn identifiers_of_one_node_differ() {
    let mut seen = std::collections::HashSet::new();
    for counter in 0..500 {
        assert!(seen.insert(generate_id("n1", counter)));
    }
}

#[test]
fn identifiers_of_two_nodes_differ_at_equal_counters() {
    for counter in 0..200 {
        assert_ne!(generate_id("n1", counter), generate_id("n2", counter));
        assert_ne!(generate_id("n1", counter), generate_id("n11", counter));
    }
}
