use openc3_cosmos_app::precedence::{order_versions, Order};

#[test]
fn versions_go_as_semantic_versioning_says() {
    let list = [
        "0.9.9",
        "1.0.0-alpha",
        "1.0.0-alpha.1",
        "1.0.0-alpha.beta",
        "1.0.0-beta",
        "1.0.0-beta.2",
        "1.0.0-beta.11",
        "1.0.0-beta.99999999999999999999999",
        "1.0.0-rc.1",
        "1.0.0",
        "1.0.1-0",
        "1.0.1",
    ];
    for (i, a) in list.iter().enumerate() {
        for (j, b) in list.iter().enumerate() {
            let expected = if i < j {
                Order::Before
            } else if i > j {
                Order::After
            } else {
                Order::Same
            };
            assert_eq!(order_versions(a, b), expected, "{a} {b}");
        }
    }
}

#[test]
fn build_suffix_does_not_count() {
    assert_eq!(order_versions("1.0.0+a", "1.0.0+b-c"), Order::Same);
    assert_eq!(order_versions("1.0.0-rc1+a", "1.0.0-rc1"), Order::Same);
    assert_eq!(order_versions("1.0.0+a", "1.0.0-rc1"), Order::After);
}

#[test]
fn numbers_in_a_suffix_count_by_their_value() {
    assert_eq!(order_versions("1.0.0-9", "1.0.0-10"), Order::Before);
    assert_eq!(order_versions("1.0.0-007", "1.0.0-7"), Order::Same);
    assert_eq!(order_versions("1.0.0-10", "1.0.0-1a"), Order::Before);
    assert_eq!(order_versions("1.0.0-rc10", "1.0.0-rc9"), Order::Before);
    assert_eq!(order_versions("1.0.0-", "1.0.0"), Order::Before);
}
