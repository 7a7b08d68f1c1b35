use n5011_bot::nodelist::{from_nodelist, from_nodelist_with_prefix, Node};

fn node(addr: &str, name: &str) -> Node {
    Node {
        addr: String::from(addr),
        name: String::from(name),
        telegram_name: None,
        telegram_login: None,
        user_id: 42,
    }
}

#[test]
fn empty_list_gives_the_fixed_text() {
    assert_eq!(from_nodelist(Vec::new()), "empty directory list");
}

#[test]
fn node_with_its_point_gives_one_entry() {
    let list = vec![node("2:5011/102", "Alice"), node("2:5011/102.1", "Alice")];
    assert_eq!(from_nodelist(list), "Alice, 2:5011/102");
}

#[test]
fn prefix_is_taken_off_all_but_the_first() {
    let list = vec![
        node("2:5011/103", "Alice"),
        node("2:5011/102.1", "Alice"),
        node("2:5011/102", "Alice"),
        node("2:5020/400", "Alice"),
    ];
    assert_eq!(from_nodelist(list), "Alice, 2:5011/102, 103, 2:5020/400");
}

#[test]
fn another_prefix_can_be_configured() {
    let list = vec![node("1:2/3", "Bob"), node("1:2/4", "Bob")];
    assert_eq!(from_nodelist_with_prefix(&list, "1:2/"), "Bob, 1:2/3, 4");
}

#[test]
fn sort_key_is_primary_and_point() {
    let key = |a: &str| node(a, "x").addr_struct();
    assert_eq!(key("2:5011/102"), (102, 0));
    assert_eq!(key("2:5011/102.7"), (102, 7));
    assert_eq!(key("2:5011/+102.007"), (102, 7));
    assert_eq!(key("2:5011"), (0, 0));
    assert_eq!(key(""), (0, 0));
    assert_eq!(key("2:5011/abc"), (0, 0));
    assert_eq!(key("2:5011/abc.5"), (0, 5));
    assert_eq!(key("2:5011/12.x"), (12, 0));
    assert_eq!(key("2:5011/1.2.3"), (0, 0));
    assert_eq!(key("a.b/7"), (0, 7));
    assert_eq!(key("2:5011/"), (0, 0));
    assert_eq!(key("2:5011/99999999999999999999999999"), (0, 0));
}

#[test]
fn records_compare_by_key() {
    let a = node("2:5011/102", "x");
    let b = node("2:5011/102.1", "x");
    let c = node("2:5011/103", "x");
    let d = node("2:5020/102", "x");
    assert!(a.not_after(&b) && !b.not_after(&a));
    assert!(b.not_after(&c) && !c.not_after(&b));
    assert!(a.not_after(&d) && d.not_after(&a));
    assert!(!a.same_addr(&d));
    assert!(a.same_addr(&node("2:5011/102", "y")));
}

#[test]
fn order_of_the_records_does_not_show() {
    let addrs = ["2:5011/102", "2:5011/102.1", "2:5011/102.2", "2:5011/7", "2:5020/400.3"];
    let expected = "Alice, 2:5011/7, 102, 2:5020/400.3";
    let orders: [[usize; 5]; 4] = [[0, 1, 2, 3, 4], [4, 3, 2, 1, 0], [2, 0, 4, 1, 3], [1, 4, 0, 3, 2]];
    for order in orders {
        let list: Vec<Node> = order.iter().map(|&i| node(addrs[i], "Alice")).collect();
        assert_eq!(from_nodelist(list), expected);
    }
}

#[test]
fn addresses_of_equal_key_keep_their_order() {
    let list = vec![node("2:5020/5", "A"), node("2:5011/5", "A"), node("bad", "A")];
    assert_eq!(from_nodelist(list), "A, bad, 2:5020/5, 5");
    let list = vec![node("2:5011/5", "A"), node("2:5020/5", "A")];
    assert_eq!(from_nodelist(list), "A, 2:5011/5, 2:5020/5");
}

#[test]
fn node_with_many_points_gives_one_entry() {
    let mut list = Vec::new();
    for p in (1..=9).rev() {
        list.push(node(&format!("2:5011/102.{}", p), "Alice"));
    }
    list.insert(4, node("2:5011/102", "Alice"));
    assert_eq!(from_nodelist(list), "Alice, 2:5011/102");
}

#[test]
fn header_is_the_first_records_name() {
    let list = vec![node("2:5011/9", "First"), node("2:5011/1", "Second")];
    assert_eq!(from_nodelist(list), "First, 2:5011/1, 9");
}
