use thank_you_rocket::common::{is_ip_valid, PreviousRequestsList};

#[test]
fn test_req_list() {
    let mut list = PreviousRequestsList::new(4);

    list.push("fake request 1");
    list.push("fake request 2");
    list.push("fake request 3");
    list.push("fake request 4");

    assert_eq!(list.get_list().len(), 4);

    list.push("fake request 5");

    assert_eq!(list.get_list().len(), 4);

    assert_eq!(list.get(0).unwrap(), "fake request 2");
    assert_eq!(list.get(1).unwrap(), "fake request 3");

    list.push("fake request 6");

    assert_eq!(list.get(0).unwrap(), "fake request 3");
    assert_eq!(list.get(1).unwrap(), "fake request 4");
}

#[test]
fn test_valid_ips() {
    let invalid_ips = [
        "12.56.78",
        "-3.254.100.88",
        "256.122.80.23",
        "129.300..00",
        "1..2.3.4",
    ];

    for ip in invalid_ips {
        assert!(!is_ip_valid(ip));
    }

    let valid_ips = [
        "12.94.122.150",
        "98.124.74.1",
        "17.38.42.56",
        "67.184.56.122",
    ];

    for ip in valid_ips {
        assert!(is_ip_valid(ip));
    }

    for a in -100..=300 {
        let ip1 = format!("67.67.67.{}", a);
        let ip2 = format!("67.67.{}.67", a);
        let ip3 = format!("67.{}.67.67", a);
        let ip4 = format!("{}.67.67.67", a);
        let ip5 = format!("{0}.{0}.{0}.{0}", a);

        let should_be_valid = (0..=255).contains(&a);

        assert_eq!(should_be_valid, is_ip_valid(&ip1));
        assert_eq!(should_be_valid, is_ip_valid(&ip2));
        assert_eq!(should_be_valid, is_ip_valid(&ip3));
        assert_eq!(should_be_valid, is_ip_valid(&ip4));
        assert_eq!(should_be_valid, is_ip_valid(&ip5));
    }
}

#[test]
fn bounded_history_keeps_last_three() {
    let mut list = PreviousRequestsList::new(3);
    list.push("/a");
    list.push("/b");
    list.push("/c");
    list.push("/d");
    assert_eq!(list.get_list(), &vec!["/b".to_string(), "/c".to_string(), "/d".to_string()]);
    assert_eq!(list.len(), 3);
    assert!(list.get(3).is_none());
}

#[test]
fn bounded_history_with_zero_limit_stays_empty() {
    let mut list = PreviousRequestsList::new(0);
    list.push("/a");
    assert_eq!(list.len(), 0);
    assert!(list.get(0).is_none());
}

#[test]
fn bounded_history_from_parts_keeps_newest() {
    let items = vec!["/1".to_string(), "/2".to_string(), "/3".to_string(), "/4".to_string()];
    let list = PreviousRequestsList::from_parts(items, 2);
    assert_eq!(list.get_list(), &vec!["/3".to_string(), "/4".to_string()]);
    assert_eq!(list.limit_value(), 2);
}

#[test]
fn ip_validation_edge_cases() {
    assert!(is_ip_valid("0.0.0.0"));
    assert!(is_ip_valid("255.255.255.255"));
    assert!(is_ip_valid("+1.2.3.4"));
    assert!(is_ip_valid("001.002.003.004"));
    assert!(!is_ip_valid(""));
    assert!(!is_ip_valid("1.2.3.4.5"));
    assert!(!is_ip_valid("1.2.3."));
    assert!(!is_ip_valid("a.b.c.d"));
    assert!(!is_ip_valid("not-an-ip"));
    assert!(!is_ip_valid("1.2.3.4 "));
    assert!(!is_ip_valid("1.2.3.+"));
}
