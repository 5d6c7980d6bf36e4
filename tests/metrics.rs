use thank_you_rocket::access::BanList;
use thank_you_rocket::metrics::{Metrics, UserMetric};

fn s(x: &str) -> String {
    x.to_string()
}

#[test]
fn record_request_creates_and_updates() {
    let mut m = Metrics::new();
    let ip = s("1.2.3.4");
    m.record_request(&ip, &s("/"), 10);
    m.record_request(&ip, &s("/view"), 20);
    let u = m.get(&ip).unwrap();
    assert_eq!(u.request_count, 2);
    assert_eq!(u.last_time_seen, Some(20));
    assert_eq!(u.last_page_visited, Some(s("/view")));
    assert_eq!(u.previous_pages.as_ref().unwrap().get_list(), &vec![s("/"), s("/view")]);
    assert_eq!(u.logins, Some(vec![]));
    assert_eq!(m.total_requests(), 2);
}

#[test]
fn banned_requests_are_not_counted() {
    let mut m = Metrics::new();
    let mut bans = BanList::new();
    bans.ban(&s("6.6.6.6"));
    assert!(m.on_request(&bans, &s("6.6.6.6"), &s("/"), 1));
    assert!(m.get(&s("6.6.6.6")).is_none());
    assert!(!m.on_request(&bans, &s("7.7.7.7"), &s("/"), 1));
    assert_eq!(m.get(&s("7.7.7.7")).unwrap().request_count, 1);
}

#[test]
fn logins_recorded_once() {
    let mut m = Metrics::new();
    let ip = s("1.2.3.4");
    m.record_login(&ip, &s("c1"));
    assert!(m.get(&ip).is_none());
    m.record_request(&ip, &s("/"), 1);
    m.record_login(&ip, &s("c1"));
    m.record_login(&ip, &s("c1"));
    m.record_login(&ip, &s("c2"));
    assert_eq!(m.get(&ip).unwrap().logins, Some(vec![s("c1"), s("c2")]));
}

#[test]
fn online_count_window() {
    let mut m = Metrics::new();
    m.record_request(&s("1.1.1.1"), &s("/"), 100);
    m.record_request(&s("2.2.2.2"), &s("/"), 700);
    m.record_request(&s("3.3.3.3"), &s("/"), 2000);
    m.insert_metric(s("4.4.4.4"), UserMetric {
        request_count: 7,
        logins: None,
        last_time_seen: None,
        last_page_visited: None,
        previous_pages: None,
    });
    assert_eq!(m.count_online(600, 1000), 2);
    assert_eq!(m.count_online(1000, 1000), 3);
    assert_eq!(m.total_requests(), 10);
    let u = m.get(&s("1.1.1.1")).unwrap();
    assert!(!u.is_online(600, 1000));
    assert_eq!(u.seconds_since_seen(1000), 900);
    m.record_request(&s("4.4.4.4"), &s("/x"), 1000);
    let u = m.get(&s("4.4.4.4")).unwrap();
    assert_eq!(u.request_count, 8);
    assert_eq!(u.previous_pages.as_ref().unwrap().get_list(), &vec![s("/x")]);
}

#[test]
fn request_count_saturates() {
    let mut m = Metrics::new();
    m.insert_metric(s("1.1.1.1"), UserMetric {
        request_count: u64::MAX,
        logins: None,
        last_time_seen: None,
        last_page_visited: None,
        previous_pages: None,
    });
    m.record_request(&s("1.1.1.1"), &s("/"), 1);
    assert_eq!(m.get(&s("1.1.1.1")).unwrap().request_count, u64::MAX);
    m.record_request(&s("2.2.2.2"), &s("/"), 1);
    assert_eq!(m.total_requests(), u64::MAX);
}

#[test]
fn busiest_first_orders_by_count() {
    let mut m = Metrics::new();
    m.record_request(&s("a"), &s("/"), 1);
    for _ in 0..3 {
        m.record_request(&s("b"), &s("/"), 1);
    }
    m.record_request(&s("c"), &s("/"), 1);
    m.record_request(&s("c"), &s("/"), 1);
    m.record_request(&s("d"), &s("/"), 1);
    assert_eq!(m.busiest_first(), vec![(s("b"), 3), (s("c"), 2), (s("a"), 1), (s("d"), 1)]);
    assert!(Metrics::new().busiest_first().is_empty());
}
