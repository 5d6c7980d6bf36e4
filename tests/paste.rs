use thank_you_rocket::paste::{decimal_string, new_paste_post, NewPaste, Paste, PasteContents, PasteError, PasteStore};

fn s(x: &str) -> String {
    x.to_string()
}

fn is_decimal(id: &str) -> bool {
    !id.is_empty() && id.chars().all(|c| c.is_ascii_digit()) && id.parse::<u64>().is_ok()
}

#[test]
fn same_text_same_id() {
    let mut store = PasteStore::new();
    let a = store.create_text(&s("hello world"), &s("1.1.1.1"), None, None, false, 10).unwrap();
    let b = store.create_text(&s("hello world"), &s("2.2.2.2"), Some(s("c")), None, false, 20).unwrap();
    assert_eq!(a, b);
    assert!(is_decimal(&a));
    assert_ne!(a, "hello world");
    assert_eq!(store.get_entries().len(), 1);
    let p = store.get(&a).unwrap();
    assert_eq!(p.ip_of_poster, "2.2.2.2");
    let c = store.create_text(&s("hello world!"), &s("1.1.1.1"), None, None, false, 10).unwrap();
    assert_ne!(a, c);
}

#[test]
fn alias_precedence() {
    let mut store = PasteStore::new();
    let id = store.create_text(&s("some paste text"), &s("1.1.1.1"), None, Some(&s("mypaste")), true, 1).unwrap();
    assert_eq!(id, "mypaste");
    assert!(store.contains(&s("mypaste")));
    assert_eq!(store.get_entries().len(), 1);
    let id2 = store.create_text(&s("other paste text"), &s("1.1.1.1"), None, Some(&s("mypaste")), true, 2).unwrap();
    assert_ne!(id2, "mypaste");
    let id3 = store.create_text(&s("third paste text"), &s("1.1.1.1"), None, Some(&s("free")), false, 3).unwrap();
    assert_ne!(id3, "free");
    match &store.get(&s("mypaste")).unwrap().content {
        PasteContents::PlainText(t) => assert_eq!(t, "some paste text"),
        PasteContents::File(_) => panic!("expected text"),
    }
}

#[test]
fn length_bounds() {
    let mut store = PasteStore::new();
    assert_eq!(store.create_text(&s("short"), &s("1.1.1.1"), None, None, false, 1), Err(PasteError::TooShort));
    assert_eq!(store.create_text(&"x".repeat(2001), &s("1.1.1.1"), None, None, false, 1), Err(PasteError::TooLarge));
    assert!(store.create_text(&"x".repeat(2000), &s("1.1.1.1"), None, None, false, 1).is_ok());
    assert!(store.create_text(&s("0123456789"), &s("1.1.1.1"), None, None, false, 1).is_ok());
    assert!(store.create_text(&s("x"), &s("1.1.1.1"), None, None, true, 1).is_ok());
    assert_eq!(store.get_entries().len(), 3);
}

#[test]
fn files_views_downloads_delete() {
    let mut store = PasteStore::new();
    let body = vec![1u8, 2, 3];
    let id = store.create_file(s("./up/a.bin"), false, &body, &s("1.1.1.1"), None, 100).unwrap();
    assert!(is_decimal(&id));
    assert_eq!(store.create_file(s("./up/a.bin"), true, &body, &s("1.1.1.1"), None, 100), Err(PasteError::AlreadyExists));
    let tid = store.create_file_from_text(s("./up/b.txt"), false, &s("file text"), &s("1.1.1.1"), None, 100).unwrap();
    assert!(is_decimal(&tid));
    let v = store.view_paste(&id, 150).unwrap();
    assert_eq!(v.view_count, 1);
    assert_eq!(v.time_of_last_view, 150);
    let d = store.download_paste(&id, 160).unwrap();
    assert_eq!(d.download_count, 1);
    assert_eq!(d.view_count, 1);
    assert_eq!(store.get(&id).unwrap().time_of_last_download, 160);
    assert!(store.view_paste(&s("missing"), 1).is_none());
    assert!(store.delete(&id));
    assert!(!store.delete(&id));
    assert!(store.get(&id).is_none());
}

#[test]
fn sweep_removes_stale() {
    let mut store = PasteStore::new();
    store.insert(s("old"), Paste::new(s("old text here"), &s("1.1.1.1"), None, 0));
    store.insert(s("new"), Paste::new(s("new text here"), &s("1.1.1.1"), None, 900));
    store.insert(s("future"), Paste::new(s("future text"), &s("1.1.1.1"), None, 5000));
    store.sweep_stale(500, 1000);
    assert!(!store.contains(&s("old")));
    assert!(store.contains(&s("new")));
    assert!(store.contains(&s("future")));
}

#[test]
fn paste_form() {
    let mut store = PasteStore::new();
    let form = NewPaste { text: s("a verified paste"), custom_url: Some(s("custom")) };
    assert_eq!(new_paste_post(&mut store, &form, &s("1.1.1.1"), None, true, 1), Ok(s("custom")));
    let form = NewPaste { text: s("another verified paste"), custom_url: Some(s("")) };
    let id = new_paste_post(&mut store, &form, &s("1.1.1.1"), None, true, 1).unwrap();
    assert_ne!(id, "");
    assert!(id.chars().all(|c| c.is_ascii_digit()));
    let form = NewPaste { text: s("tiny"), custom_url: None };
    assert_eq!(new_paste_post(&mut store, &form, &s("1.1.1.1"), None, false, 1), Err(PasteError::TooShort));
}

#[test]
fn decimal_ids() {
    assert_eq!(decimal_string(0), "0");
    assert_eq!(decimal_string(7), "7");
    assert_eq!(decimal_string(1234567890), "1234567890");
    assert_eq!(decimal_string(u64::MAX), u64::MAX.to_string());
}
