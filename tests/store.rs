use llamatrix::store::Store;

#[test]
fn take_makes_a_fresh_session_and_put_keeps_it() {
    let mut s = Store::new("m".to_string(), "http://h".to_string());
    let id = "room".to_string();
    assert!(!s.contains(&id));
    let mut c = s.take_or_create(&id);
    assert!(c.ctx().messages().is_empty());
    assert_eq!(c.ctx().model(), "m");
    assert_eq!(c.url(), "http://h");
    c.message("hi".to_string());
    s.put(id.clone(), c);
    assert!(s.contains(&id));
    assert_eq!(s.len(), 1);
    let c = s.take_or_create(&id);
    assert_eq!(c.ctx().messages().len(), 1);
    assert_eq!(c.ctx().messages()[0].content(), "hi");
    assert!(!s.contains(&id));
    assert_eq!(s.len(), 0);
}

#[test]
fn remove_discards_only_that_session() {
    let mut s = Store::new("m".to_string(), "http://h".to_string());
    for id in ["a", "b", "c"] {
        let c = s.take_or_create(&id.to_string());
        s.put(id.to_string(), c);
    }
    assert_eq!(s.len(), 3);
    s.remove(&"b".to_string());
    assert_eq!(s.len(), 2);
    assert!(s.contains(&"a".to_string()));
    assert!(!s.contains(&"b".to_string()));
    assert!(s.contains(&"c".to_string()));
    s.remove(&"missing".to_string());
    assert_eq!(s.len(), 2);
}
