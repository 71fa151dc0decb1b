use tycheck::scopes::Scopes;

#[test]
fn lookup_walks_frames_innermost_first() {
    let mut s: Scopes<u32> = Scopes::new();
    s.insert("x".to_string(), 1);
    s.push_scope();
    s.insert("x".to_string(), 2);
    assert_eq!(s.get(&"x".to_string()), Some(&2));
    s.pop_scope();
    assert_eq!(s.get(&"x".to_string()), Some(&1));
}

#[test]
fn insert_overwrites_within_one_frame() {
    let mut s: Scopes<u32> = Scopes::new();
    s.insert("x".to_string(), 1);
    s.insert("x".to_string(), 2);
    assert_eq!(s.get(&"x".to_string()), Some(&2));
}

#[test]
fn missing_name_is_not_found() {
    let mut s: Scopes<u32> = Scopes::new();
    s.insert("x".to_string(), 1);
    assert_eq!(s.get(&"y".to_string()), None);
}

#[test]
fn popping_discards_inner_bindings() {
    let mut s: Scopes<u32> = Scopes::new();
    s.push_scope();
    s.insert("only_inner".to_string(), 7);
    s.pop_scope();
    assert_eq!(s.get(&"only_inner".to_string()), None);
}

#[test]
fn get_mut_rebinds_in_place() {
    let mut s: Scopes<u32> = Scopes::new();
    s.insert("x".to_string(), 1);
    s.push_scope();
    s.insert("y".to_string(), 5);
    if let Some(v) = s.get_mut(&"x".to_string()) {
        *v = 9;
    } else {
        panic!("binding not found");
    }
    assert_eq!(s.get(&"x".to_string()), Some(&9));
    assert_eq!(s.get(&"y".to_string()), Some(&5));
}

#[test]
fn get_mut_misses_unbound_name() {
    let mut s: Scopes<u32> = Scopes::new();
    assert_eq!(s.get_mut(&"z".to_string()), None);
}
