use console_prompt::{Context, Kind};

#[test]
fn context_round_trip() {
    let mut context = Context::new();
    context.set::<String>("Ada".into());
    assert_eq!(context.get::<String>(), Some(&String::from("Ada")));
    assert_eq!(context.get::<i32>(), None);
}

#[test]
fn new_context_is_empty() {
    let context = Context::new();
    assert!(context.is_empty());
    assert_eq!(context.kind(), None);
    assert_eq!(context.get::<String>(), None);
    assert_eq!(context.get::<i32>(), None);
    assert_eq!(context.get::<i64>(), None);
    assert_eq!(context.get::<bool>(), None);
}

#[test]
fn empty_and_mismatch_look_alike_to_get_but_not_to_is_empty() {
    let empty = Context::new();
    let mut number = Context::new();
    number.set::<i32>(7);
    assert_eq!(empty.get::<String>(), None);
    assert_eq!(number.get::<String>(), None);
    assert!(empty.is_empty());
    assert!(!number.is_empty());
    assert_eq!(number.kind(), Some(Kind::Int32));
}

#[test]
fn each_type_is_found_under_itself_alone() {
    let mut context = Context::new();

    context.set::<i32>(-5);
    assert_eq!(context.kind(), Some(Kind::Int32));
    assert_eq!(context.get::<i32>(), Some(&-5));
    assert_eq!(context.get::<i64>(), None);
    assert_eq!(context.get::<bool>(), None);
    assert_eq!(context.get::<String>(), None);

    context.set::<i64>(1 << 40);
    assert_eq!(context.kind(), Some(Kind::Int64));
    assert_eq!(context.get::<i64>(), Some(&(1 << 40)));
    assert_eq!(context.get::<i32>(), None);

    context.set::<bool>(true);
    assert_eq!(context.kind(), Some(Kind::Flag));
    assert_eq!(context.get::<bool>(), Some(&true));
    assert_eq!(context.get::<i64>(), None);

    context.set::<String>(String::from("Bob"));
    assert_eq!(context.kind(), Some(Kind::Text));
    assert_eq!(context.get::<String>(), Some(&String::from("Bob")));
    assert_eq!(context.get::<bool>(), None);
}

#[test]
fn set_replaces_value_and_type() {
    let mut context = Context::new();
    context.set::<String>(String::from("Ada"));
    context.set::<i32>(3);
    assert_eq!(context.get::<String>(), None);
    assert_eq!(context.get::<i32>(), Some(&3));
    context.set::<i32>(4);
    assert_eq!(context.get::<i32>(), Some(&4));
}

#[test]
fn get_mut_changes_the_value_in_place() {
    let mut context = Context::new();
    context.set::<String>(String::from("Bob"));
    match context.get_mut::<String>() {
        Some(name) => *name = String::from("Carol"),
        None => panic!("a name is stored"),
    }
    assert_eq!(context.get::<String>(), Some(&String::from("Carol")));

    context.set::<i32>(1);
    if let Some(n) = context.get_mut::<i32>() {
        *n += 41;
    }
    assert_eq!(context.get::<i32>(), Some(&42));
}

#[test]
fn get_mut_of_another_type_finds_nothing_and_changes_nothing() {
    let mut context = Context::new();
    context.set::<String>(String::from("Bob"));
    assert!(context.get_mut::<i32>().is_none());
    assert!(context.get_mut::<bool>().is_none());
    assert_eq!(context.get::<String>(), Some(&String::from("Bob")));

    let mut empty = Context::new();
    assert!(empty.get_mut::<String>().is_none());
    assert!(empty.is_empty());
}

#[test]
fn contexts_are_independent() {
    let mut outer = Context::new();
    outer.set::<String>(String::from("Ada"));
    let mut inner = Context::new();
    inner.set::<String>(String::from("Bob"));
    if let Some(name) = inner.get_mut::<String>() {
        name.push_str("by");
    }
    assert_eq!(inner.get::<String>(), Some(&String::from("Bobby")));
    assert_eq!(outer.get::<String>(), Some(&String::from("Ada")));
}
