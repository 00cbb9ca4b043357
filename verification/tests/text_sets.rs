use movie_stats::text_set::TextSet;

fn s(text: &str) -> String {
    text.to_string()
}

#[test]
fn new_set_is_empty() {
    let set = TextSet::new();
    assert_eq!(set.len(), 0);
    assert!(!set.contains(&s("a")));
}

#[test]
fn singleton_holds_its_text() {
    let set = TextSet::singleton(s("862"));
    assert_eq!(set.len(), 1);
    assert!(set.contains(&s("862")));
    assert!(!set.contains(&s("86")));
    assert!(!set.contains(&s("")));
}

#[test]
fn with_adds_a_text_once() {
    let set = TextSet::new().with(s("a")).with(s("b")).with(s("a"));
    assert_eq!(set.len(), 2);
    assert!(set.contains(&s("a")));
    assert!(set.contains(&s("b")));
}

#[test]
fn union_holds_both_sides() {
    let left = TextSet::new().with(s("a")).with(s("b"));
    let right = TextSet::new().with(s("b")).with(s("c"));
    let both = left.union(&right);
    assert_eq!(both.len(), 3);
    assert!(both.contains(&s("a")));
    assert!(both.contains(&s("b")));
    assert!(both.contains(&s("c")));
    assert!(!both.contains(&s("d")));
    // The operands are as they were.
    assert_eq!(left.len(), 2);
    assert_eq!(right.len(), 2);
}

#[test]
fn union_with_itself_and_with_nothing() {
    let set = TextSet::new().with(s("a")).with(s("b"));
    assert_eq!(set.union(&set).len(), 2);
    assert_eq!(set.union(&TextSet::new()).len(), 2);
    assert_eq!(TextSet::new().union(&set).len(), 2);
    assert_eq!(TextSet::new().union(&TextSet::new()).len(), 0);
}

#[test]
fn clone_holds_the_same_texts() {
    let set = TextSet::new().with(s("a")).with(s("b"));
    let copy = set.clone();
    assert_eq!(copy.len(), 2);
    assert!(copy.contains(&s("a")));
    assert!(copy.contains(&s("b")));
}
