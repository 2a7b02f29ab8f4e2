use rustgistry::storage::locks::LockTable;

fn s(text: &str) -> String {
    text.to_string()
}

#[test]
fn a_key_has_one_holder() {
    let mut table = LockTable::new();
    assert!(!table.is_held(&s("demo"), &s("one")));
    assert!(table.try_acquire(&s("demo"), &s("one")));
    assert!(table.is_held(&s("demo"), &s("one")));
    assert!(!table.try_acquire(&s("demo"), &s("one")));
    assert!(table.is_held(&s("demo"), &s("one")));
    table.release(&s("demo"), &s("one"));
    assert!(!table.is_held(&s("demo"), &s("one")));
    assert!(table.try_acquire(&s("demo"), &s("one")));
}

#[test]
fn keys_do_not_wait_for_one_another() {
    let mut table = LockTable::new();
    assert!(table.try_acquire(&s("demo"), &s("one")));
    assert!(table.try_acquire(&s("demo"), &s("two")));
    assert!(table.try_acquire(&s("other"), &s("one")));
    assert!(table.try_acquire(&s("de"), &s("moone")));
    table.release(&s("demo"), &s("two"));
    assert!(table.is_held(&s("demo"), &s("one")));
    assert!(table.is_held(&s("other"), &s("one")));
    assert!(!table.is_held(&s("demo"), &s("two")));
    table.release(&s("demo"), &s("three"));
    table.release(&s("demo"), &s("two"));
    assert!(table.is_held(&s("demo"), &s("one")));
    assert!(!table.try_acquire(&s("other"), &s("one")));
}
