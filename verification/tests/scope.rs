use neco::scope::{Scope, ScopeStack};

#[test]
fn scope_set_adds_binding() {
    let mut scope = Scope { binds: Vec::new() };
    scope.set("key1", "value1");
    assert_eq!(scope.binds.len(), 1);
}

#[test]
fn scope_get_finds_existing_key() {
    let mut scope = Scope { binds: Vec::new() };
    scope.set("key1", "value1");
    assert_eq!(scope.get(&"key1"), Some(&"value1"));
}

#[test]
fn scope_get_returns_none_for_missing_key() {
    let scope = Scope::<&str, &str> { binds: Vec::new() };
    assert_eq!(scope.get(&"missing"), None);
}

#[test]
fn scope_get_returns_most_recent_binding() {
    let mut scope = Scope { binds: Vec::new() };
    scope.set("key1", "value1");
    scope.set("key1", "value2");
    assert_eq!(scope.get(&"key1"), Some(&"value2"));
}

#[test]
fn scope_binds_returns_all_bindings() {
    let mut scope = Scope { binds: Vec::new() };
    scope.set("key1", "value1");
    scope.set("key2", "value2");
    assert_eq!(scope.binds(), &[("key1", "value1"), ("key2", "value2")]);
}

#[test]
fn scope_stack_new_creates_empty_stack() {
    let stack = ScopeStack::<&str, &str>::new();
    assert_eq!(stack.scopes.len(), 0);
}

#[test]
fn scope_stack_enter_scope_adds_scope() {
    let mut stack = ScopeStack::<&str, &str>::new();
    stack.enter_scope();
    assert_eq!(stack.scopes.len(), 1);
}

#[test]
fn scope_stack_leave_scope_removes_scope() {
    let mut stack = ScopeStack::<&str, &str>::new();
    stack.enter_scope();
    let _scope = stack.leave_scope();
    assert_eq!(stack.scopes.len(), 0);
}

#[test]
fn scope_stack_leave_scope_returns_removed_scope() {
    let mut stack = ScopeStack::new();
    stack.enter_scope();
    stack.set("key1", "value1");
    let scope = stack.leave_scope();
    assert_eq!(scope.get(&"key1"), Some(&"value1"));
}

#[test]
fn scope_stack_set_adds_to_current_scope() {
    let mut stack = ScopeStack::new();
    stack.enter_scope();
    stack.set("key1", "value1");
    assert_eq!(stack.get(&"key1"), Some(&"value1"));
}

#[test]
fn scope_stack_set_does_nothing_when_no_scopes() {
    let mut stack = ScopeStack::new();
    stack.set("key1", "value1");
    assert_eq!(stack.get(&"key1"), None);
}

#[test]
fn scope_stack_get_searches_most_recent_scope_first() {
    let mut stack = ScopeStack::new();
    stack.enter_scope();
    stack.set("key1", "value1");
    stack.enter_scope();
    stack.set("key1", "value2");
    assert_eq!(stack.get(&"key1"), Some(&"value2"));
}

#[test]
fn scope_stack_get_falls_back_to_outer_scopes() {
    let mut stack = ScopeStack::new();
    stack.enter_scope();
    stack.set("key1", "value1");
    stack.enter_scope();
    stack.set("key2", "value2");
    assert_eq!(stack.get(&"key1"), Some(&"value1"));
}

#[test]
fn scope_stack_get_returns_none_when_key_not_found() {
    let mut stack = ScopeStack::new();
    stack.enter_scope();
    stack.set("key1", "value1");
    assert_eq!(stack.get(&"missing"), None);
}

#[test]
fn scope_stack_shadowing_works_correctly() {
    let mut stack = ScopeStack::new();
    stack.enter_scope();
    stack.set("x", 1);
    stack.enter_scope();
    stack.set("x", 2);
    stack.enter_scope();
    stack.set("x", 3);

    assert_eq!(stack.get(&"x"), Some(&3));
    stack.leave_scope();
    assert_eq!(stack.get(&"x"), Some(&2));
    stack.leave_scope();
    assert_eq!(stack.get(&"x"), Some(&1));
}

#[test]
fn text_lookup_takes_the_innermost_binding_and_falls_back() {
    let mut stack = ScopeStack::<&str, i32>::new();
    stack.enter_scope();
    stack.set("x", 1);
    stack.set("y", 10);
    stack.enter_scope();
    stack.set("x", 2);
    assert_eq!(stack.get_text("x"), Some(&2));
    assert_eq!(stack.get_text("y"), Some(&10));
    assert_eq!(stack.get_text("z"), None);
    stack.leave_scope();
    assert_eq!(stack.get_text("x"), Some(&1));
    let mut owned = ScopeStack::<String, i32>::new();
    owned.enter_scope();
    owned.set("k".to_string(), 7);
    owned.enter_scope();
    assert_eq!(owned.get_text("k"), Some(&7));
    let mut scope = Scope { binds: Vec::new() };
    scope.set("a", 1);
    scope.set("a", 2);
    assert_eq!(scope.get_text("a"), Some(&2));
}
