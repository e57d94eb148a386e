use arithmetic::env::VariableManager;

#[test]
fn names_are_matched_without_regard_to_case() {
    let mut vars: VariableManager<i64> = VariableManager::new();
    assert_eq!(vars.lookup("x"), None);
    vars.set("X", 4);
    assert_eq!(vars.lookup("x"), Some(&4));
    assert_eq!(vars.lookup("X"), Some(&4));
    vars.set("Rate", 2);
    assert_eq!(vars.lookup("RATE"), Some(&2));
    assert_eq!(vars.lookup("rat"), None);
}

#[test]
fn setting_again_replaces_the_value() {
    let mut vars: VariableManager<&str> = VariableManager::new();
    vars.set("x", "first");
    vars.set("x", "second");
    vars.set("ÉTÉ", "summer");
    assert_eq!(vars.lookup("x"), Some(&"second"));
    assert_eq!(vars.lookup("été"), Some(&"summer"));
}

#[test]
fn clear_forgets_every_variable() {
    let mut vars: VariableManager<u8> = VariableManager::new();
    vars.set("a", 1);
    vars.set("b", 2);
    vars.clear();
    assert_eq!(vars.lookup("a"), None);
    assert_eq!(vars.lookup("b"), None);
}
