use rune_core::scopes::ScopeChain;

#[test]
fn empty_chain_finds_nothing() {
    let scopes = ScopeChain::new();
    assert_eq!(scopes.lookup("x"), None);
}

#[test]
fn innermost_binding_is_found() {
    let mut scopes = ScopeChain::new();
    scopes.push_frame();
    scopes.declare("x", 0);
    assert_eq!(scopes.lookup("x"), Some(0));
    assert_eq!(scopes.lookup("y"), None);
}

#[test]
fn inner_declarations_shadow_outer_ones() {
    let mut scopes = ScopeChain::new();
    scopes.push_frame();
    scopes.declare("x", 0);
    scopes.push_frame();
    scopes.declare("x", 1);
    assert_eq!(scopes.lookup("x"), Some(1));
    scopes.pop_frame();
    assert_eq!(scopes.lookup("x"), Some(0));
}

#[test]
fn redeclaration_shadows_within_one_frame() {
    let mut scopes = ScopeChain::new();
    scopes.push_frame();
    scopes.declare("x", 0);
    scopes.declare("x", 2);
    assert_eq!(scopes.lookup("x"), Some(2));
}

#[test]
fn outer_bindings_stay_visible() {
    let mut scopes = ScopeChain::new();
    scopes.push_frame();
    scopes.declare("a", 0);
    scopes.push_frame();
    scopes.declare("b", 1);
    assert_eq!(scopes.lookup("a"), Some(0));
    assert_eq!(scopes.lookup("b"), Some(1));
    assert_eq!(scopes.depth(), 2);
}

#[test]
fn popped_frame_releases_its_bindings() {
    let mut scopes = ScopeChain::new();
    scopes.push_frame();
    scopes.declare("a", 0);
    scopes.push_frame();
    scopes.declare("b", 1);
    scopes.pop_frame();
    assert_eq!(scopes.lookup("b"), None);
    assert_eq!(scopes.lookup("a"), Some(0));
}
