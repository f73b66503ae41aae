use hostbridge::errors::BridgeError;
use hostbridge::tree::EntityTree;

#[test]
fn root_is_main_and_children_are_not() {
    let mut tree = EntityTree::new();
    let root = tree.root();
    assert_eq!(root.is_main(&tree), Ok(true));
    let api = root.namespace_or_create(&mut tree, "api".to_owned()).unwrap();
    assert_eq!(api.is_main(&tree), Ok(false));
}

#[test]
fn std_child_of_root_is_std() {
    let mut tree = EntityTree::new();
    let root = tree.root();
    let std_ns = root.namespace_or_create(&mut tree, "std".to_owned()).unwrap();
    assert_eq!(std_ns.is_std(&tree), Ok(true));
    assert_eq!(root.is_std(&tree), Ok(false));
    let other = root.namespace_or_create(&mut tree, "app".to_owned()).unwrap();
    assert_eq!(other.is_std(&tree), Ok(false));
}

#[test]
fn absent_namespace_lookup_is_empty_not_a_handle() {
    let mut tree = EntityTree::new();
    let root = tree.root();
    assert_eq!(root.namespace(&tree, &"missing".to_owned()).unwrap().is_none(), true);
    root.namespace_or_create(&mut tree, "present".to_owned()).unwrap();
    let found = root.namespace(&tree, &"present".to_owned()).unwrap();
    assert!(found.is_some());
}

#[test]
fn or_create_returns_the_same_namespace_again() {
    let mut tree = EntityTree::new();
    let root = tree.root();
    let first = root.namespace_or_create(&mut tree, "api".to_owned()).unwrap();
    let second = root.namespace_or_create(&mut tree, "api".to_owned()).unwrap();
    assert_eq!(first.handle.index, second.handle.index);
    assert_eq!(tree.slots.len(), 2);
}

#[test]
fn paths_follow_the_tree() {
    let mut tree = EntityTree::new();
    let root = tree.root();
    let deep = root
        .namespace_or_create_at_path(&mut tree, &vec!["api".to_owned(), "v1".to_owned()])
        .unwrap();
    let p = deep.path(&tree).unwrap();
    assert_eq!(p, vec!["api".to_owned(), "v1".to_owned()]);
    assert_eq!(root.path(&tree).unwrap().len(), 0);
}

#[test]
fn namespace_at_path_finds_and_misses() {
    let mut tree = EntityTree::new();
    let root = tree.root();
    let made = root
        .namespace_or_create_at_path(&mut tree, &vec!["a".to_owned(), "b".to_owned()])
        .unwrap();
    let found = root
        .namespace_at_path(&tree, &vec!["a".to_owned(), "b".to_owned()])
        .unwrap()
        .expect("created path must resolve");
    assert_eq!(found.handle.index, made.handle.index);
    let missing = root
        .namespace_at_path(&tree, &vec!["a".to_owned(), "c".to_owned()])
        .unwrap();
    assert!(missing.is_none());
}

#[test]
fn stale_handles_are_refused_everywhere() {
    let mut tree = EntityTree::new();
    let root = tree.root();
    let api = root.namespace_or_create(&mut tree, "api".to_owned()).unwrap();
    tree.invalidate_all();
    assert_eq!(api.is_main(&tree), Err(BridgeError::StaleHandle));
    assert_eq!(api.path(&tree), Err(BridgeError::StaleHandle));
    assert_eq!(
        api.namespace(&tree, &"x".to_owned()),
        Err(BridgeError::StaleHandle)
    );
    assert_eq!(
        api.namespace_or_create(&mut tree, "x".to_owned()),
        Err(BridgeError::StaleHandle)
    );
    let mut callbacks = hostbridge::callback::CallbackTable::new();
    assert_eq!(
        api.define_handler(&mut tree, &mut callbacks, "h".to_owned(), 1),
        Err(BridgeError::StaleHandle)
    );
    // A handle issued after the teardown generation works again.
    let fresh = tree.root();
    assert_eq!(fresh.is_main(&tree), Ok(true));
}
