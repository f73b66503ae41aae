use hostbridge::callback::{CallbackId, CallbackTable, InvocationMode};
use hostbridge::errors::BridgeError;
use hostbridge::handler::HandlerGroup;
use hostbridge::tree::EntityTree;

#[test]
fn get_user_registered_twice_conflicts_and_first_stays() {
    let mut tree = EntityTree::new();
    let mut callbacks = CallbackTable::new();
    let root = tree.root();

    let first = root.define_handler(&mut tree, &mut callbacks, "getUser".to_owned(), 11);
    assert_eq!(first, Ok(()));

    let second = root.define_handler(&mut tree, &mut callbacks, "getUser".to_owned(), 22);
    assert_eq!(
        second,
        Err(BridgeError::RegistrationConflict { name: "getUser".to_owned() })
    );

    // The first registration is still the active one.
    assert_eq!(tree.slots[0].node.handlers.len(), 1);
    assert_eq!(tree.slots[0].node.handlers[0].0, "getUser".to_owned());
    let id = tree.slots[0].node.handlers[0].1;
    assert_eq!(callbacks.get(id).host_fn, 11);
    assert_eq!(callbacks.len(), 1);
}

#[test]
fn handler_group_conflict_keeps_first() {
    let mut group = HandlerGroup::new();
    let mut callbacks = CallbackTable::new();
    assert_eq!(group.define_handler(&mut callbacks, "getUser".to_owned(), 5), Ok(()));
    assert_eq!(
        group.define_handler(&mut callbacks, "getUser".to_owned(), 6),
        Err(BridgeError::RegistrationConflict { name: "getUser".to_owned() })
    );
    assert_eq!(group.handlers.len(), 1);
    assert_eq!(group.handlers[0], ("getUser".to_owned(), CallbackId { id: 0 }));
    assert_eq!(callbacks.get(CallbackId { id: 0 }).host_fn, 5);
}

#[test]
fn same_name_in_different_tables_is_no_conflict() {
    let mut tree = EntityTree::new();
    let mut callbacks = CallbackTable::new();
    let root = tree.root();
    assert_eq!(root.define_model_decorator(&mut tree, &mut callbacks, "id".to_owned(), 1), Ok(()));
    assert_eq!(
        root.define_model_field_decorator(&mut tree, &mut callbacks, "id".to_owned(), 2),
        Ok(())
    );
    assert_eq!(
        root.define_model_relation_decorator(&mut tree, &mut callbacks, "id".to_owned(), 3),
        Ok(())
    );
    assert_eq!(
        root.define_model_property_decorator(&mut tree, &mut callbacks, "id".to_owned(), 4),
        Ok(())
    );
    assert_eq!(root.define_pipeline_item(&mut tree, &mut callbacks, "id".to_owned(), 5), Ok(()));
    assert_eq!(root.define_handler(&mut tree, &mut callbacks, "id".to_owned(), 6), Ok(()));
    assert_eq!(callbacks.len(), 6);
}

#[test]
fn registration_wires_shape_and_mode() {
    let mut tree = EntityTree::new();
    let mut callbacks = CallbackTable::new();
    let root = tree.root();
    root.define_model_decorator(&mut tree, &mut callbacks, "primary".to_owned(), 7).unwrap();
    root.define_pipeline_item(&mut tree, &mut callbacks, "add".to_owned(), 8).unwrap();
    root.define_handler(&mut tree, &mut callbacks, "list".to_owned(), 9).unwrap();

    let decorator = callbacks.get(CallbackId { id: 0 });
    assert_eq!(decorator.mode, InvocationMode::Blocking);
    let pipeline = callbacks.get(CallbackId { id: 1 });
    assert_eq!(pipeline.mode, InvocationMode::Async);
    let handler = callbacks.get(CallbackId { id: 2 });
    assert_eq!(handler.mode, InvocationMode::Async);
}

#[test]
fn same_name_in_sibling_scopes_is_no_conflict() {
    let mut tree = EntityTree::new();
    let mut callbacks = CallbackTable::new();
    let root = tree.root();
    let a = root.namespace_or_create(&mut tree, "a".to_owned()).unwrap();
    let b = root.namespace_or_create(&mut tree, "b".to_owned()).unwrap();
    assert_eq!(a.define_handler(&mut tree, &mut callbacks, "getUser".to_owned(), 1), Ok(()));
    assert_eq!(b.define_handler(&mut tree, &mut callbacks, "getUser".to_owned(), 2), Ok(()));
}
