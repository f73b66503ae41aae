use hostbridge::callback::{CallbackId, CallbackTable};
use hostbridge::deferred::{settle, unify, DeferredResult, HostReturn, HostSettle};
use hostbridge::dispatch::{
    pipeline_args, BuildStep, DecoratorOutcome, Dispatcher, SchemaBuild,
};
use hostbridge::errors::BridgeError;
use hostbridge::property::Property;
use hostbridge::tree::{EntityTree, TableKind};
use hostbridge::value::{Handle, HostValue, Value};

#[test]
fn host_begins_requests_in_enqueue_order() {
    let mut d = Dispatcher::new();
    let t1 = d.enqueue(CallbackId { id: 0 }, vec![HostValue::Int(1)]);
    let t2 = d.enqueue(CallbackId { id: 1 }, vec![HostValue::Int(2)]);
    let t3 = d.enqueue(CallbackId { id: 0 }, vec![HostValue::Int(3)]);
    assert_eq!((t1, t2, t3), (0, 1, 2));

    let first = d.begin_next().expect("queued").ticket;
    let second = d.begin_next().expect("queued").ticket;
    let third = d.begin_next().expect("queued").ticket;
    assert_eq!((first, second, third), (0, 1, 2));
    assert!(d.begin_next().is_none());
    assert_eq!(d.begun[0].args, vec![HostValue::Int(1)]);
    assert_eq!(d.begun[2].args, vec![HostValue::Int(3)]);
}

#[test]
fn pipeline_item_immediate_result_unifies_without_suspending() {
    // A pipeline item gets value 5 and arguments {increment: 3} ...
    let current = Value::Int(5);
    let arguments = Value::Record(vec![("increment".to_owned(), Value::Int(3))]);
    let object = Handle { index: 1, generation: 0 };
    let ctx = Handle { index: 2, generation: 0 };
    let args = pipeline_args(&current, &arguments, object, ctx);
    assert_eq!(args[0], HostValue::Int(5));
    assert_eq!(
        args[1],
        HostValue::Record(vec![("increment".to_owned(), HostValue::Int(3))])
    );

    // ... and returns 8 synchronously: the unified result is already the
    // native value 8, never a pending one.
    let unified = unify(HostReturn::Immediate(HostValue::Int(8)));
    assert_eq!(unified, DeferredResult::Resolved(Value::Int(8)));
}

#[test]
fn immediate_and_deferred_returns_unify_to_the_same_value() {
    let immediate = unify(HostReturn::Immediate(HostValue::Int(8)));
    let deferred = unify(HostReturn::Deferred(4));
    assert_eq!(deferred, DeferredResult::Pending(4));
    let settled = settle(deferred, HostSettle::Fulfilled(HostValue::Int(8)));
    assert_eq!(immediate, settled);
}

#[test]
fn rejection_fails_only_the_awaiting_operation() {
    let deferred = unify(HostReturn::Deferred(9));
    let settled = settle(deferred, HostSettle::Rejected("boom".to_owned()));
    assert_eq!(
        settled,
        DeferredResult::Failed(BridgeError::CallbackRejection { message: "boom".to_owned() })
    );
}

#[test]
fn unify_rejects_unsupported_immediate_values() {
    let unified = unify(HostReturn::Immediate(HostValue::Function(1)));
    assert_eq!(unified, DeferredResult::Failed(BridgeError::MarshalUnsupportedKind));
}

#[test]
fn decorator_windows_are_sequential() {
    let mut build = SchemaBuild::new();
    let mut prop = Property::new();
    build
        .run_decorator(
            &mut prop,
            "primary".to_owned(),
            "User".to_owned(),
            DecoratorOutcome::Mutations(vec![("k".to_owned(), HostValue::Int(1))]),
        )
        .unwrap();
    build
        .run_decorator(
            &mut prop,
            "unique".to_owned(),
            "User".to_owned(),
            DecoratorOutcome::Mutations(vec![]),
        )
        .unwrap();
    assert_eq!(
        build.log,
        vec![
            BuildStep::Begin { decorator: "primary".to_owned(), entity: "User".to_owned() },
            BuildStep::End { decorator: "primary".to_owned(), entity: "User".to_owned() },
            BuildStep::Begin { decorator: "unique".to_owned(), entity: "User".to_owned() },
            BuildStep::End { decorator: "unique".to_owned(), entity: "User".to_owned() },
        ]
    );
}

#[test]
fn decorator_mutations_apply_in_order() {
    let mut build = SchemaBuild::new();
    let mut prop = Property::new();
    build
        .run_decorator(
            &mut prop,
            "primary".to_owned(),
            "User".to_owned(),
            DecoratorOutcome::Mutations(vec![
                ("k".to_owned(), HostValue::Int(1)),
                ("k".to_owned(), HostValue::Int(2)),
                ("other".to_owned(), HostValue::Text("v".to_owned())),
            ]),
        )
        .unwrap();
    assert_eq!(prop.data(&"k".to_owned()), Some(HostValue::Int(2)));
    assert_eq!(prop.data(&"other".to_owned()), Some(HostValue::Text("v".to_owned())));
}

#[test]
fn failing_decorator_aborts_with_context_and_no_partial_mutation() {
    let mut build = SchemaBuild::new();
    let mut prop = Property::new();
    prop.set_data("kept".to_owned(), HostValue::Int(1)).unwrap();

    let r = build.run_decorator(
        &mut prop,
        "primary".to_owned(),
        "User".to_owned(),
        DecoratorOutcome::Failure,
    );
    assert_eq!(
        r,
        Err(BridgeError::CallbackFailure {
            decorator: "primary".to_owned(),
            entity: "User".to_owned(),
        })
    );
    assert!(build.failed);
    assert_eq!(prop.data(&"kept".to_owned()), Some(HostValue::Int(1)));
}

#[test]
fn unmarshalable_mutation_rolls_back_the_whole_list() {
    let mut build = SchemaBuild::new();
    let mut prop = Property::new();
    let r = build.run_decorator(
        &mut prop,
        "data".to_owned(),
        "Post".to_owned(),
        DecoratorOutcome::Mutations(vec![
            ("a".to_owned(), HostValue::Int(1)),
            ("b".to_owned(), HostValue::Function(3)),
        ]),
    );
    assert_eq!(
        r,
        Err(BridgeError::CallbackFailure {
            decorator: "data".to_owned(),
            entity: "Post".to_owned(),
        })
    );
    // Not even the first, marshalable mutation is visible.
    assert_eq!(prop.data(&"a".to_owned()), None);
}

#[test]
fn invoke_looks_a_registration_up_and_enqueues_it() {
    let mut tree = EntityTree::new();
    let mut callbacks = CallbackTable::new();
    let mut queue = Dispatcher::new();
    let root = tree.root();
    root.define_pipeline_item(&mut tree, &mut callbacks, "increment".to_owned(), 42)
        .unwrap();

    let args = pipeline_args(
        &Value::Int(5),
        &Value::Record(vec![("increment".to_owned(), Value::Int(3))]),
        Handle { index: 1, generation: 0 },
        Handle { index: 2, generation: 0 },
    );
    let ticket = root
        .invoke(&tree, &mut queue, TableKind::PipelineItem, &"increment".to_owned(), args)
        .unwrap();
    assert_eq!(ticket, Some(0));

    // The same name in another table has no registration: nothing enqueued.
    let missing = root
        .invoke(&tree, &mut queue, TableKind::Handler, &"increment".to_owned(), vec![])
        .unwrap();
    assert_eq!(missing, None);

    let request = queue.begin_next().expect("one request was enqueued");
    assert_eq!(request.args[0], HostValue::Int(5));
    let entry = callbacks.get(request.callback);
    assert_eq!(entry.host_fn, 42);
}
