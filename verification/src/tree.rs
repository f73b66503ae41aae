//! The native entity tree: an arena of namespace nodes owned for the
//! process lifetime, reached from the host only through generation-checked
//! handles.
//!
//! A namespace holds child namespaces and six behavior tables (model,
//! field, relation and property decorators, pipeline items, handlers).
//! Host-visible navigation and registration go through a `Namespace`
//! handle carrying an arena index and a generation; a handle whose
//! generation no longer matches its slot fails with a stale-handle error
//! instead of reaching a wrong entity.

use vstd::prelude::*;

use crate::callback::{ArgumentShape, CallbackId, CallbackTable, InvocationMode,
    RegisteredCallback, ResultShape};
use crate::dispatch::{Dispatcher, InvocationRequest};
use crate::errors::BridgeError;
use crate::table::{distinct_keys, find_key, has_key, lemma_lookup_at, lemma_lookup_push, lookup};
use crate::value::{Handle, HostValue};

verus! {

/// One namespace of the entity tree.
pub struct NamespaceNode {
    /// The names leading here from the root.
    pub path: Vec<String>,
    /// Child namespaces, by name, as arena indices.
    pub children: Vec<(String, usize)>,
    pub model_decorators: Vec<(String, CallbackId)>,
    pub field_decorators: Vec<(String, CallbackId)>,
    pub relation_decorators: Vec<(String, CallbackId)>,
    pub property_decorators: Vec<(String, CallbackId)>,
    pub pipeline_items: Vec<(String, CallbackId)>,
    pub handlers: Vec<(String, CallbackId)>,
}

/// An arena slot: the node and the generation that handles must match.
pub struct NamespaceSlot {
    pub generation: u64,
    pub node: NamespaceNode,
}

/// The process-wide entity tree. Slot 0 is the main namespace.
pub struct EntityTree {
    pub slots: Vec<NamespaceSlot>,
}

/// A host-visible, generation-checked reference to a namespace.
#[derive(Clone, Copy, PartialEq, Eq, Structural, Debug)]
pub struct Namespace {
    pub handle: Handle,
}

/// A path as the names' character sequences.
pub open spec fn path_view(p: Vec<String>) -> Seq<Seq<char>> {
    p@.map_values(|s: String| s@)
}

/// The six behavior tables a namespace registers callbacks in.
#[derive(Clone, Copy, PartialEq, Eq, Structural, Debug)]
pub enum TableKind {
    ModelDecorator,
    FieldDecorator,
    RelationDecorator,
    PropertyDecorator,
    PipelineItem,
    Handler,
}

/// The registry entry a registration point of the given kind creates for
/// a host callback: decorators invoke blocking and return nothing,
/// pipeline items and handlers invoke async.
pub open spec fn registered_for(kind: TableKind, host_fn: u64) -> RegisteredCallback {
    match kind {
        TableKind::PipelineItem => RegisteredCallback {
            host_fn,
            args: ArgumentShape::PipelineItem,
            result: ResultShape::Transformed,
            mode: InvocationMode::Async,
        },
        TableKind::Handler => RegisteredCallback {
            host_fn,
            args: ArgumentShape::Handler,
            result: ResultShape::Response,
            mode: InvocationMode::Async,
        },
        _ => RegisteredCallback {
            host_fn,
            args: ArgumentShape::Decorator,
            result: ResultShape::Void,
            mode: InvocationMode::Blocking,
        },
    }
}

impl NamespaceNode {
    /// The behavior table of the given kind.
    pub open spec fn table(self, kind: TableKind) -> Seq<(String, CallbackId)> {
        match kind {
            TableKind::ModelDecorator => self.model_decorators@,
            TableKind::FieldDecorator => self.field_decorators@,
            TableKind::RelationDecorator => self.relation_decorators@,
            TableKind::PropertyDecorator => self.property_decorators@,
            TableKind::PipelineItem => self.pipeline_items@,
            TableKind::Handler => self.handlers@,
        }
    }

    /// Names are unique in every table of the node.
    pub open spec fn wf(self) -> bool {
        &&& distinct_keys(self.children@)
        &&& distinct_keys(self.model_decorators@)
        &&& distinct_keys(self.field_decorators@)
        &&& distinct_keys(self.relation_decorators@)
        &&& distinct_keys(self.property_decorators@)
        &&& distinct_keys(self.pipeline_items@)
        &&& distinct_keys(self.handlers@)
    }

    /// A node with no children and nothing registered yet.
    pub open spec fn fresh(self, path: Seq<Seq<char>>) -> bool {
        &&& path_view(self.path) == path
        &&& self.children@.len() == 0
        &&& self.model_decorators@.len() == 0
        &&& self.field_decorators@.len() == 0
        &&& self.relation_decorators@.len() == 0
        &&& self.property_decorators@.len() == 0
        &&& self.pipeline_items@.len() == 0
        &&& self.handlers@.len() == 0
    }
}

impl EntityTree {
    /// The whole tree is well-formed: the root is at slot 0 with the empty
    /// path, every node's tables have distinct names, and every child link
    /// points into the arena at a node whose path extends its parent's by
    /// the child's name.
    pub open spec fn wf(self) -> bool {
        &&& self.slots@.len() >= 1
        &&& path_view(self.slots@[0].node.path).len() == 0
        &&& forall|i: int| 0 <= i < self.slots@.len() ==> (#[trigger] self.slots@[i].node).wf()
        &&& forall|i: int, j: int|
            0 <= i < self.slots@.len() && 0 <= j < self.slots@[i].node.children@.len() ==> {
                &&& 0 < (#[trigger] self.slots@[i].node.children@[j]).1 < self.slots@.len()
                &&& path_view(
                    self.slots@[self.slots@[i].node.children@[j].1 as int].node.path,
                ) == path_view(self.slots@[i].node.path).push(
                    self.slots@[i].node.children@[j].0@,
                )
            }
    }

    /// Whether a handle still reaches the slot it was issued for.
    pub open spec fn valid(self, ns: Namespace) -> bool {
        &&& ns.handle.index < self.slots@.len()
        &&& self.slots@[ns.handle.index as int].generation == ns.handle.generation
    }

    /// The node a valid handle reaches.
    pub open spec fn node_of(self, ns: Namespace) -> NamespaceNode {
        self.slots@[ns.handle.index as int].node
    }

    /// A tree holding only the main namespace.
    pub fn new() -> (t: EntityTree)
        ensures
            t.wf(),
            t.slots@.len() == 1,
            t.slots@[0].generation == 0,
            t.slots@[0].node.fresh(Seq::empty()),
    {
        let root = NamespaceNode {
            path: Vec::new(),
            children: Vec::new(),
            model_decorators: Vec::new(),
            field_decorators: Vec::new(),
            relation_decorators: Vec::new(),
            property_decorators: Vec::new(),
            pipeline_items: Vec::new(),
            handlers: Vec::new(),
        };
        let mut slots: Vec<NamespaceSlot> = Vec::new();
        slots.push(NamespaceSlot { generation: 0, node: root });
        let t = EntityTree { slots };
        proof {
            assert(path_view(t.slots@[0].node.path) =~= Seq::<Seq<char>>::empty());
        }
        t
    }

    /// A handle to the main namespace.
    pub fn root(&self) -> (ns: Namespace)
        requires
            self.wf(),
        ensures
            self.valid(ns),
            ns.handle.index == 0,
    {
        Namespace {
            handle: Handle { index: 0, generation: self.slots[0].generation },
        }
    }

    /// Tear the tree down: every slot's generation moves on, so every
    /// handle issued so far becomes stale.
    pub fn invalidate_all(&mut self)
        requires
            forall|i: int|
                0 <= i < old(self).slots@.len() ==> (#[trigger] old(self).slots@[i]).generation
                    < u64::MAX,
        ensures
            final(self).slots@.len() == old(self).slots@.len(),
            forall|i: int|
                0 <= i < old(self).slots@.len() ==> (#[trigger] final(self).slots@[i]).generation
                    == old(self).slots@[i].generation + 1,
            forall|i: int|
                0 <= i < old(self).slots@.len() ==> (#[trigger] final(self).slots@[i]).node == old(
                    self,
                ).slots@[i].node,
            forall|ns: Namespace| old(self).valid(ns) ==> !final(self).valid(ns),
    {
        let mut i: usize = 0;
        while i < self.slots.len()
            invariant
                i <= self.slots@.len(),
                self.slots@.len() == old(self).slots@.len(),
                forall|j: int|
                    0 <= j < old(self).slots@.len() ==> (#[trigger] old(self).slots@[j]).generation
                        < u64::MAX,
                forall|j: int|
                    0 <= j < i ==> (#[trigger] self.slots@[j]).generation == old(
                        self,
                    ).slots@[j].generation + 1,
                forall|j: int| i <= j < self.slots@.len() ==> self.slots@[j] == old(self).slots@[j],
                forall|j: int|
                    0 <= j < i ==> (#[trigger] self.slots@[j]).node == old(self).slots@[j].node,
            decreases self.slots@.len() - i,
        {
            let g = self.slots[i].generation;
            self.slots[i].generation = g + 1;
            i = i + 1;
        }
    }
}

impl Namespace {
    /// Whether this handle names the main namespace: the one at the root
    /// of the tree, with the empty path. Stale handles are refused.
    pub fn is_main(&self, tree: &EntityTree) -> (r: Result<bool, BridgeError>)
        requires
            tree.wf(),
        ensures
            r is Ok <==> tree.valid(*self),
            r matches Ok(b) ==> b == (path_view(tree.node_of(*self).path).len() == 0),
            r matches Err(e) ==> e == BridgeError::StaleHandle,
    {
        let idx = self.handle.index;
        if idx >= tree.slots.len() || tree.slots[idx].generation != self.handle.generation {
            return Err(BridgeError::StaleHandle);
        }
        Ok(tree.slots[idx].node.path.len() == 0)
    }

    /// Whether this handle names the standard-library namespace: the child
    /// of the root named `std`.
    pub fn is_std(&self, tree: &EntityTree) -> (r: Result<bool, BridgeError>)
        requires
            tree.wf(),
        ensures
            r is Ok <==> tree.valid(*self),
            r matches Ok(b) ==> b == ({
                let pv = path_view(tree.node_of(*self).path);
                pv.len() == 1 && pv[0] == "std"@
            }),
            r matches Err(e) ==> e == BridgeError::StaleHandle,
    {
        let idx = self.handle.index;
        if idx >= tree.slots.len() || tree.slots[idx].generation != self.handle.generation {
            return Err(BridgeError::StaleHandle);
        }
        let p = &tree.slots[idx].node.path;
        Ok(p.len() == 1 && p[0] == "std".to_owned())
    }

    /// The names leading to this namespace from the root.
    pub fn path(&self, tree: &EntityTree) -> (r: Result<Vec<String>, BridgeError>)
        requires
            tree.wf(),
        ensures
            r is Ok <==> tree.valid(*self),
            r matches Ok(p) ==> path_view(p) == path_view(tree.node_of(*self).path),
            r matches Err(e) ==> e == BridgeError::StaleHandle,
    {
        let idx = self.handle.index;
        if idx >= tree.slots.len() || tree.slots[idx].generation != self.handle.generation {
            return Err(BridgeError::StaleHandle);
        }
        let p = tree.slots[idx].node.path.clone();
        proof {
            assert(path_view(p) =~= path_view(tree.node_of(*self).path));
        }
        Ok(p)
    }

    /// Look the child namespace named `name` up: a handle to it when it
    /// exists, nothing when it does not.
    pub fn namespace(&self, tree: &EntityTree, name: &String) -> (r: Result<
        Option<Namespace>,
        BridgeError,
    >)
        requires
            tree.wf(),
        ensures
            r is Ok <==> tree.valid(*self),
            r matches Err(e) ==> e == BridgeError::StaleHandle,
            r matches Ok(c) ==> ({
                &&& c is Some <==> has_key(tree.node_of(*self).children@, name@)
                &&& c matches Some(ns) ==> ({
                    &&& tree.valid(ns)
                    &&& lookup(tree.node_of(*self).children@, name@) == Some(ns.handle.index)
                    &&& path_view(tree.node_of(ns).path) == path_view(
                        tree.node_of(*self).path,
                    ).push(name@)
                })
            }),
    {
        let idx = self.handle.index;
        if idx >= tree.slots.len() || tree.slots[idx].generation != self.handle.generation {
            return Err(BridgeError::StaleHandle);
        }
        match find_key(&tree.slots[idx].node.children, name) {
            Some(i) => {
                proof {
                    lemma_lookup_at(tree.slots@[idx as int].node.children@, name@, i as int);
                }
                let child_idx = tree.slots[idx].node.children[i].1;
                Ok(
                    Some(
                        Namespace {
                            handle: Handle {
                                index: child_idx,
                                generation: tree.slots[child_idx].generation,
                            },
                        },
                    ),
                )
            },
            None => Ok(None),
        }
    }
}

/// Where a path of names leads from a node: follow one child link per
/// name.
pub open spec fn resolve_path(tree: EntityTree, at: int, p: Seq<Seq<char>>) -> Option<int>
    decreases p.len(),
{
    if p.len() == 0 {
        Some(at)
    } else {
        match lookup(tree.slots@[at].node.children@, p[0]) {
            Some(ci) => resolve_path(tree, ci as int, p.skip(1)),
            None => None,
        }
    }
}

/// `t2` extends `t1`: every slot of `t1` is still there with the same
/// generation, path and registrations, children only added, and new slots
/// only appended.
pub open spec fn extends(t1: EntityTree, t2: EntityTree) -> bool {
    &&& t1.slots@.len() <= t2.slots@.len()
    &&& forall|i: int|
        0 <= i < t1.slots@.len() ==> {
            &&& (#[trigger] t2.slots@[i]).generation == t1.slots@[i].generation
            &&& t2.slots@[i].node.path == t1.slots@[i].node.path
            &&& t2.slots@[i].node.model_decorators == t1.slots@[i].node.model_decorators
            &&& t2.slots@[i].node.field_decorators == t1.slots@[i].node.field_decorators
            &&& t2.slots@[i].node.relation_decorators == t1.slots@[i].node.relation_decorators
            &&& t2.slots@[i].node.property_decorators == t1.slots@[i].node.property_decorators
            &&& t2.slots@[i].node.pipeline_items == t1.slots@[i].node.pipeline_items
            &&& t2.slots@[i].node.handlers == t1.slots@[i].node.handlers
            &&& t1.slots@[i].node.children@.is_prefix_of(t2.slots@[i].node.children@)
        }
}

/// Resolving one more name at the end of a path is one more child lookup
/// at the node the shorter path leads to.
pub proof fn lemma_resolve_snoc(tree: EntityTree, at: int, p: Seq<Seq<char>>, x: Seq<char>)
    ensures
        resolve_path(tree, at, p.push(x)) == (match resolve_path(tree, at, p) {
            Some(m) => match lookup(tree.slots@[m].node.children@, x) {
                Some(ci) => Some(ci as int),
                None => None,
            },
            None => None,
        }),
    decreases p.len(),
{
    if p.len() == 0 {
        assert(p.push(x)[0] == x);
        assert(p.push(x).skip(1) =~= Seq::<Seq<char>>::empty());
        match lookup(tree.slots@[at].node.children@, x) {
            Some(ci) => {
                assert(resolve_path(tree, at, p.push(x)) == resolve_path(
                    tree,
                    ci as int,
                    p.push(x).skip(1),
                ));
                assert(resolve_path(tree, ci as int, Seq::<Seq<char>>::empty()) == Some(
                    ci as int,
                ));
            },
            None => {},
        }
    } else {
        assert(p.push(x)[0] == p[0]);
        assert(p.push(x).skip(1) =~= p.skip(1).push(x));
        match lookup(tree.slots@[at].node.children@, p[0]) {
            Some(ci) => {
                lemma_resolve_snoc(tree, ci as int, p.skip(1), x);
                assert(resolve_path(tree, at, p.push(x)) == resolve_path(
                    tree,
                    ci as int,
                    p.skip(1).push(x),
                ));
                assert(resolve_path(tree, at, p) == resolve_path(tree, ci as int, p.skip(1)));
            },
            None => {},
        }
    }
}

/// A path that resolves in a tree still resolves to the same namespace in
/// any extension of it: children are only added under fresh names, never
/// re-bound.
pub proof fn lemma_resolve_extends(t1: EntityTree, t2: EntityTree, at: int, p: Seq<Seq<char>>)
    requires
        t1.wf(),
        t2.wf(),
        extends(t1, t2),
        0 <= at < t1.slots@.len(),
        resolve_path(t1, at, p) is Some,
    ensures
        resolve_path(t2, at, p) == resolve_path(t1, at, p),
    decreases p.len(),
{
    if p.len() > 0 {
        let c1 = t1.slots@[at].node.children@;
        let c2 = t2.slots@[at].node.children@;
        assert(c1 =~= c2.subrange(0, c1.len() as int));
        let ci = lookup(c1, p[0])->Some_0;
        let j = choose|j: int| 0 <= j < c1.len() && c1[j].0@ == p[0];
        lemma_lookup_at(c1, p[0], j);
        assert(c2[j] == c1[j]);
        lemma_lookup_at(c2, p[0], j);
        assert(lookup(c2, p[0]) == Some(ci));
        lemma_resolve_extends(t1, t2, ci as int, p.skip(1));
    }
}

pub proof fn lemma_extends_trans(t1: EntityTree, t2: EntityTree, t3: EntityTree)
    requires
        extends(t1, t2),
        extends(t2, t3),
    ensures
        extends(t1, t3),
{
    assert forall|i: int| 0 <= i < t1.slots@.len() implies {
        &&& (#[trigger] t3.slots@[i]).generation == t1.slots@[i].generation
        &&& t3.slots@[i].node.path == t1.slots@[i].node.path
        &&& t3.slots@[i].node.model_decorators == t1.slots@[i].node.model_decorators
        &&& t3.slots@[i].node.field_decorators == t1.slots@[i].node.field_decorators
        &&& t3.slots@[i].node.relation_decorators == t1.slots@[i].node.relation_decorators
        &&& t3.slots@[i].node.property_decorators == t1.slots@[i].node.property_decorators
        &&& t3.slots@[i].node.pipeline_items == t1.slots@[i].node.pipeline_items
        &&& t3.slots@[i].node.handlers == t1.slots@[i].node.handlers
        &&& t1.slots@[i].node.children@.is_prefix_of(t3.slots@[i].node.children@)
    } by {
        let c1 = t1.slots@[i].node.children@;
        let c2 = t2.slots@[i].node.children@;
        let c3 = t3.slots@[i].node.children@;
        assert(c1 =~= c2.subrange(0, c1.len() as int));
        assert(c2 =~= c3.subrange(0, c2.len() as int));
        assert(c1 =~= c3.subrange(0, c1.len() as int));
    }
}

impl Namespace {
    /// A handle to the child namespace named `name`, creating it first
    /// when it does not exist yet. An existing tree is only ever extended:
    /// nothing already registered moves or disappears.
    #[verifier::loop_isolation(false)]
    pub fn namespace_or_create(&self, tree: &mut EntityTree, name: String) -> (r: Result<
        Namespace,
        BridgeError,
    >)
        requires
            old(tree).wf(),
            name@.len() > 0,
        ensures
            final(tree).wf(),
            r is Ok <==> old(tree).valid(*self),
            r matches Err(e) ==> e == BridgeError::StaleHandle && *final(tree) == *old(tree),
            r matches Ok(c) ==> ({
                &&& extends(*old(tree), *final(tree))
                &&& final(tree).valid(c)
                &&& final(tree).valid(*self)
                &&& lookup(final(tree).node_of(*self).children@, name@) == Some(c.handle.index)
                &&& path_view(final(tree).node_of(c).path) == path_view(
                    old(tree).node_of(*self).path,
                ).push(name@)
                &&& has_key(old(tree).node_of(*self).children@, name@) ==> *final(tree) == *old(
                    tree,
                )
                &&& !has_key(old(tree).node_of(*self).children@, name@) ==> ({
                    &&& final(tree).slots@.len() == old(tree).slots@.len() + 1
                    &&& c.handle.index == old(tree).slots@.len()
                    &&& final(tree).node_of(c).fresh(
                        path_view(old(tree).node_of(*self).path).push(name@),
                    )
                })
            }),
    {
        let idx = self.handle.index;
        if idx >= tree.slots.len() || tree.slots[idx].generation != self.handle.generation {
            return Err(BridgeError::StaleHandle);
        }
        match find_key(&tree.slots[idx].node.children, &name) {
            Some(i) => {
                proof {
                    lemma_lookup_at(tree.slots@[idx as int].node.children@, name@, i as int);
                }
                let child_idx = tree.slots[idx].node.children[i].1;
                Ok(
                    Namespace {
                        handle: Handle {
                            index: child_idx,
                            generation: tree.slots[child_idx].generation,
                        },
                    },
                )
            },
            None => {
                let new_idx = tree.slots.len();
                let mut child_path = tree.slots[idx].node.path.clone();
                child_path.push(name.clone());
                proof {
                    let pp = old(tree).node_of(*self).path;
                    assert forall|k: int| 0 <= k < path_view(child_path).len() implies path_view(
                        child_path,
                    )[k] == path_view(pp).push(name@)[k] by {
                        if k < pp@.len() {
                            assert(cloned::<String>(pp@[k], child_path@[k]));
                        }
                    }
                    assert(path_view(child_path) =~= path_view(pp).push(name@));
                }
                let node = NamespaceNode {
                    path: child_path,
                    children: Vec::new(),
                    model_decorators: Vec::new(),
                    field_decorators: Vec::new(),
                    relation_decorators: Vec::new(),
                    property_decorators: Vec::new(),
                    pipeline_items: Vec::new(),
                    handlers: Vec::new(),
                };
                tree.slots.push(NamespaceSlot { generation: 0, node });
                proof {
                    lemma_lookup_push(
                        tree.slots@[idx as int].node.children@,
                        name,
                        new_idx,
                    );
                }
                tree.slots[idx].node.children.push((name, new_idx));
                proof {
                    let t1 = *old(tree);
                    let t2 = *tree;
                    assert forall|i: int, j: int|
                        0 <= i < t2.slots@.len() && 0 <= j < t2.slots@[i].node.children@.len()
                        implies {
                        &&& 0 < (#[trigger] t2.slots@[i].node.children@[j]).1 < t2.slots@.len()
                        &&& path_view(
                            t2.slots@[t2.slots@[i].node.children@[j].1 as int].node.path,
                        ) == path_view(t2.slots@[i].node.path).push(
                            t2.slots@[i].node.children@[j].0@,
                        )
                    } by {
                        if i == idx as int && j == t2.slots@[i].node.children@.len() - 1 {
                        } else {
                            assert(t2.slots@[i].node.children@[j]
                                == t1.slots@[i].node.children@[j]);
                        }
                    }
                    assert(t1.slots@[idx as int].node.children@.is_prefix_of(
                        t2.slots@[idx as int].node.children@,
                    ));
                }
                Ok(Namespace { handle: Handle { index: new_idx, generation: 0 } })
            },
        }
    }

    /// Follow a whole path of child names down from this namespace: a
    /// handle to the namespace it leads to, or nothing as soon as a name
    /// is missing.
    #[verifier::loop_isolation(false)]
    pub fn namespace_at_path(&self, tree: &EntityTree, path: &Vec<String>) -> (r: Result<
        Option<Namespace>,
        BridgeError,
    >)
        requires
            tree.wf(),
        ensures
            r is Ok <==> tree.valid(*self),
            r matches Err(e) ==> e == BridgeError::StaleHandle,
            r matches Ok(c) ==> ({
                &&& c is Some <==> resolve_path(
                    *tree,
                    self.handle.index as int,
                    path_view(*path),
                ) is Some
                &&& c matches Some(ns) ==> ({
                    &&& tree.valid(ns)
                    &&& Some(ns.handle.index as int) == resolve_path(
                        *tree,
                        self.handle.index as int,
                        path_view(*path),
                    )
                })
            }),
    {
        let idx = self.handle.index;
        if idx >= tree.slots.len() || tree.slots[idx].generation != self.handle.generation {
            return Err(BridgeError::StaleHandle);
        }
        let ghost pv = path_view(*path);
        let mut cur: usize = idx;
        let mut i: usize = 0;
        proof {
            assert(pv.skip(0) =~= pv);
        }
        while i < path.len()
            invariant
                i <= path@.len(),
                cur < tree.slots@.len(),
                resolve_path(*tree, idx as int, pv) == resolve_path(
                    *tree,
                    cur as int,
                    pv.skip(i as int),
                ),
            decreases path@.len() - i,
        {
            match find_key(&tree.slots[cur].node.children, &path[i]) {
                Some(j) => {
                    proof {
                        lemma_lookup_at(
                            tree.slots@[cur as int].node.children@,
                            path@[i as int]@,
                            j as int,
                        );
                        assert(pv.skip(i as int)[0] == pv[i as int]);
                        assert(pv.skip(i as int).skip(1) =~= pv.skip(i + 1));
                    }
                    cur = tree.slots[cur].node.children[j].1;
                },
                None => {
                    proof {
                        assert(pv.skip(i as int)[0] == pv[i as int]);
                    }
                    return Ok(None);
                },
            }
            i = i + 1;
        }
        proof {
            assert(pv.skip(path@.len() as int).len() == 0);
        }
        Ok(
            Some(
                Namespace {
                    handle: Handle { index: cur, generation: tree.slots[cur].generation },
                },
            ),
        )
    }

    /// Follow a whole path of child names down from this namespace,
    /// creating every namespace missing along the way. An existing tree is
    /// only ever extended.
    #[verifier::loop_isolation(false)]
    pub fn namespace_or_create_at_path(&self, tree: &mut EntityTree, path: &Vec<String>) -> (r:
        Result<Namespace, BridgeError>)
        requires
            old(tree).wf(),
            forall|i: int| 0 <= i < path@.len() ==> (#[trigger] path@[i])@.len() > 0,
        ensures
            final(tree).wf(),
            r is Ok <==> old(tree).valid(*self),
            r matches Err(e) ==> e == BridgeError::StaleHandle && *final(tree) == *old(tree),
            r matches Ok(c) ==> ({
                &&& extends(*old(tree), *final(tree))
                &&& final(tree).valid(c)
                &&& path_view(final(tree).node_of(c).path) == path_view(
                    old(tree).node_of(*self).path,
                ) + path_view(*path)
                &&& resolve_path(*final(tree), self.handle.index as int, path_view(*path))
                    == Some(c.handle.index as int)
            }),
    {
        let idx = self.handle.index;
        if idx >= tree.slots.len() || tree.slots[idx].generation != self.handle.generation {
            return Err(BridgeError::StaleHandle);
        }
        let ghost pv = path_view(*path);
        let ghost base = path_view(old(tree).node_of(*self).path);
        let mut cur = Namespace {
            handle: Handle { index: idx, generation: self.handle.generation },
        };
        let mut i: usize = 0;
        proof {
            assert(base + pv.take(0) =~= base);
            assert(pv.take(0) =~= Seq::<Seq<char>>::empty());
        }
        while i < path.len()
            invariant
                i <= path@.len(),
                tree.wf(),
                extends(*old(tree), *tree),
                tree.valid(cur),
                path_view(tree.node_of(cur).path) == base + pv.take(i as int),
                cur.handle.index < tree.slots@.len(),
                resolve_path(*tree, idx as int, pv.take(i as int)) == Some(
                    cur.handle.index as int,
                ),
            decreases path@.len() - i,
        {
            let ghost before = *tree;
            let next = match cur.namespace_or_create(tree, path[i].clone()) {
                Ok(n) => n,
                Err(_) => {
                    proof {
                        assert(false);
                    }
                    return Err(BridgeError::StaleHandle);
                },
            };
            proof {
                lemma_extends_trans(*old(tree), before, *tree);
                assert((base + pv.take(i as int)).push(pv[i as int]) =~= base + pv.take(i + 1));
                lemma_resolve_extends(before, *tree, idx as int, pv.take(i as int));
                lemma_resolve_snoc(*tree, idx as int, pv.take(i as int), pv[i as int]);
                assert(lookup(tree.node_of(cur).children@, pv[i as int]) == Some(
                    next.handle.index,
                ));
                assert(pv.take(i as int).push(pv[i as int]) =~= pv.take(i + 1));
            }
            cur = next;
            i = i + 1;
        }
        proof {
            assert(base + pv.take(path@.len() as int) =~= base + pv);
            assert(pv.take(path@.len() as int) =~= pv);
        }
        Ok(cur)
    }
}

/// What registering a host callback under `name` in the behavior table of
/// kind `kind` on namespace `ns` does.
///
/// A stale handle is refused with the tree and the registry untouched. A
/// name already taken in the same scope is a registration conflict, also
/// with everything untouched: the first registration stays active.
/// Otherwise the callback is wrapped as a registry entry with the shape
/// and mode of its kind, the name is bound to it, and nothing else in the
/// tree changes.
pub open spec fn define_post(
    t1: EntityTree,
    c1: CallbackTable,
    t2: EntityTree,
    c2: CallbackTable,
    ns: Namespace,
    kind: TableKind,
    name: String,
    host_fn: u64,
    r: Result<(), BridgeError>,
) -> bool {
    &&& t2.wf()
    &&& (r is Ok <==> (t1.valid(ns) && !has_key(t1.node_of(ns).table(kind), name@)))
    &&& (!t1.valid(ns) ==> (r matches Err(e) && e == BridgeError::StaleHandle && t2 == t1 && c2
        == c1))
    &&& ((t1.valid(ns) && has_key(t1.node_of(ns).table(kind), name@)) ==> (r matches Err(e)
        && (e matches BridgeError::RegistrationConflict { name: n } && n@ == name@) && t2 == t1
        && c2 == c1))
    &&& (r is Ok ==> ({
        let id = CallbackId { id: c1.entries@.len() as usize };
        &&& c2.entries@ == c1.entries@.push(registered_for(kind, host_fn))
        &&& t2.valid(ns)
        &&& t2.slots@.len() == t1.slots@.len()
        &&& t2.node_of(ns).table(kind) == t1.node_of(ns).table(kind).push((name, id))
        &&& lookup(t2.node_of(ns).table(kind), name@) == Some(id)
        &&& forall|k2: TableKind|
            k2 != kind ==> #[trigger] t2.node_of(ns).table(k2) == t1.node_of(ns).table(k2)
        &&& t2.node_of(ns).children == t1.node_of(ns).children
        &&& t2.node_of(ns).path == t1.node_of(ns).path
        &&& forall|i: int|
            0 <= i < t1.slots@.len() && i != ns.handle.index ==> #[trigger] t2.slots@[i]
                == t1.slots@[i]
        &&& t2.slots@[ns.handle.index as int].generation == t1.slots@[ns.handle.index as int].generation
    }))
}

impl Namespace {
    /// Register a host callback in one of this namespace's behavior
    /// tables; see `define_post` for the full contract.
    fn define_in(
        &self,
        tree: &mut EntityTree,
        callbacks: &mut CallbackTable,
        kind: TableKind,
        name: String,
        host_fn: u64,
    ) -> (r: Result<(), BridgeError>)
        requires
            old(tree).wf(),
            name@.len() > 0,
        ensures
            define_post(
                *old(tree),
                *old(callbacks),
                *final(tree),
                *final(callbacks),
                *self,
                kind,
                name,
                host_fn,
                r,
            ),
    {
        let idx = self.handle.index;
        if idx >= tree.slots.len() || tree.slots[idx].generation != self.handle.generation {
            return Err(BridgeError::StaleHandle);
        }
        let dup = match kind {
            TableKind::ModelDecorator => find_key(
                &tree.slots[idx].node.model_decorators,
                &name,
            ).is_some(),
            TableKind::FieldDecorator => find_key(
                &tree.slots[idx].node.field_decorators,
                &name,
            ).is_some(),
            TableKind::RelationDecorator => find_key(
                &tree.slots[idx].node.relation_decorators,
                &name,
            ).is_some(),
            TableKind::PropertyDecorator => find_key(
                &tree.slots[idx].node.property_decorators,
                &name,
            ).is_some(),
            TableKind::PipelineItem => find_key(&tree.slots[idx].node.pipeline_items, &name).is_some(),
            TableKind::Handler => find_key(&tree.slots[idx].node.handlers, &name).is_some(),
        };
        if dup {
            return Err(BridgeError::RegistrationConflict { name });
        }
        let entry = match kind {
            TableKind::PipelineItem => RegisteredCallback {
                host_fn,
                args: ArgumentShape::PipelineItem,
                result: ResultShape::Transformed,
                mode: InvocationMode::Async,
            },
            TableKind::Handler => RegisteredCallback {
                host_fn,
                args: ArgumentShape::Handler,
                result: ResultShape::Response,
                mode: InvocationMode::Async,
            },
            _ => RegisteredCallback {
                host_fn,
                args: ArgumentShape::Decorator,
                result: ResultShape::Void,
                mode: InvocationMode::Blocking,
            },
        };
        let id = callbacks.register(entry);
        proof {
            lemma_lookup_push(tree.node_of(*self).table(kind), name, id);
        }
        match kind {
            TableKind::ModelDecorator => tree.slots[idx].node.model_decorators.push((name, id)),
            TableKind::FieldDecorator => tree.slots[idx].node.field_decorators.push((name, id)),
            TableKind::RelationDecorator => tree.slots[idx].node.relation_decorators.push(
                (name, id),
            ),
            TableKind::PropertyDecorator => tree.slots[idx].node.property_decorators.push(
                (name, id),
            ),
            TableKind::PipelineItem => tree.slots[idx].node.pipeline_items.push((name, id)),
            TableKind::Handler => tree.slots[idx].node.handlers.push((name, id)),
        }
        proof {
            let t1 = *old(tree);
            let t2 = *tree;
            assert forall|i: int, j: int|
                0 <= i < t2.slots@.len() && 0 <= j < t2.slots@[i].node.children@.len() implies {
                &&& 0 < (#[trigger] t2.slots@[i].node.children@[j]).1 < t2.slots@.len()
                &&& path_view(t2.slots@[t2.slots@[i].node.children@[j].1 as int].node.path)
                    == path_view(t2.slots@[i].node.path).push(t2.slots@[i].node.children@[j].0@)
            } by {
                assert(t2.slots@[i].node.children@[j] == t1.slots@[i].node.children@[j]);
            }
        }
        Ok(())
    }

    /// Invoke the callback registered under `name` in this namespace's
    /// table of kind `kind`: one invocation request with the given
    /// argument tuple is enqueued onto the host queue. Nothing is enqueued
    /// for a name with no registration, and a stale handle is refused.
    pub fn invoke(
        &self,
        tree: &EntityTree,
        dispatcher: &mut Dispatcher,
        kind: TableKind,
        name: &String,
        args: Vec<HostValue>,
    ) -> (r: Result<Option<usize>, BridgeError>)
        requires
            tree.wf(),
            old(dispatcher).wf(),
            old(dispatcher).issued() < usize::MAX,
        ensures
            final(dispatcher).wf(),
            r is Ok <==> tree.valid(*self),
            r matches Err(e) ==> e == BridgeError::StaleHandle && *final(dispatcher) == *old(
                dispatcher,
            ),
            r matches Ok(t) ==> ({
                &&& t is Some <==> has_key(tree.node_of(*self).table(kind), name@)
                &&& t is None ==> *final(dispatcher) == *old(dispatcher)
                &&& t matches Some(ticket) ==> ({
                    &&& ticket == old(dispatcher).issued()
                    &&& lookup(tree.node_of(*self).table(kind), name@) matches Some(cb)
                        && final(dispatcher).pending@ == old(dispatcher).pending@.push(
                        (InvocationRequest { ticket, callback: cb, args }),
                    )
                    &&& final(dispatcher).begun@ == old(dispatcher).begun@
                })
            }),
    {
        let idx = self.handle.index;
        if idx >= tree.slots.len() || tree.slots[idx].generation != self.handle.generation {
            return Err(BridgeError::StaleHandle);
        }
        let found = match kind {
            TableKind::ModelDecorator => find_key(&tree.slots[idx].node.model_decorators, name),
            TableKind::FieldDecorator => find_key(&tree.slots[idx].node.field_decorators, name),
            TableKind::RelationDecorator => find_key(
                &tree.slots[idx].node.relation_decorators,
                name,
            ),
            TableKind::PropertyDecorator => find_key(
                &tree.slots[idx].node.property_decorators,
                name,
            ),
            TableKind::PipelineItem => find_key(&tree.slots[idx].node.pipeline_items, name),
            TableKind::Handler => find_key(&tree.slots[idx].node.handlers, name),
        };
        match found {
            None => Ok(None),
            Some(i) => {
                proof {
                    lemma_lookup_at(tree.node_of(*self).table(kind), name@, i as int);
                }
                let cb = match kind {
                    TableKind::ModelDecorator => tree.slots[idx].node.model_decorators[i].1,
                    TableKind::FieldDecorator => tree.slots[idx].node.field_decorators[i].1,
                    TableKind::RelationDecorator => tree.slots[idx].node.relation_decorators[i].1,
                    TableKind::PropertyDecorator => tree.slots[idx].node.property_decorators[i].1,
                    TableKind::PipelineItem => tree.slots[idx].node.pipeline_items[i].1,
                    TableKind::Handler => tree.slots[idx].node.handlers[i].1,
                };
                let ticket = dispatcher.enqueue(cb, args);
                Ok(Some(ticket))
            },
        }
    }

    /// Register a blocking model decorator callback under `name`.
    pub fn define_model_decorator(
        &self,
        tree: &mut EntityTree,
        callbacks: &mut CallbackTable,
        name: String,
        host_fn: u64,
    ) -> (r: Result<(), BridgeError>)
        requires
            old(tree).wf(),
            name@.len() > 0,
        ensures
            define_post(
                *old(tree),
                *old(callbacks),
                *final(tree),
                *final(callbacks),
                *self,
                TableKind::ModelDecorator,
                name,
                host_fn,
                r,
            ),
    {
        self.define_in(tree, callbacks, TableKind::ModelDecorator, name, host_fn)
    }

    /// Register a blocking model field decorator callback under `name`.
    pub fn define_model_field_decorator(
        &self,
        tree: &mut EntityTree,
        callbacks: &mut CallbackTable,
        name: String,
        host_fn: u64,
    ) -> (r: Result<(), BridgeError>)
        requires
            old(tree).wf(),
            name@.len() > 0,
        ensures
            define_post(
                *old(tree),
                *old(callbacks),
                *final(tree),
                *final(callbacks),
                *self,
                TableKind::FieldDecorator,
                name,
                host_fn,
                r,
            ),
    {
        self.define_in(tree, callbacks, TableKind::FieldDecorator, name, host_fn)
    }

    /// Register a blocking model relation decorator callback under `name`.
    pub fn define_model_relation_decorator(
        &self,
        tree: &mut EntityTree,
        callbacks: &mut CallbackTable,
        name: String,
        host_fn: u64,
    ) -> (r: Result<(), BridgeError>)
        requires
            old(tree).wf(),
            name@.len() > 0,
        ensures
            define_post(
                *old(tree),
                *old(callbacks),
                *final(tree),
                *final(callbacks),
                *self,
                TableKind::RelationDecorator,
                name,
                host_fn,
                r,
            ),
    {
        self.define_in(tree, callbacks, TableKind::RelationDecorator, name, host_fn)
    }

    /// Register a blocking model property decorator callback under `name`.
    pub fn define_model_property_decorator(
        &self,
        tree: &mut EntityTree,
        callbacks: &mut CallbackTable,
        name: String,
        host_fn: u64,
    ) -> (r: Result<(), BridgeError>)
        requires
            old(tree).wf(),
            name@.len() > 0,
        ensures
            define_post(
                *old(tree),
                *old(callbacks),
                *final(tree),
                *final(callbacks),
                *self,
                TableKind::PropertyDecorator,
                name,
                host_fn,
                r,
            ),
    {
        self.define_in(tree, callbacks, TableKind::PropertyDecorator, name, host_fn)
    }

    /// Register an async pipeline item callback under `name`.
    pub fn define_pipeline_item(
        &self,
        tree: &mut EntityTree,
        callbacks: &mut CallbackTable,
        name: String,
        host_fn: u64,
    ) -> (r: Result<(), BridgeError>)
        requires
            old(tree).wf(),
            name@.len() > 0,
        ensures
            define_post(
                *old(tree),
                *old(callbacks),
                *final(tree),
                *final(callbacks),
                *self,
                TableKind::PipelineItem,
                name,
                host_fn,
                r,
            ),
    {
        self.define_in(tree, callbacks, TableKind::PipelineItem, name, host_fn)
    }

    /// Register an async request handler callback under `name`.
    pub fn define_handler(
        &self,
        tree: &mut EntityTree,
        callbacks: &mut CallbackTable,
        name: String,
        host_fn: u64,
    ) -> (r: Result<(), BridgeError>)
        requires
            old(tree).wf(),
            name@.len() > 0,
        ensures
            define_post(
                *old(tree),
                *old(callbacks),
                *final(tree),
                *final(callbacks),
                *self,
                TableKind::Handler,
                name,
                host_fn,
                r,
            ),
    {
        self.define_in(tree, callbacks, TableKind::Handler, name, host_fn)
    }
}

} // verus!
