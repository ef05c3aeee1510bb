//! The validation engine: the single entry point that checks a whole
//! project and returns the complete list of defects.
//!
//! The pass is not fail-fast: every namespace entry is checked
//! independently and every node of every tree is visited, so one
//! invocation surfaces the full defect list. The report order is fixed:
//! duplicate names (trees, then actions, then structs), then per-tree
//! checks in stored order (blackboard defaults, the root walk, floating
//! nodes), then struct field shapes, then tree-reference cycles, then
//! struct-definition cycles.

use vstd::prelude::*;
use crate::algebra::Argument;
use crate::algebra::ArgumentDiscriminant;
use crate::algebra::arg_shape;
use crate::algebra::shape_of;
use crate::cycles::find_cycles;
use crate::cycles::graph_cycles;
use crate::errors::ErrorModel;
use crate::errors::Namespace;
use crate::schema::BehaviorTree;
use crate::schema::Project;
use crate::schema::Decorator;
use crate::schema::Node;
use crate::schema::NodeClass;
use crate::schema::Task;
use crate::schema::UserAction;
use crate::schema::UserActionInput;
use crate::schema::UserStruct;
use crate::errors::ValidationError;

verus! {

/// First value bound to `name`, scanning in stored order.
pub open spec fn assoc_lookup<T>(s: Seq<(String, T)>, name: Seq<char>) -> Option<T>
    decreases s.len(),
{
    if s.len() == 0 {
        Option::None
    } else if s[0].0@ == name {
        Option::Some(s[0].1)
    } else {
        assoc_lookup(s.subrange(1, s.len() as int), name)
    }
}

/// The keys of an association list, in stored order.
pub open spec fn pair_keys<T>(s: Seq<(String, T)>) -> Seq<Seq<char>>
    decreases s.len(),
{
    if s.len() == 0 {
        Seq::empty()
    } else {
        seq![s[0].0@] + pair_keys(s.subrange(1, s.len() as int))
    }
}

pub proof fn lemma_pair_keys_index<T>(s: Seq<(String, T)>)
    ensures
        pair_keys(s).len() == s.len(),
        forall|k: int| 0 <= k < s.len() ==> pair_keys(s)[k] == s[k].0@,
    decreases s.len(),
{
    if s.len() > 0 {
        lemma_pair_keys_index(s.subrange(1, s.len() as int));
    }
}

/// How often `x` occurs among `names`.
pub open spec fn count_name(names: Seq<Seq<char>>, x: Seq<char>) -> nat
    decreases names.len(),
{
    if names.len() == 0 {
        0
    } else {
        (if names[0] == x {
            1nat
        } else {
            0nat
        }) + count_name(names.subrange(1, names.len() as int), x)
    }
}

/// Whether `x` occurs among `names`.
pub open spec fn has_name(names: Seq<Seq<char>>, x: Seq<char>) -> bool {
    exists|k: int| 0 <= k < names.len() && names[k] == x
}

/// One report per name value that occurs more than once: at its second
/// occurrence, scanning in stored order.
pub open spec fn duplicate_errors(names: Seq<Seq<char>>, ns: Namespace) -> Seq<ErrorModel>
    decreases names.len(),
{
    if names.len() == 0 {
        Seq::empty()
    } else {
        let prefix = names.subrange(0, names.len() - 1);
        duplicate_errors(prefix, ns) + (if count_name(prefix, names.last()) == 1 {
            seq![ErrorModel::DuplicateName { namespace: ns, name: names.last() }]
        } else {
            Seq::empty()
        })
    }
}

/// First value bound to `name`, or nothing.
pub fn assoc_find<'a, T>(v: &'a Vec<(String, T)>, name: &String) -> (r: Option<&'a T>)
    ensures
        match r {
            Option::Some(t) => assoc_lookup(v@, name@) == Option::Some(*t),
            Option::None => assoc_lookup(v@, name@) is None,
        },
{
    proof {
        assert(v@.subrange(0, v@.len() as int) =~= v@);
    }
    let mut i: usize = 0;
    while i < v.len()
        invariant
            i <= v@.len(),
            assoc_lookup(v@, name@) == assoc_lookup(
                v@.subrange(i as int, v@.len() as int),
                name@,
            ),
        decreases v@.len() - i,
    {
        let ghost rem = v@.subrange(i as int, v@.len() as int);
        proof {
            assert(rem[0] == v@[i as int]);
            assert(rem.subrange(1, rem.len() as int) =~= v@.subrange(
                i + 1,
                v@.len() as int,
            ));
        }
        let entry = &v[i];
        if entry.0 == *name {
            return Option::Some(&entry.1);
        }
        i = i + 1;
    }
    Option::None
}

/// Append the duplicate-name reports for one namespace.
#[verifier::loop_isolation(false)]
fn push_duplicate_errors<T>(
    errs: &mut Vec<ValidationError>,
    items: &Vec<(String, T)>,
    ns: Namespace,
)
    ensures
        final(errs).deep_view() == old(errs).deep_view() + duplicate_errors(
            pair_keys(items@),
            ns,
        ),
{
    let ghost keys = pair_keys(items@);
    proof {
        lemma_pair_keys_index(items@);
        assert(keys.subrange(0, 0) =~= Seq::<Seq<char>>::empty());
        assert(old(errs).deep_view() + duplicate_errors(keys.subrange(0, 0), ns) =~= old(
            errs,
        ).deep_view());
    }
    let mut i: usize = 0;
    while i < items.len()
        invariant
            i <= items@.len(),
            errs.deep_view() == old(errs).deep_view() + duplicate_errors(
                keys.subrange(0, i as int),
                ns,
            ),
        decreases items@.len() - i,
    {
        let ghost upto = keys.subrange(0, i as int);
        let mut cnt: usize = 0;
        let mut j: usize = 0;
        proof {
            assert(upto.subrange(0, upto.len() as int) =~= upto);
        }
        while j < i
            invariant
                j <= i,
                cnt as int <= j as int,
                cnt as nat + count_name(upto.subrange(j as int, i as int), keys[i as int])
                    == count_name(upto, keys[i as int]),
            decreases i - j,
        {
            let ghost rem = upto.subrange(j as int, i as int);
            proof {
                assert(rem[0] == keys[j as int]);
                assert(rem.subrange(1, rem.len() as int) =~= upto.subrange(
                    j + 1,
                    i as int,
                ));
            }
            if items[j].0 == items[i].0 {
                cnt = cnt + 1;
            }
            j = j + 1;
        }
        proof {
            assert(upto.subrange(i as int, i as int) =~= Seq::<Seq<char>>::empty());
        }
        if cnt == 1 {
            let e = ValidationError::DuplicateName { namespace: ns, name: items[i].0.clone() };
            let ghost pre = errs.deep_view();
            errs.push(e);
            proof {
                assert(errs.deep_view() =~= pre.push(e@));
            }
        }
        i = i + 1;
        proof {
            let now = keys.subrange(0, i as int);
            assert(now.subrange(0, now.len() - 1) =~= upto);
            assert(now.last() == keys[i - 1]);
            assert(errs.deep_view() =~= old(errs).deep_view() + duplicate_errors(now, ns));
        }
    }
    proof {
        assert(keys.subrange(0, items@.len() as int) =~= keys);
    }
}

/// Shape defects of one typed value: a fixed-size array descriptor of
/// length zero, anywhere inside the value.
pub open spec fn arg_shape_errors(
    a: Argument,
    ns: Namespace,
    owner: Seq<char>,
    path: Seq<usize>,
) -> Seq<ErrorModel>
    decreases a,
{
    match a {
        Argument::FixedArray(e, n) => (if n == 0 {
            seq![ErrorModel::InvalidShape { namespace: ns, name: owner, node_path: path }]
        } else {
            Seq::empty()
        }) + arg_shape_errors(*e, ns, owner, path),
        Argument::Tuple(v) => args_shape_errors(v@, ns, owner, path),
        _ => Seq::empty(),
    }
}

/// Shape defects of a list of typed values, in order.
pub open spec fn args_shape_errors(
    s: Seq<Argument>,
    ns: Namespace,
    owner: Seq<char>,
    path: Seq<usize>,
) -> Seq<ErrorModel>
    decreases s,
{
    if s.len() == 0 {
        Seq::empty()
    } else {
        args_shape_errors(s.subrange(0, s.len() - 1), ns, owner, path) + arg_shape_errors(
            s.last(),
            ns,
            owner,
            path,
        )
    }
}

/// Shape defects of the values of a name-keyed list, in stored order.
pub open spec fn pairs_shape_errors(
    s: Seq<(String, Argument)>,
    ns: Namespace,
    owner: Seq<char>,
    path: Seq<usize>,
) -> Seq<ErrorModel>
    decreases s,
{
    if s.len() == 0 {
        Seq::empty()
    } else {
        pairs_shape_errors(s.subrange(0, s.len() - 1), ns, owner, path) + arg_shape_errors(
            s.last().1,
            ns,
            owner,
            path,
        )
    }
}

/// Defects of one decorator against the enclosing tree's blackboard.
pub open spec fn decorator_errors(
    d: Decorator,
    bb: Seq<(String, Argument)>,
    tree: Seq<char>,
    path: Seq<usize>,
) -> Seq<ErrorModel> {
    match d {
        Decorator::BlackboardEquals(name, lit) => (match assoc_lookup(bb, name@) {
            Option::None => seq![
                ErrorModel::UndeclaredBlackboardVariable {
                    tree,
                    node_path: path,
                    name: name@,
                },
            ],
            Option::Some(decl) => if arg_shape(decl) == arg_shape(lit) {
                Seq::empty()
            } else {
                seq![
                    ErrorModel::TypeMismatch {
                        tree,
                        node_path: path,
                        expected: arg_shape(decl),
                        actual: arg_shape(lit),
                    },
                ]
            },
        }) + arg_shape_errors(lit, Namespace::Trees, tree, path),
        Decorator::BlackboardNonEmpty(name) => if assoc_lookup(bb, name@) is Some {
            Seq::empty()
        } else {
            seq![
                ErrorModel::UndeclaredBlackboardVariable {
                    tree,
                    node_path: path,
                    name: name@,
                },
            ]
        },
        Decorator::UserEval { logic_name, inputs, default } => pairs_shape_errors(
            inputs@,
            Namespace::Trees,
            tree,
            path,
        ),
    }
}

/// Defects of a list of decorators, in order.
pub open spec fn decorators_errors(
    ds: Seq<Decorator>,
    bb: Seq<(String, Argument)>,
    tree: Seq<char>,
    path: Seq<usize>,
) -> Seq<ErrorModel>
    decreases ds.len(),
{
    if ds.len() == 0 {
        Seq::empty()
    } else {
        decorators_errors(ds.subrange(0, ds.len() - 1), bb, tree, path) + decorator_errors(
            ds.last(),
            bb,
            tree,
            path,
        )
    }
}

/// Defects of one filled input slot against its declared type.
pub open spec fn one_input_errors(
    b: UserActionInput,
    sig: ArgumentDiscriminant,
    slot: int,
    bb: Seq<(String, Argument)>,
    tree: Seq<char>,
    path: Seq<usize>,
    allow_unspecified: bool,
) -> Seq<ErrorModel> {
    match b {
        UserActionInput::Unspecified => if allow_unspecified {
            Seq::empty()
        } else {
            seq![
                ErrorModel::UnspecifiedInput { tree, node_path: path, slot: slot as usize },
            ]
        },
        UserActionInput::Blackboard(name) => match assoc_lookup(bb, name@) {
            Option::None => seq![
                ErrorModel::UndeclaredBlackboardVariable {
                    tree,
                    node_path: path,
                    name: name@,
                },
            ],
            Option::Some(decl) => if arg_shape(decl) == shape_of(sig) {
                Seq::empty()
            } else {
                seq![
                    ErrorModel::TypeMismatch {
                        tree,
                        node_path: path,
                        expected: shape_of(sig),
                        actual: arg_shape(decl),
                    },
                ]
            },
        },
        UserActionInput::Argument(lit) => (if arg_shape(lit) == shape_of(sig) {
            Seq::empty()
        } else {
            seq![
                ErrorModel::TypeMismatch {
                    tree,
                    node_path: path,
                    expected: shape_of(sig),
                    actual: arg_shape(lit),
                },
            ]
        }) + arg_shape_errors(lit, Namespace::Trees, tree, path),
    }
}

/// Defects of all input bindings of a call whose arity already matches.
pub open spec fn input_bindings_errors(
    binds: Seq<UserActionInput>,
    sigs: Seq<ArgumentDiscriminant>,
    bb: Seq<(String, Argument)>,
    tree: Seq<char>,
    path: Seq<usize>,
    allow_unspecified: bool,
) -> Seq<ErrorModel>
    decreases binds.len(),
{
    if binds.len() == 0 {
        Seq::empty()
    } else {
        input_bindings_errors(
            binds.subrange(0, binds.len() - 1),
            sigs,
            bb,
            tree,
            path,
            allow_unspecified,
        ) + one_input_errors(
            binds.last(),
            sigs[binds.len() - 1],
            binds.len() - 1,
            bb,
            tree,
            path,
            allow_unspecified,
        )
    }
}

/// Defects of one output binding against its declared type.
pub open spec fn one_output_errors(
    b: Option<String>,
    sig: ArgumentDiscriminant,
    bb: Seq<(String, Argument)>,
    tree: Seq<char>,
    path: Seq<usize>,
) -> Seq<ErrorModel> {
    match b {
        Option::None => Seq::empty(),
        Option::Some(name) => match assoc_lookup(bb, name@) {
            Option::None => seq![
                ErrorModel::UndeclaredBlackboardVariable {
                    tree,
                    node_path: path,
                    name: name@,
                },
            ],
            Option::Some(decl) => if arg_shape(decl) == shape_of(sig) {
                Seq::empty()
            } else {
                seq![
                    ErrorModel::TypeMismatch {
                        tree,
                        node_path: path,
                        expected: shape_of(sig),
                        actual: arg_shape(decl),
                    },
                ]
            },
        },
    }
}

/// Defects of all output bindings of a call whose arity already matches.
pub open spec fn output_bindings_errors(
    binds: Seq<Option<String>>,
    sigs: Seq<ArgumentDiscriminant>,
    bb: Seq<(String, Argument)>,
    tree: Seq<char>,
    path: Seq<usize>,
) -> Seq<ErrorModel>
    decreases binds.len(),
{
    if binds.len() == 0 {
        Seq::empty()
    } else {
        output_bindings_errors(binds.subrange(0, binds.len() - 1), sigs, bb, tree, path)
            + one_output_errors(binds.last(), sigs[binds.len() - 1], bb, tree, path)
    }
}

/// Defects of one task: action resolution, binding arity against the
/// signature, and — when the arity matches — every binding's type.
pub open spec fn task_errors(
    t: Task,
    actions: Seq<(String, UserAction)>,
    bb: Seq<(String, Argument)>,
    tree: Seq<char>,
    path: Seq<usize>,
    allow_unspecified: bool,
) -> Seq<ErrorModel> {
    match t {
        Task::UserAction { key, input_bindings, output_bindings } => match assoc_lookup(
            actions,
            key@,
        ) {
            Option::None => seq![
                ErrorModel::UnresolvedActionReference { tree, node_path: path, key: key@ },
            ],
            Option::Some(sig) => (if input_bindings@.len() != sig.inputs@.len() {
                seq![
                    ErrorModel::ArityMismatch {
                        tree,
                        node_path: path,
                        expected: sig.inputs@.len() as usize,
                        actual: input_bindings@.len() as usize,
                    },
                ]
            } else {
                input_bindings_errors(
                    input_bindings@,
                    sig.inputs@,
                    bb,
                    tree,
                    path,
                    allow_unspecified,
                )
            }) + (if output_bindings@.len() != sig.outputs@.len() {
                seq![
                    ErrorModel::ArityMismatch {
                        tree,
                        node_path: path,
                        expected: sig.outputs@.len() as usize,
                        actual: output_bindings@.len() as usize,
                    },
                ]
            } else {
                output_bindings_errors(output_bindings@, sig.outputs@, bb, tree, path)
            }),
        },
        Task::WaitFor { timeout } => Seq::empty(),
        Task::WaitForever => Seq::empty(),
    }
}

/// Defects of one node and everything below it, depth first.
pub open spec fn node_errors(
    node: Node,
    actions: Seq<(String, UserAction)>,
    tree_names: Seq<Seq<char>>,
    bb: Seq<(String, Argument)>,
    tree: Seq<char>,
    path: Seq<usize>,
    allow_unspecified: bool,
) -> Seq<ErrorModel>
    decreases node,
{
    decorators_errors(node.decorators@, bb, tree, path) + match node.class {
        NodeClass::Sequence(sq) => nodes_errors(
            sq.children@,
            actions,
            tree_names,
            bb,
            tree,
            path,
            0,
            allow_unspecified,
        ),
        NodeClass::Selector(sl) => nodes_errors(
            sl.children@,
            actions,
            tree_names,
            bb,
            tree,
            path,
            0,
            allow_unspecified,
        ),
        NodeClass::Decorator(d) => decorator_errors(d, bb, tree, path),
        NodeClass::Task(t) => task_errors(t, actions, bb, tree, path, allow_unspecified),
        NodeClass::TreeRef(r) => if has_name(tree_names, r.relative_path@) {
            Seq::empty()
        } else {
            seq![
                ErrorModel::UnresolvedTreeReference {
                    tree,
                    node_path: path,
                    relative_path: r.relative_path@,
                },
            ]
        },
    }
}

/// Defects of a child list; child `k` is checked at path `base + [start + k]`.
pub open spec fn nodes_errors(
    children: Seq<Node>,
    actions: Seq<(String, UserAction)>,
    tree_names: Seq<Seq<char>>,
    bb: Seq<(String, Argument)>,
    tree: Seq<char>,
    base: Seq<usize>,
    start: int,
    allow_unspecified: bool,
) -> Seq<ErrorModel>
    decreases children,
{
    if children.len() == 0 {
        Seq::empty()
    } else {
        nodes_errors(
            children.subrange(0, children.len() - 1),
            actions,
            tree_names,
            bb,
            tree,
            base,
            start,
            allow_unspecified,
        ) + node_errors(
            children.last(),
            actions,
            tree_names,
            bb,
            tree,
            base.push((start + children.len() - 1) as usize),
            allow_unspecified,
        )
    }
}

/// Defects of one tree: blackboard default shapes, then the root walk at
/// virtual index `0`, then the floating nodes at `1 + i`.
pub open spec fn tree_errors(
    name: Seq<char>,
    bt: BehaviorTree,
    actions: Seq<(String, UserAction)>,
    tree_names: Seq<Seq<char>>,
    allow_unspecified: bool,
) -> Seq<ErrorModel> {
    pairs_shape_errors(bt.blackboard@, Namespace::Trees, name, Seq::empty()) + node_errors(
        bt.root,
        actions,
        tree_names,
        bt.blackboard@,
        name,
        seq![0usize],
        allow_unspecified,
    ) + nodes_errors(
        bt.floating_nodes@,
        actions,
        tree_names,
        bt.blackboard@,
        name,
        Seq::empty(),
        1,
        allow_unspecified,
    )
}

/// Defects of every tree, in stored order.
pub open spec fn trees_errors(
    trees: Seq<(String, BehaviorTree)>,
    actions: Seq<(String, UserAction)>,
    tree_names: Seq<Seq<char>>,
    allow_unspecified: bool,
) -> Seq<ErrorModel>
    decreases trees.len(),
{
    if trees.len() == 0 {
        Seq::empty()
    } else {
        trees_errors(
            trees.subrange(0, trees.len() - 1),
            actions,
            tree_names,
            allow_unspecified,
        ) + tree_errors(
            trees.last().0@,
            trees.last().1,
            actions,
            tree_names,
            allow_unspecified,
        )
    }
}

/// Shape defects of every struct's field defaults, in stored order.
pub open spec fn structs_shape_errors(structs: Seq<(String, UserStruct)>) -> Seq<ErrorModel>
    decreases structs.len(),
{
    if structs.len() == 0 {
        Seq::empty()
    } else {
        structs_shape_errors(structs.subrange(0, structs.len() - 1)) + pairs_shape_errors(
            structs.last().1.fields@,
            Namespace::Structs,
            structs.last().0@,
            Seq::empty(),
        )
    }
}

/// The tree references that occur anywhere under one node, depth first.
pub open spec fn node_tree_refs(node: Node) -> Seq<Seq<char>>
    decreases node,
{
    match node.class {
        NodeClass::Sequence(sq) => nodes_tree_refs(sq.children@),
        NodeClass::Selector(sl) => nodes_tree_refs(sl.children@),
        NodeClass::Decorator(d) => Seq::empty(),
        NodeClass::Task(t) => Seq::empty(),
        NodeClass::TreeRef(r) => seq![r.relative_path@],
    }
}

/// The tree references of a child list, in order.
pub open spec fn nodes_tree_refs(children: Seq<Node>) -> Seq<Seq<char>>
    decreases children,
{
    if children.len() == 0 {
        Seq::empty()
    } else {
        nodes_tree_refs(children.subrange(0, children.len() - 1)) + node_tree_refs(
            children.last(),
        )
    }
}

/// Every tree reference of one tree: the root hierarchy, then the
/// floating nodes.
pub open spec fn tree_refs(bt: BehaviorTree) -> Seq<Seq<char>> {
    node_tree_refs(bt.root) + nodes_tree_refs(bt.floating_nodes@)
}

/// First position of name `x`, or `names.len()` when absent.
pub open spec fn first_name_index(names: Seq<Seq<char>>, x: Seq<char>) -> int
    decreases names.len(),
{
    if names.len() == 0 {
        0
    } else if names[0] == x {
        0
    } else {
        1 + first_name_index(names.subrange(1, names.len() as int), x)
    }
}

pub proof fn lemma_first_name_index(names: Seq<Seq<char>>, x: Seq<char>)
    ensures
        0 <= first_name_index(names, x) <= names.len(),
        first_name_index(names, x) < names.len() ==> names[first_name_index(names, x)] == x,
        forall|k: int| 0 <= k < first_name_index(names, x) ==> names[k] != x,
    decreases names.len(),
{
    if names.len() > 0 && names[0] != x {
        let tail = names.subrange(1, names.len() as int);
        lemma_first_name_index(tail, x);
        assert forall|k: int| 0 <= k < first_name_index(names, x) implies names[k] != x by {
            if k > 0 {
                assert(tail[k - 1] == names[k]);
            }
        }
    }
}

/// The graph targets of a reference list: each reference that names an
/// existing node, as that node's index, unresolved ones dropped.
pub open spec fn resolve_indices(refs: Seq<Seq<char>>, names: Seq<Seq<char>>) -> Seq<usize>
    decreases refs.len(),
{
    if refs.len() == 0 {
        Seq::empty()
    } else {
        resolve_indices(refs.subrange(0, refs.len() - 1), names) + (if first_name_index(
            names,
            refs.last(),
        ) < names.len() {
            seq![first_name_index(names, refs.last()) as usize]
        } else {
            Seq::empty()
        })
    }
}

pub proof fn lemma_resolve_indices_bounds(refs: Seq<Seq<char>>, names: Seq<Seq<char>>)
    ensures
        forall|k: int|
            0 <= k < resolve_indices(refs, names).len() ==> resolve_indices(refs, names)[k]
                < names.len(),
    decreases refs.len(),
{
    if refs.len() > 0 {
        let pre = resolve_indices(refs.subrange(0, refs.len() - 1), names);
        lemma_resolve_indices_bounds(refs.subrange(0, refs.len() - 1), names);
        lemma_first_name_index(names, refs.last());
        assert forall|k: int|
            0 <= k < resolve_indices(refs, names).len() implies resolve_indices(refs, names)[k]
            < names.len() by {
            if k < pre.len() {
                assert(resolve_indices(refs, names)[k] == pre[k]);
            }
        }
    }
}

/// The tree-reference graph: one node per tree, one edge per resolved
/// tree reference encountered in that tree.
pub open spec fn trees_adjacency(
    trees: Seq<(String, BehaviorTree)>,
    names: Seq<Seq<char>>,
) -> Seq<Seq<usize>> {
    Seq::new(trees.len(), |i: int| resolve_indices(tree_refs(trees[i].1), names))
}

/// The struct names referenced by a field list: one per field whose
/// type descriptor is a struct reference, in stored order.
pub open spec fn fields_struct_refs(fields: Seq<(String, Argument)>) -> Seq<Seq<char>>
    decreases fields.len(),
{
    if fields.len() == 0 {
        Seq::empty()
    } else {
        fields_struct_refs(fields.subrange(0, fields.len() - 1)) + (match fields.last().1 {
            Argument::UserStruct(nm) => seq![nm@],
            _ => Seq::empty(),
        })
    }
}

/// The struct-reference graph: one node per struct, one edge per field
/// whose type descriptor names an existing struct.
pub open spec fn structs_adjacency(
    structs: Seq<(String, UserStruct)>,
    names: Seq<Seq<char>>,
) -> Seq<Seq<usize>> {
    Seq::new(
        structs.len(),
        |i: int| resolve_indices(fields_struct_refs(structs[i].1.fields@), names),
    )
}

/// One report per loop among tree references.
pub open spec fn tree_cycle_errors(cs: Seq<Seq<Seq<char>>>) -> Seq<ErrorModel>
    decreases cs.len(),
{
    if cs.len() == 0 {
        Seq::empty()
    } else {
        tree_cycle_errors(cs.subrange(0, cs.len() - 1)).push(
            ErrorModel::CyclicTreeReference { cycle: cs.last() },
        )
    }
}

/// One report per loop among struct definitions.
pub open spec fn struct_cycle_errors(cs: Seq<Seq<Seq<char>>>) -> Seq<ErrorModel>
    decreases cs.len(),
{
    if cs.len() == 0 {
        Seq::empty()
    } else {
        struct_cycle_errors(cs.subrange(0, cs.len() - 1)).push(
            ErrorModel::CyclicStructDefinition { cycle: cs.last() },
        )
    }
}

/// The complete defect list of a project, in report order: duplicate
/// names (trees, actions, structs), per-tree checks, struct field shapes,
/// tree-reference loops, struct-definition loops.
pub open spec fn validate_spec(p: Project, allow_unspecified: bool) -> Seq<ErrorModel> {
    let tree_names = pair_keys(p.trees@);
    let struct_names = pair_keys(p.user_structs@);
    duplicate_errors(tree_names, Namespace::Trees) + duplicate_errors(
        pair_keys(p.user_actions@),
        Namespace::Actions,
    ) + duplicate_errors(struct_names, Namespace::Structs) + trees_errors(
        p.trees@,
        p.user_actions@,
        tree_names,
        allow_unspecified,
    ) + structs_shape_errors(p.user_structs@) + tree_cycle_errors(
        graph_cycles(trees_adjacency(p.trees@, tree_names), tree_names),
    ) + struct_cycle_errors(
        graph_cycles(structs_adjacency(p.user_structs@, struct_names), struct_names),
    )
}

/// A fresh path vector with the same indices.
fn copy_path(path: &Vec<usize>) -> (r: Vec<usize>)
    ensures
        r@ == path@,
{
    let mut r: Vec<usize> = Vec::new();
    let mut i: usize = 0;
    while i < path.len()
        invariant
            i <= path@.len(),
            r@ == path@.subrange(0, i as int),
        decreases path@.len() - i,
    {
        r.push(path[i]);
        i = i + 1;
        proof {
            assert(r@ =~= path@.subrange(0, i as int));
        }
    }
    proof {
        assert(path@.subrange(0, path@.len() as int) =~= path@);
    }
    r
}

/// A fresh name vector holding the same names.
fn copy_names(v: &Vec<String>) -> (r: Vec<String>)
    ensures
        r@ == v@,
{
    let mut r: Vec<String> = Vec::new();
    let mut i: usize = 0;
    while i < v.len()
        invariant
            i <= v@.len(),
            r@ == v@.subrange(0, i as int),
        decreases v@.len() - i,
    {
        r.push(v[i].clone());
        i = i + 1;
        proof {
            assert(r@ =~= v@.subrange(0, i as int));
        }
    }
    proof {
        assert(v@.subrange(0, v@.len() as int) =~= v@);
    }
    r
}

/// Whether `x` occurs among `names`.
fn contains_name(names: &Vec<String>, x: &String) -> (r: bool)
    ensures
        r == has_name(names.deep_view(), x@),
{
    let mut i: usize = 0;
    while i < names.len()
        invariant
            i <= names@.len(),
            forall|k: int| 0 <= k < i as int ==> names.deep_view()[k] != x@,
        decreases names@.len() - i,
    {
        if names[i] == *x {
            proof {
                assert(names.deep_view()[i as int] == x@);
            }
            return true;
        }
        i = i + 1;
    }
    false
}

/// The keys of a name-keyed list, as a fresh vector.
fn collect_keys<T>(v: &Vec<(String, T)>) -> (r: Vec<String>)
    ensures
        r.deep_view() == pair_keys(v@),
{
    proof {
        lemma_pair_keys_index(v@);
    }
    let mut r: Vec<String> = Vec::new();
    let mut i: usize = 0;
    while i < v.len()
        invariant
            i <= v@.len(),
            r@.len() == i as int,
            forall|k: int| 0 <= k < i as int ==> r@[k]@ == v@[k].0@,
        decreases v@.len() - i,
    {
        r.push(v[i].0.clone());
        i = i + 1;
    }
    proof {
        assert(r.deep_view() =~= pair_keys(v@));
    }
    r
}

/// Append the shape defects of one typed value.
#[verifier::loop_isolation(false)]
fn push_arg_shape_errors(
    errs: &mut Vec<ValidationError>,
    a: &Argument,
    ns: Namespace,
    owner: &String,
    path: &Vec<usize>,
)
    ensures
        final(errs).deep_view() == old(errs).deep_view() + arg_shape_errors(
            *a,
            ns,
            owner@,
            path@,
        ),
    decreases *a,
{
    match a {
        Argument::FixedArray(e, n) => {
            if *n == 0 {
                let bad = ValidationError::InvalidShape {
                    namespace: ns,
                    name: owner.clone(),
                    node_path: copy_path(path),
                };
                let ghost pre = errs.deep_view();
                errs.push(bad);
                proof {
                    assert(errs.deep_view() =~= pre.push(bad@));
                }
            }
            push_arg_shape_errors(errs, e, ns, owner, path);
            proof {
                assert(errs.deep_view() =~= old(errs).deep_view() + arg_shape_errors(
                    *a,
                    ns,
                    owner@,
                    path@,
                ));
            }
        },
        Argument::Tuple(v) => {
            proof {
                assert(v@.subrange(0, 0) =~= Seq::<Argument>::empty());
                assert(old(errs).deep_view() + args_shape_errors(
                    v@.subrange(0, 0),
                    ns,
                    owner@,
                    path@,
                ) =~= old(errs).deep_view());
            }
            let mut i: usize = 0;
            while i < v.len()
                invariant
                    i <= v@.len(),
                    errs.deep_view() == old(errs).deep_view() + args_shape_errors(
                        v@.subrange(0, i as int),
                        ns,
                        owner@,
                        path@,
                    ),
                decreases v@.len() - i,
            {
                push_arg_shape_errors(errs, &v[i], ns, owner, path);
                i = i + 1;
                proof {
                    let now = v@.subrange(0, i as int);
                    assert(now.subrange(0, now.len() - 1) =~= v@.subrange(0, i - 1));
                    assert(now.last() == v@[i - 1]);
                    assert(errs.deep_view() =~= old(errs).deep_view() + args_shape_errors(
                        now,
                        ns,
                        owner@,
                        path@,
                    ));
                }
            }
            proof {
                assert(v@.subrange(0, v@.len() as int) =~= v@);
            }
        },
        _ => {
            proof {
                assert(errs.deep_view() =~= old(errs).deep_view() + arg_shape_errors(
                    *a,
                    ns,
                    owner@,
                    path@,
                ));
            }
        },
    }
}

/// Append the shape defects of the values of a name-keyed list.
#[verifier::loop_isolation(false)]
fn push_pairs_shape_errors(
    errs: &mut Vec<ValidationError>,
    pairs: &Vec<(String, Argument)>,
    ns: Namespace,
    owner: &String,
    path: &Vec<usize>,
)
    ensures
        final(errs).deep_view() == old(errs).deep_view() + pairs_shape_errors(
            pairs@,
            ns,
            owner@,
            path@,
        ),
{
    proof {
        assert(pairs@.subrange(0, 0) =~= Seq::<(String, Argument)>::empty());
        assert(old(errs).deep_view() + pairs_shape_errors(
            pairs@.subrange(0, 0),
            ns,
            owner@,
            path@,
        ) =~= old(errs).deep_view());
    }
    let mut i: usize = 0;
    while i < pairs.len()
        invariant
            i <= pairs@.len(),
            errs.deep_view() == old(errs).deep_view() + pairs_shape_errors(
                pairs@.subrange(0, i as int),
                ns,
                owner@,
                path@,
            ),
        decreases pairs@.len() - i,
    {
        push_arg_shape_errors(errs, &pairs[i].1, ns, owner, path);
        i = i + 1;
        proof {
            let now = pairs@.subrange(0, i as int);
            assert(now.subrange(0, now.len() - 1) =~= pairs@.subrange(0, i - 1));
            assert(now.last() == pairs@[i - 1]);
            assert(errs.deep_view() =~= old(errs).deep_view() + pairs_shape_errors(
                now,
                ns,
                owner@,
                path@,
            ));
        }
    }
    proof {
        assert(pairs@.subrange(0, pairs@.len() as int) =~= pairs@);
    }
}

/// Append the defects of one decorator.
fn push_decorator_errors(
    errs: &mut Vec<ValidationError>,
    d: &Decorator,
    bb: &Vec<(String, Argument)>,
    tree: &String,
    path: &Vec<usize>,
)
    ensures
        final(errs).deep_view() == old(errs).deep_view() + decorator_errors(
            *d,
            bb@,
            tree@,
            path@,
        ),
{
    match d {
        Decorator::BlackboardEquals(name, lit) => {
            match assoc_find(bb, name) {
                Option::None => {
                    let bad = ValidationError::UndeclaredBlackboardVariable {
                        tree: tree.clone(),
                        node_path: copy_path(path),
                        name: name.clone(),
                    };
                    let ghost pre = errs.deep_view();
                    errs.push(bad);
                    proof {
                        assert(errs.deep_view() =~= pre.push(bad@));
                    }
                },
                Option::Some(decl) => {
                    let dd = decl.discriminant();
                    let ld = lit.discriminant();
                    if !crate::algebra::shape_eq(&dd, &ld) {
                        let bad = ValidationError::TypeMismatch {
                            tree: tree.clone(),
                            node_path: copy_path(path),
                            expected: dd,
                            actual: ld,
                        };
                        let ghost pre = errs.deep_view();
                        errs.push(bad);
                        proof {
                            assert(errs.deep_view() =~= pre.push(bad@));
                        }
                    }
                },
            }
            push_arg_shape_errors(errs, lit, Namespace::Trees, tree, path);
            proof {
                assert(errs.deep_view() =~= old(errs).deep_view() + decorator_errors(
                    *d,
                    bb@,
                    tree@,
                    path@,
                ));
            }
        },
        Decorator::BlackboardNonEmpty(name) => {
            match assoc_find(bb, name) {
                Option::None => {
                    let bad = ValidationError::UndeclaredBlackboardVariable {
                        tree: tree.clone(),
                        node_path: copy_path(path),
                        name: name.clone(),
                    };
                    let ghost pre = errs.deep_view();
                    errs.push(bad);
                    proof {
                        assert(errs.deep_view() =~= pre.push(bad@));
                    }
                },
                Option::Some(decl) => {
                    proof {
                        assert(errs.deep_view() =~= old(errs).deep_view() + decorator_errors(
                            *d,
                            bb@,
                            tree@,
                            path@,
                        ));
                    }
                },
            }
        },
        Decorator::UserEval { logic_name, inputs, default } => {
            push_pairs_shape_errors(errs, inputs, Namespace::Trees, tree, path);
        },
    }
}

/// Append the defects of a node's decorator list, in order.
#[verifier::loop_isolation(false)]
fn push_decorators_errors(
    errs: &mut Vec<ValidationError>,
    ds: &Vec<Decorator>,
    bb: &Vec<(String, Argument)>,
    tree: &String,
    path: &Vec<usize>,
)
    ensures
        final(errs).deep_view() == old(errs).deep_view() + decorators_errors(
            ds@,
            bb@,
            tree@,
            path@,
        ),
{
    proof {
        assert(ds@.subrange(0, 0) =~= Seq::<Decorator>::empty());
        assert(old(errs).deep_view() + decorators_errors(
            ds@.subrange(0, 0),
            bb@,
            tree@,
            path@,
        ) =~= old(errs).deep_view());
    }
    let mut i: usize = 0;
    while i < ds.len()
        invariant
            i <= ds@.len(),
            errs.deep_view() == old(errs).deep_view() + decorators_errors(
                ds@.subrange(0, i as int),
                bb@,
                tree@,
                path@,
            ),
        decreases ds@.len() - i,
    {
        push_decorator_errors(errs, &ds[i], bb, tree, path);
        i = i + 1;
        proof {
            let now = ds@.subrange(0, i as int);
            assert(now.subrange(0, now.len() - 1) =~= ds@.subrange(0, i - 1));
            assert(now.last() == ds@[i - 1]);
            assert(errs.deep_view() =~= old(errs).deep_view() + decorators_errors(
                now,
                bb@,
                tree@,
                path@,
            ));
        }
    }
    proof {
        assert(ds@.subrange(0, ds@.len() as int) =~= ds@);
    }
}

/// Append the defects of one filled input slot.
fn push_one_input_errors(
    errs: &mut Vec<ValidationError>,
    b: &UserActionInput,
    sig: &ArgumentDiscriminant,
    slot: usize,
    bb: &Vec<(String, Argument)>,
    tree: &String,
    path: &Vec<usize>,
    allow_unspecified: bool,
)
    ensures
        final(errs).deep_view() == old(errs).deep_view() + one_input_errors(
            *b,
            *sig,
            slot as int,
            bb@,
            tree@,
            path@,
            allow_unspecified,
        ),
{
    match b {
        UserActionInput::Unspecified => {
            if !allow_unspecified {
                let bad = ValidationError::UnspecifiedInput {
                    tree: tree.clone(),
                    node_path: copy_path(path),
                    slot,
                };
                let ghost pre = errs.deep_view();
                errs.push(bad);
                proof {
                    assert(errs.deep_view() =~= pre.push(bad@));
                }
            } else {
                proof {
                    assert(errs.deep_view() =~= old(errs).deep_view() + one_input_errors(
                        *b,
                        *sig,
                        slot as int,
                        bb@,
                        tree@,
                        path@,
                        allow_unspecified,
                    ));
                }
            }
        },
        UserActionInput::Blackboard(name) => {
            match assoc_find(bb, name) {
                Option::None => {
                    let bad = ValidationError::UndeclaredBlackboardVariable {
                        tree: tree.clone(),
                        node_path: copy_path(path),
                        name: name.clone(),
                    };
                    let ghost pre = errs.deep_view();
                    errs.push(bad);
                    proof {
                        assert(errs.deep_view() =~= pre.push(bad@));
                    }
                },
                Option::Some(decl) => {
                    let dd = decl.discriminant();
                    if !crate::algebra::shape_eq(&dd, sig) {
                        let bad = ValidationError::TypeMismatch {
                            tree: tree.clone(),
                            node_path: copy_path(path),
                            expected: sig.duplicate(),
                            actual: dd,
                        };
                        let ghost pre = errs.deep_view();
                        errs.push(bad);
                        proof {
                            assert(errs.deep_view() =~= pre.push(bad@));
                        }
                    } else {
                        proof {
                            assert(errs.deep_view() =~= old(errs).deep_view()
                                + one_input_errors(
                                *b,
                                *sig,
                                slot as int,
                                bb@,
                                tree@,
                                path@,
                                allow_unspecified,
                            ));
                        }
                    }
                },
            }
        },
        UserActionInput::Argument(lit) => {
            let ld = lit.discriminant();
            if !crate::algebra::shape_eq(&ld, sig) {
                let bad = ValidationError::TypeMismatch {
                    tree: tree.clone(),
                    node_path: copy_path(path),
                    expected: sig.duplicate(),
                    actual: ld,
                };
                let ghost pre = errs.deep_view();
                errs.push(bad);
                proof {
                    assert(errs.deep_view() =~= pre.push(bad@));
                }
            }
            push_arg_shape_errors(errs, lit, Namespace::Trees, tree, path);
            proof {
                assert(errs.deep_view() =~= old(errs).deep_view() + one_input_errors(
                    *b,
                    *sig,
                    slot as int,
                    bb@,
                    tree@,
                    path@,
                    allow_unspecified,
                ));
            }
        },
    }
}

/// Append the defects of one output binding.
fn push_one_output_errors(
    errs: &mut Vec<ValidationError>,
    b: &Option<String>,
    sig: &ArgumentDiscriminant,
    bb: &Vec<(String, Argument)>,
    tree: &String,
    path: &Vec<usize>,
)
    ensures
        final(errs).deep_view() == old(errs).deep_view() + one_output_errors(
            *b,
            *sig,
            bb@,
            tree@,
            path@,
        ),
{
    match b {
        Option::None => {
            proof {
                assert(errs.deep_view() =~= old(errs).deep_view() + one_output_errors(
                    *b,
                    *sig,
                    bb@,
                    tree@,
                    path@,
                ));
            }
        },
        Option::Some(name) => {
            match assoc_find(bb, name) {
                Option::None => {
                    let bad = ValidationError::UndeclaredBlackboardVariable {
                        tree: tree.clone(),
                        node_path: copy_path(path),
                        name: name.clone(),
                    };
                    let ghost pre = errs.deep_view();
                    errs.push(bad);
                    proof {
                        assert(errs.deep_view() =~= pre.push(bad@));
                    }
                },
                Option::Some(decl) => {
                    let dd = decl.discriminant();
                    if !crate::algebra::shape_eq(&dd, sig) {
                        let bad = ValidationError::TypeMismatch {
                            tree: tree.clone(),
                            node_path: copy_path(path),
                            expected: sig.duplicate(),
                            actual: dd,
                        };
                        let ghost pre = errs.deep_view();
                        errs.push(bad);
                        proof {
                            assert(errs.deep_view() =~= pre.push(bad@));
                        }
                    } else {
                        proof {
                            assert(errs.deep_view() =~= old(errs).deep_view()
                                + one_output_errors(*b, *sig, bb@, tree@, path@));
                        }
                    }
                },
            }
        },
    }
}

/// Append the defects of one task.
#[verifier::loop_isolation(false)]
fn push_task_errors(
    errs: &mut Vec<ValidationError>,
    t: &Task,
    actions: &Vec<(String, UserAction)>,
    bb: &Vec<(String, Argument)>,
    tree: &String,
    path: &Vec<usize>,
    allow_unspecified: bool,
)
    ensures
        final(errs).deep_view() == old(errs).deep_view() + task_errors(
            *t,
            actions@,
            bb@,
            tree@,
            path@,
            allow_unspecified,
        ),
{
    match t {
        Task::UserAction { key, input_bindings, output_bindings } => {
            match assoc_find(actions, key) {
                Option::None => {
                    let bad = ValidationError::UnresolvedActionReference {
                        tree: tree.clone(),
                        node_path: copy_path(path),
                        key: key.clone(),
                    };
                    let ghost pre = errs.deep_view();
                    errs.push(bad);
                    proof {
                        assert(errs.deep_view() =~= pre.push(bad@));
                    }
                },
                Option::Some(sig) => {
                    let ghost in_spec = if input_bindings@.len() != sig.inputs@.len() {
                        seq![
                            ErrorModel::ArityMismatch {
                                tree: tree@,
                                node_path: path@,
                                expected: sig.inputs@.len() as usize,
                                actual: input_bindings@.len() as usize,
                            },
                        ]
                    } else {
                        input_bindings_errors(
                            input_bindings@,
                            sig.inputs@,
                            bb@,
                            tree@,
                            path@,
                            allow_unspecified,
                        )
                    };
                    if input_bindings.len() != sig.inputs.len() {
                        let bad = ValidationError::ArityMismatch {
                            tree: tree.clone(),
                            node_path: copy_path(path),
                            expected: sig.inputs.len(),
                            actual: input_bindings.len(),
                        };
                        let ghost pre = errs.deep_view();
                        errs.push(bad);
                        proof {
                            assert(errs.deep_view() =~= pre.push(bad@));
                        }
                    } else {
                        proof {
                            assert(input_bindings@.subrange(0, 0)
                                =~= Seq::<UserActionInput>::empty());
                            assert(errs.deep_view() + input_bindings_errors(
                                input_bindings@.subrange(0, 0),
                                sig.inputs@,
                                bb@,
                                tree@,
                                path@,
                                allow_unspecified,
                            ) =~= errs.deep_view());
                        }
                        let ghost at_start = errs.deep_view();
                        let mut i: usize = 0;
                        while i < input_bindings.len()
                            invariant
                                i <= input_bindings@.len(),
                                errs.deep_view() == at_start + input_bindings_errors(
                                    input_bindings@.subrange(0, i as int),
                                    sig.inputs@,
                                    bb@,
                                    tree@,
                                    path@,
                                    allow_unspecified,
                                ),
                            decreases input_bindings@.len() - i,
                        {
                            push_one_input_errors(
                                errs,
                                &input_bindings[i],
                                &sig.inputs[i],
                                i,
                                bb,
                                tree,
                                path,
                                allow_unspecified,
                            );
                            i = i + 1;
                            proof {
                                let now = input_bindings@.subrange(0, i as int);
                                assert(now.subrange(0, now.len() - 1)
                                    =~= input_bindings@.subrange(0, i - 1));
                                assert(now.last() == input_bindings@[i - 1]);
                                assert(errs.deep_view() =~= at_start + input_bindings_errors(
                                    now,
                                    sig.inputs@,
                                    bb@,
                                    tree@,
                                    path@,
                                    allow_unspecified,
                                ));
                            }
                        }
                        proof {
                            assert(input_bindings@.subrange(0, input_bindings@.len() as int)
                                =~= input_bindings@);
                        }
                    }
                    let ghost mid = errs.deep_view();
                    proof {
                        assert(mid =~= old(errs).deep_view() + in_spec);
                    }
                    if output_bindings.len() != sig.outputs.len() {
                        let bad = ValidationError::ArityMismatch {
                            tree: tree.clone(),
                            node_path: copy_path(path),
                            expected: sig.outputs.len(),
                            actual: output_bindings.len(),
                        };
                        let ghost pre = errs.deep_view();
                        errs.push(bad);
                        proof {
                            assert(errs.deep_view() =~= pre.push(bad@));
                        }
                    } else {
                        proof {
                            assert(output_bindings@.subrange(0, 0)
                                =~= Seq::<Option<String>>::empty());
                            assert(errs.deep_view() + output_bindings_errors(
                                output_bindings@.subrange(0, 0),
                                sig.outputs@,
                                bb@,
                                tree@,
                                path@,
                            ) =~= errs.deep_view());
                        }
                        let mut i: usize = 0;
                        while i < output_bindings.len()
                            invariant
                                i <= output_bindings@.len(),
                                errs.deep_view() == mid + output_bindings_errors(
                                    output_bindings@.subrange(0, i as int),
                                    sig.outputs@,
                                    bb@,
                                    tree@,
                                    path@,
                                ),
                            decreases output_bindings@.len() - i,
                        {
                            push_one_output_errors(
                                errs,
                                &output_bindings[i],
                                &sig.outputs[i],
                                bb,
                                tree,
                                path,
                            );
                            i = i + 1;
                            proof {
                                let now = output_bindings@.subrange(0, i as int);
                                assert(now.subrange(0, now.len() - 1)
                                    =~= output_bindings@.subrange(0, i - 1));
                                assert(now.last() == output_bindings@[i - 1]);
                                assert(errs.deep_view() =~= mid + output_bindings_errors(
                                    now,
                                    sig.outputs@,
                                    bb@,
                                    tree@,
                                    path@,
                                ));
                            }
                        }
                        proof {
                            assert(output_bindings@.subrange(0, output_bindings@.len() as int)
                                =~= output_bindings@);
                        }
                    }
                    proof {
                        assert(errs.deep_view() =~= old(errs).deep_view() + task_errors(
                            *t,
                            actions@,
                            bb@,
                            tree@,
                            path@,
                            allow_unspecified,
                        ));
                    }
                },
            }
        },
        Task::WaitFor { timeout } => {
            proof {
                assert(errs.deep_view() =~= old(errs).deep_view() + task_errors(
                    *t,
                    actions@,
                    bb@,
                    tree@,
                    path@,
                    allow_unspecified,
                ));
            }
        },
        Task::WaitForever => {
            proof {
                assert(errs.deep_view() =~= old(errs).deep_view() + task_errors(
                    *t,
                    actions@,
                    bb@,
                    tree@,
                    path@,
                    allow_unspecified,
                ));
            }
        },
    }
}

/// Append the defects of one node and everything below it.
#[verifier::loop_isolation(false)]
fn push_node_errors(
    errs: &mut Vec<ValidationError>,
    node: &Node,
    actions: &Vec<(String, UserAction)>,
    tree_names: &Vec<String>,
    bb: &Vec<(String, Argument)>,
    tree: &String,
    path: &Vec<usize>,
    allow_unspecified: bool,
)
    ensures
        final(errs).deep_view() == old(errs).deep_view() + node_errors(
            *node,
            actions@,
            tree_names.deep_view(),
            bb@,
            tree@,
            path@,
            allow_unspecified,
        ),
    decreases *node,
{
    push_decorators_errors(errs, &node.decorators, bb, tree, path);
    let ghost mid = errs.deep_view();
    match &node.class {
        NodeClass::Sequence(sq) => {
            proof {
                assert(sq.children@.subrange(0, 0) =~= Seq::<Node>::empty());
                assert(errs.deep_view() + nodes_errors(
                    sq.children@.subrange(0, 0),
                    actions@,
                    tree_names.deep_view(),
                    bb@,
                    tree@,
                    path@,
                    0,
                    allow_unspecified,
                ) =~= errs.deep_view());
            }
            let mut i: usize = 0;
            while i < sq.children.len()
                invariant
                    i <= sq.children@.len(),
                    errs.deep_view() == mid + nodes_errors(
                        sq.children@.subrange(0, i as int),
                        actions@,
                        tree_names.deep_view(),
                        bb@,
                        tree@,
                        path@,
                        0,
                        allow_unspecified,
                    ),
                decreases sq.children@.len() - i,
            {
                let mut cp = copy_path(path);
                cp.push(i);
                push_node_errors(
                    errs,
                    &sq.children[i],
                    actions,
                    tree_names,
                    bb,
                    tree,
                    &cp,
                    allow_unspecified,
                );
                i = i + 1;
                proof {
                    let now = sq.children@.subrange(0, i as int);
                    assert(now.subrange(0, now.len() - 1) =~= sq.children@.subrange(
                        0,
                        i - 1,
                    ));
                    assert(now.last() == sq.children@[i - 1]);
                    assert(cp@ =~= path@.push((i - 1) as usize));
                    assert(errs.deep_view() =~= mid + nodes_errors(
                        now,
                        actions@,
                        tree_names.deep_view(),
                        bb@,
                        tree@,
                        path@,
                        0,
                        allow_unspecified,
                    ));
                }
            }
            proof {
                assert(sq.children@.subrange(0, sq.children@.len() as int) =~= sq.children@);
            }
        },
        NodeClass::Selector(sl) => {
            proof {
                assert(sl.children@.subrange(0, 0) =~= Seq::<Node>::empty());
                assert(errs.deep_view() + nodes_errors(
                    sl.children@.subrange(0, 0),
                    actions@,
                    tree_names.deep_view(),
                    bb@,
                    tree@,
                    path@,
                    0,
                    allow_unspecified,
                ) =~= errs.deep_view());
            }
            let mut i: usize = 0;
            while i < sl.children.len()
                invariant
                    i <= sl.children@.len(),
                    errs.deep_view() == mid + nodes_errors(
                        sl.children@.subrange(0, i as int),
                        actions@,
                        tree_names.deep_view(),
                        bb@,
                        tree@,
                        path@,
                        0,
                        allow_unspecified,
                    ),
                decreases sl.children@.len() - i,
            {
                let mut cp = copy_path(path);
                cp.push(i);
                push_node_errors(
                    errs,
                    &sl.children[i],
                    actions,
                    tree_names,
                    bb,
                    tree,
                    &cp,
                    allow_unspecified,
                );
                i = i + 1;
                proof {
                    let now = sl.children@.subrange(0, i as int);
                    assert(now.subrange(0, now.len() - 1) =~= sl.children@.subrange(
                        0,
                        i - 1,
                    ));
                    assert(now.last() == sl.children@[i - 1]);
                    assert(cp@ =~= path@.push((i - 1) as usize));
                    assert(errs.deep_view() =~= mid + nodes_errors(
                        now,
                        actions@,
                        tree_names.deep_view(),
                        bb@,
                        tree@,
                        path@,
                        0,
                        allow_unspecified,
                    ));
                }
            }
            proof {
                assert(sl.children@.subrange(0, sl.children@.len() as int) =~= sl.children@);
            }
        },
        NodeClass::Decorator(d) => {
            push_decorator_errors(errs, d, bb, tree, path);
        },
        NodeClass::Task(t) => {
            push_task_errors(errs, t, actions, bb, tree, path, allow_unspecified);
        },
        NodeClass::TreeRef(r) => {
            if !contains_name(tree_names, &r.relative_path) {
                let bad = ValidationError::UnresolvedTreeReference {
                    tree: tree.clone(),
                    node_path: copy_path(path),
                    relative_path: r.relative_path.clone(),
                };
                let ghost pre = errs.deep_view();
                errs.push(bad);
                proof {
                    assert(errs.deep_view() =~= pre.push(bad@));
                }
            }
        },
    }
    proof {
        assert(errs.deep_view() =~= old(errs).deep_view() + node_errors(
            *node,
            actions@,
            tree_names.deep_view(),
            bb@,
            tree@,
            path@,
            allow_unspecified,
        ));
    }
}

/// Append the defects of one tree.
#[verifier::loop_isolation(false)]
fn push_tree_errors(
    errs: &mut Vec<ValidationError>,
    name: &String,
    bt: &BehaviorTree,
    actions: &Vec<(String, UserAction)>,
    tree_names: &Vec<String>,
    allow_unspecified: bool,
)
    ensures
        final(errs).deep_view() == old(errs).deep_view() + tree_errors(
            name@,
            *bt,
            actions@,
            tree_names.deep_view(),
            allow_unspecified,
        ),
{
    let empty_path: Vec<usize> = Vec::new();
    proof {
        assert(empty_path@ =~= Seq::<usize>::empty());
    }
    push_pairs_shape_errors(errs, &bt.blackboard, Namespace::Trees, name, &empty_path);
    let mut root_path: Vec<usize> = Vec::new();
    root_path.push(0);
    proof {
        assert(root_path@ =~= seq![0usize]);
    }
    push_node_errors(
        errs,
        &bt.root,
        actions,
        tree_names,
        &bt.blackboard,
        name,
        &root_path,
        allow_unspecified,
    );
    let ghost mid = errs.deep_view();
    proof {
        assert(bt.floating_nodes@.subrange(0, 0) =~= Seq::<Node>::empty());
        assert(errs.deep_view() + nodes_errors(
            bt.floating_nodes@.subrange(0, 0),
            actions@,
            tree_names.deep_view(),
            bt.blackboard@,
            name@,
            Seq::empty(),
            1,
            allow_unspecified,
        ) =~= errs.deep_view());
    }
    let mut i: usize = 0;
    while i < bt.floating_nodes.len()
        invariant
            i <= bt.floating_nodes@.len(),
            errs.deep_view() == mid + nodes_errors(
                bt.floating_nodes@.subrange(0, i as int),
                actions@,
                tree_names.deep_view(),
                bt.blackboard@,
                name@,
                Seq::empty(),
                1,
                allow_unspecified,
            ),
        decreases bt.floating_nodes@.len() - i,
    {
        let mut cp: Vec<usize> = Vec::new();
        cp.push(1 + i);
        push_node_errors(
            errs,
            &bt.floating_nodes[i],
            actions,
            tree_names,
            &bt.blackboard,
            name,
            &cp,
            allow_unspecified,
        );
        i = i + 1;
        proof {
            let now = bt.floating_nodes@.subrange(0, i as int);
            assert(now.subrange(0, now.len() - 1) =~= bt.floating_nodes@.subrange(0, i - 1));
            assert(now.last() == bt.floating_nodes@[i - 1]);
            assert(cp@ =~= Seq::<usize>::empty().push((1 + (i - 1)) as usize));
            assert(errs.deep_view() =~= mid + nodes_errors(
                now,
                actions@,
                tree_names.deep_view(),
                bt.blackboard@,
                name@,
                Seq::empty(),
                1,
                allow_unspecified,
            ));
        }
    }
    proof {
        assert(bt.floating_nodes@.subrange(0, bt.floating_nodes@.len() as int)
            =~= bt.floating_nodes@);
        assert(errs.deep_view() =~= old(errs).deep_view() + tree_errors(
            name@,
            *bt,
            actions@,
            tree_names.deep_view(),
            allow_unspecified,
        ));
    }
}

/// Collect the tree references of one node hierarchy.
#[verifier::loop_isolation(false)]
fn push_node_refs(out: &mut Vec<String>, node: &Node)
    ensures
        final(out).deep_view() == old(out).deep_view() + node_tree_refs(*node),
    decreases *node,
{
    match &node.class {
        NodeClass::Sequence(sq) => {
            proof {
                assert(sq.children@.subrange(0, 0) =~= Seq::<Node>::empty());
                assert(out.deep_view() + nodes_tree_refs(sq.children@.subrange(0, 0))
                    =~= out.deep_view());
            }
            let mut i: usize = 0;
            while i < sq.children.len()
                invariant
                    i <= sq.children@.len(),
                    out.deep_view() == old(out).deep_view() + nodes_tree_refs(
                        sq.children@.subrange(0, i as int),
                    ),
                decreases sq.children@.len() - i,
            {
                push_node_refs(out, &sq.children[i]);
                i = i + 1;
                proof {
                    let now = sq.children@.subrange(0, i as int);
                    assert(now.subrange(0, now.len() - 1) =~= sq.children@.subrange(
                        0,
                        i - 1,
                    ));
                    assert(now.last() == sq.children@[i - 1]);
                    assert(out.deep_view() =~= old(out).deep_view() + nodes_tree_refs(now));
                }
            }
            proof {
                assert(sq.children@.subrange(0, sq.children@.len() as int) =~= sq.children@);
            }
        },
        NodeClass::Selector(sl) => {
            proof {
                assert(sl.children@.subrange(0, 0) =~= Seq::<Node>::empty());
                assert(out.deep_view() + nodes_tree_refs(sl.children@.subrange(0, 0))
                    =~= out.deep_view());
            }
            let mut i: usize = 0;
            while i < sl.children.len()
                invariant
                    i <= sl.children@.len(),
                    out.deep_view() == old(out).deep_view() + nodes_tree_refs(
                        sl.children@.subrange(0, i as int),
                    ),
                decreases sl.children@.len() - i,
            {
                push_node_refs(out, &sl.children[i]);
                i = i + 1;
                proof {
                    let now = sl.children@.subrange(0, i as int);
                    assert(now.subrange(0, now.len() - 1) =~= sl.children@.subrange(
                        0,
                        i - 1,
                    ));
                    assert(now.last() == sl.children@[i - 1]);
                    assert(out.deep_view() =~= old(out).deep_view() + nodes_tree_refs(now));
                }
            }
            proof {
                assert(sl.children@.subrange(0, sl.children@.len() as int) =~= sl.children@);
            }
        },
        NodeClass::Decorator(d) => {
            proof {
                assert(out.deep_view() =~= old(out).deep_view() + node_tree_refs(*node));
            }
        },
        NodeClass::Task(t) => {
            proof {
                assert(out.deep_view() =~= old(out).deep_view() + node_tree_refs(*node));
            }
        },
        NodeClass::TreeRef(r) => {
            let ghost pre = out.deep_view();
            out.push(r.relative_path.clone());
            proof {
                assert(out.deep_view() =~= pre.push(r.relative_path@));
                assert(out.deep_view() =~= old(out).deep_view() + node_tree_refs(*node));
            }
        },
    }
}

/// First position of `x` among `names`, or their count when absent.
fn find_name_index(names: &Vec<String>, x: &String) -> (r: usize)
    ensures
        r as int == first_name_index(names.deep_view(), x@),
{
    proof {
        lemma_first_name_index(names.deep_view(), x@);
    }
    let mut i: usize = 0;
    while i < names.len() && names[i] != *x
        invariant
            i <= names@.len(),
            forall|k: int| 0 <= k < i as int ==> names.deep_view()[k] != x@,
        decreases names@.len() - i,
    {
        i = i + 1;
    }
    proof {
        if i < names@.len() {
            assert(names.deep_view()[i as int] == x@);
        }
        assert(i as int == first_name_index(names.deep_view(), x@));
    }
    i
}

/// The resolved graph targets of a reference list.
#[verifier::loop_isolation(false)]
fn resolve_refs(refs: &Vec<String>, names: &Vec<String>) -> (r: Vec<usize>)
    ensures
        r@ == resolve_indices(refs.deep_view(), names.deep_view()),
{
    proof {
        assert(refs.deep_view().subrange(0, 0) =~= Seq::<Seq<char>>::empty());
    }
    let mut r: Vec<usize> = Vec::new();
    let mut i: usize = 0;
    while i < refs.len()
        invariant
            i <= refs@.len(),
            refs.deep_view().len() == refs@.len(),
            r@ == resolve_indices(refs.deep_view().subrange(0, i as int), names.deep_view()),
        decreases refs@.len() - i,
    {
        let idx = find_name_index(names, &refs[i]);
        if idx < names.len() {
            r.push(idx);
        }
        i = i + 1;
        proof {
            let now = refs.deep_view().subrange(0, i as int);
            assert(now.subrange(0, now.len() - 1) =~= refs.deep_view().subrange(0, i - 1));
            assert(now.last() == refs.deep_view()[i - 1]);
            assert(r@ =~= resolve_indices(now, names.deep_view()));
        }
    }
    proof {
        assert(refs.deep_view().subrange(0, refs.deep_view().len() as int)
            =~= refs.deep_view());
    }
    r
}

/// Build the tree-reference graph of a project.
#[verifier::loop_isolation(false)]
fn build_tree_adjacency(trees: &Vec<(String, BehaviorTree)>, names: &Vec<String>) -> (adj: Vec<
    Vec<usize>,
>)
    ensures
        adj.deep_view() == trees_adjacency(trees@, names.deep_view()),
        adj@.len() == trees@.len(),
{
    let mut adj: Vec<Vec<usize>> = Vec::new();
    let mut i: usize = 0;
    while i < trees.len()
        invariant
            i <= trees@.len(),
            adj@.len() == i as int,
            forall|k: int|
                0 <= k < i as int ==> adj@[k]@ == resolve_indices(
                    tree_refs(trees@[k].1),
                    names.deep_view(),
                ),
        decreases trees@.len() - i,
    {
        let bt = &trees[i].1;
        let mut refs: Vec<String> = Vec::new();
        push_node_refs(&mut refs, &bt.root);
        proof {
            assert(bt.floating_nodes@.subrange(0, 0) =~= Seq::<Node>::empty());
            assert(refs.deep_view() + nodes_tree_refs(bt.floating_nodes@.subrange(0, 0))
                =~= refs.deep_view());
            assert(Seq::<Seq<char>>::empty() + node_tree_refs(bt.root)
                =~= node_tree_refs(bt.root));
            assert(refs.deep_view() =~= node_tree_refs(bt.root));
        }
        let mut j: usize = 0;
        while j < bt.floating_nodes.len()
            invariant
                j <= bt.floating_nodes@.len(),
                refs.deep_view() == node_tree_refs(bt.root) + nodes_tree_refs(
                    bt.floating_nodes@.subrange(0, j as int),
                ),
            decreases bt.floating_nodes@.len() - j,
        {
            push_node_refs(&mut refs, &bt.floating_nodes[j]);
            j = j + 1;
            proof {
                let now = bt.floating_nodes@.subrange(0, j as int);
                assert(now.subrange(0, now.len() - 1) =~= bt.floating_nodes@.subrange(
                    0,
                    j - 1,
                ));
                assert(now.last() == bt.floating_nodes@[j - 1]);
                assert(refs.deep_view() =~= node_tree_refs(bt.root) + nodes_tree_refs(now));
            }
        }
        proof {
            assert(bt.floating_nodes@.subrange(0, bt.floating_nodes@.len() as int)
                =~= bt.floating_nodes@);
            assert(refs.deep_view() =~= tree_refs(trees@[i as int].1));
        }
        let row = resolve_refs(&refs, names);
        adj.push(row);
        i = i + 1;
    }
    proof {
        assert forall|k: int| 0 <= k < trees@.len() implies adj.deep_view()[k]
            == trees_adjacency(trees@, names.deep_view())[k] by {
            assert(adj.deep_view()[k] =~= adj@[k]@);
        }
        assert(adj.deep_view() =~= trees_adjacency(trees@, names.deep_view()));
    }
    adj
}

/// Collect the struct names referenced by a struct's fields.
#[verifier::loop_isolation(false)]
fn collect_struct_refs(us: &UserStruct) -> (r: Vec<String>)
    ensures
        r.deep_view() == fields_struct_refs(us.fields@),
{
    proof {
        assert(us.fields@.subrange(0, 0) =~= Seq::<(String, Argument)>::empty());
    }
    let mut r: Vec<String> = Vec::new();
    let mut i: usize = 0;
    while i < us.fields.len()
        invariant
            i <= us.fields@.len(),
            r.deep_view() == fields_struct_refs(us.fields@.subrange(0, i as int)),
        decreases us.fields@.len() - i,
    {
        let ghost pre = r.deep_view();
        match &us.fields[i].1 {
            Argument::UserStruct(nm) => {
                r.push(nm.clone());
                proof {
                    assert(r.deep_view() =~= pre.push(nm@));
                }
            },
            _ => {},
        }
        i = i + 1;
        proof {
            let now = us.fields@.subrange(0, i as int);
            assert(now.subrange(0, now.len() - 1) =~= us.fields@.subrange(0, i - 1));
            assert(now.last() == us.fields@[i - 1]);
            assert(r.deep_view() =~= fields_struct_refs(now));
        }
    }
    proof {
        assert(us.fields@.subrange(0, us.fields@.len() as int) =~= us.fields@);
    }
    r
}

/// Build the struct-reference graph of a project.
#[verifier::loop_isolation(false)]
fn build_struct_adjacency(structs: &Vec<(String, UserStruct)>, names: &Vec<String>) -> (adj: Vec<
    Vec<usize>,
>)
    ensures
        adj.deep_view() == structs_adjacency(structs@, names.deep_view()),
        adj@.len() == structs@.len(),
{
    let mut adj: Vec<Vec<usize>> = Vec::new();
    let mut i: usize = 0;
    while i < structs.len()
        invariant
            i <= structs@.len(),
            adj@.len() == i as int,
            forall|k: int|
                0 <= k < i as int ==> adj@[k]@ == resolve_indices(
                    fields_struct_refs(structs@[k].1.fields@),
                    names.deep_view(),
                ),
        decreases structs@.len() - i,
    {
        let refs = collect_struct_refs(&structs[i].1);
        let row = resolve_refs(&refs, names);
        adj.push(row);
        i = i + 1;
    }
    proof {
        assert forall|k: int| 0 <= k < structs@.len() implies adj.deep_view()[k]
            == structs_adjacency(structs@, names.deep_view())[k] by {
            assert(adj.deep_view()[k] =~= adj@[k]@);
        }
        assert(adj.deep_view() =~= structs_adjacency(structs@, names.deep_view()));
    }
    adj
}

/// Append one report per tree-reference loop.
#[verifier::loop_isolation(false)]
fn push_tree_cycle_errors(errs: &mut Vec<ValidationError>, cycles: &Vec<Vec<String>>)
    ensures
        final(errs).deep_view() == old(errs).deep_view() + tree_cycle_errors(
            cycles.deep_view(),
        ),
{
    proof {
        assert(cycles.deep_view().subrange(0, 0) =~= Seq::<Seq<Seq<char>>>::empty());
        assert(old(errs).deep_view() + tree_cycle_errors(cycles.deep_view().subrange(0, 0))
            =~= old(errs).deep_view());
    }
    let mut i: usize = 0;
    while i < cycles.len()
        invariant
            i <= cycles@.len(),
            cycles.deep_view().len() == cycles@.len(),
            errs.deep_view() == old(errs).deep_view() + tree_cycle_errors(
                cycles.deep_view().subrange(0, i as int),
            ),
        decreases cycles@.len() - i,
    {
        let loop_names = copy_names(&cycles[i]);
        let bad = ValidationError::CyclicTreeReference { cycle: loop_names };
        let ghost pre = errs.deep_view();
        errs.push(bad);
        i = i + 1;
        proof {
            assert(bad@ == ErrorModel::CyclicTreeReference {
                cycle: cycles.deep_view()[i - 1],
            }) by {
                assert(loop_names.deep_view() =~= cycles.deep_view()[i - 1]);
            }
            assert(errs.deep_view() =~= pre.push(bad@));
            let now = cycles.deep_view().subrange(0, i as int);
            assert(now.subrange(0, now.len() - 1) =~= cycles.deep_view().subrange(0, i - 1));
            assert(now.last() == cycles.deep_view()[i - 1]);
            assert(errs.deep_view() =~= old(errs).deep_view() + tree_cycle_errors(now));
        }
    }
    proof {
        assert(cycles.deep_view().subrange(0, cycles.deep_view().len() as int)
            =~= cycles.deep_view());
    }
}

/// Append one report per struct-definition loop.
#[verifier::loop_isolation(false)]
fn push_struct_cycle_errors(errs: &mut Vec<ValidationError>, cycles: &Vec<Vec<String>>)
    ensures
        final(errs).deep_view() == old(errs).deep_view() + struct_cycle_errors(
            cycles.deep_view(),
        ),
{
    proof {
        assert(cycles.deep_view().subrange(0, 0) =~= Seq::<Seq<Seq<char>>>::empty());
        assert(old(errs).deep_view() + struct_cycle_errors(cycles.deep_view().subrange(0, 0))
            =~= old(errs).deep_view());
    }
    let mut i: usize = 0;
    while i < cycles.len()
        invariant
            i <= cycles@.len(),
            cycles.deep_view().len() == cycles@.len(),
            errs.deep_view() == old(errs).deep_view() + struct_cycle_errors(
                cycles.deep_view().subrange(0, i as int),
            ),
        decreases cycles@.len() - i,
    {
        let loop_names = copy_names(&cycles[i]);
        let bad = ValidationError::CyclicStructDefinition { cycle: loop_names };
        let ghost pre = errs.deep_view();
        errs.push(bad);
        i = i + 1;
        proof {
            assert(bad@ == ErrorModel::CyclicStructDefinition {
                cycle: cycles.deep_view()[i - 1],
            }) by {
                assert(loop_names.deep_view() =~= cycles.deep_view()[i - 1]);
            }
            assert(errs.deep_view() =~= pre.push(bad@));
            let now = cycles.deep_view().subrange(0, i as int);
            assert(now.subrange(0, now.len() - 1) =~= cycles.deep_view().subrange(0, i - 1));
            assert(now.last() == cycles.deep_view()[i - 1]);
            assert(errs.deep_view() =~= old(errs).deep_view() + struct_cycle_errors(now));
        }
    }
    proof {
        assert(cycles.deep_view().subrange(0, cycles.deep_view().len() as int)
            =~= cycles.deep_view());
    }
}

/// Check a whole project under an explicit validation policy: whether an
/// `Unspecified` input binding is accepted. Returns the complete defect
/// list, empty exactly when every check passes.
#[verifier::loop_isolation(false)]
pub fn validate_with_policy(p: &Project, allow_unspecified_inputs: bool) -> (r: Vec<
    ValidationError,
>)
    ensures
        r.deep_view() == validate_spec(*p, allow_unspecified_inputs),
{
    let ghost tn = pair_keys(p.trees@);
    let ghost sn = pair_keys(p.user_structs@);
    let mut errs: Vec<ValidationError> = Vec::new();
    proof {
        assert(Seq::<ErrorModel>::empty() + duplicate_errors(tn, Namespace::Trees)
            =~= duplicate_errors(tn, Namespace::Trees));
    }
    push_duplicate_errors(&mut errs, &p.trees, Namespace::Trees);
    push_duplicate_errors(&mut errs, &p.user_actions, Namespace::Actions);
    push_duplicate_errors(&mut errs, &p.user_structs, Namespace::Structs);
    let ghost dups = errs.deep_view();
    let tree_names = collect_keys(&p.trees);
    proof {
        assert(p.trees@.subrange(0, 0) =~= Seq::<(String, BehaviorTree)>::empty());
        assert(errs.deep_view() + trees_errors(
            p.trees@.subrange(0, 0),
            p.user_actions@,
            tn,
            allow_unspecified_inputs,
        ) =~= errs.deep_view());
    }
    let mut i: usize = 0;
    while i < p.trees.len()
        invariant
            i <= p.trees@.len(),
            errs.deep_view() == dups + trees_errors(
                p.trees@.subrange(0, i as int),
                p.user_actions@,
                tn,
                allow_unspecified_inputs,
            ),
        decreases p.trees@.len() - i,
    {
        push_tree_errors(
            &mut errs,
            &p.trees[i].0,
            &p.trees[i].1,
            &p.user_actions,
            &tree_names,
            allow_unspecified_inputs,
        );
        i = i + 1;
        proof {
            let now = p.trees@.subrange(0, i as int);
            assert(now.subrange(0, now.len() - 1) =~= p.trees@.subrange(0, i - 1));
            assert(now.last() == p.trees@[i - 1]);
            assert(errs.deep_view() =~= dups + trees_errors(
                now,
                p.user_actions@,
                tn,
                allow_unspecified_inputs,
            ));
        }
    }
    proof {
        assert(p.trees@.subrange(0, p.trees@.len() as int) =~= p.trees@);
    }
    let ghost after_trees = errs.deep_view();
    proof {
        assert(p.user_structs@.subrange(0, 0) =~= Seq::<(String, UserStruct)>::empty());
        assert(errs.deep_view() + structs_shape_errors(p.user_structs@.subrange(0, 0))
            =~= errs.deep_view());
    }
    let empty_path: Vec<usize> = Vec::new();
    proof {
        assert(empty_path@ =~= Seq::<usize>::empty());
    }
    let mut j: usize = 0;
    while j < p.user_structs.len()
        invariant
            j <= p.user_structs@.len(),
            errs.deep_view() == after_trees + structs_shape_errors(
                p.user_structs@.subrange(0, j as int),
            ),
        decreases p.user_structs@.len() - j,
    {
        push_pairs_shape_errors(
            &mut errs,
            &p.user_structs[j].1.fields,
            Namespace::Structs,
            &p.user_structs[j].0,
            &empty_path,
        );
        j = j + 1;
        proof {
            let now = p.user_structs@.subrange(0, j as int);
            assert(now.subrange(0, now.len() - 1) =~= p.user_structs@.subrange(0, j - 1));
            assert(now.last() == p.user_structs@[j - 1]);
            assert(errs.deep_view() =~= after_trees + structs_shape_errors(now));
        }
    }
    proof {
        assert(p.user_structs@.subrange(0, p.user_structs@.len() as int) =~= p.user_structs@);
    }
    let tree_adj = build_tree_adjacency(&p.trees, &tree_names);
    proof {
        lemma_pair_keys_index(p.trees@);
        assert forall|a: int, b: int|
            0 <= a < tree_adj@.len() && 0 <= b < tree_adj@[a]@.len() implies tree_adj@[a]@[b]
            < tree_names@.len() by {
            assert(tree_adj@[a]@ =~= tree_adj.deep_view()[a]);
            lemma_resolve_indices_bounds(tree_refs(p.trees@[a].1), tn);
        }
    }
    let tree_loops = find_cycles(&tree_adj, &tree_names);
    push_tree_cycle_errors(&mut errs, &tree_loops);
    let struct_names = collect_keys(&p.user_structs);
    let struct_adj = build_struct_adjacency(&p.user_structs, &struct_names);
    proof {
        lemma_pair_keys_index(p.user_structs@);
        assert forall|a: int, b: int|
            0 <= a < struct_adj@.len() && 0 <= b < struct_adj@[a]@.len() implies
            struct_adj@[a]@[b] < struct_names@.len() by {
            assert(struct_adj@[a]@ =~= struct_adj.deep_view()[a]);
            lemma_resolve_indices_bounds(fields_struct_refs(p.user_structs@[a].1.fields@), sn);
        }
    }
    let struct_loops = find_cycles(&struct_adj, &struct_names);
    push_struct_cycle_errors(&mut errs, &struct_loops);
    proof {
        assert(errs.deep_view() =~= validate_spec(*p, allow_unspecified_inputs));
    }
    errs
}

/// Check a whole project under the default policy: an `Unspecified`
/// input binding is accepted. Returns the complete defect list, empty
/// exactly when every check passes.
pub fn validate(p: &Project) -> (r: Vec<ValidationError>)
    ensures
        r.deep_view() == validate_spec(*p, true),
{
    validate_with_policy(p, true)
}

} // verus!
