//! Project-level laws of the validation engine, stated and proved over
//! the same specification functions that the engine's contract uses.

use vstd::prelude::*;
use crate::algebra::Argument;
use crate::algebra::ArgumentDiscriminant;
use crate::errors::ErrorModel;
use crate::errors::Namespace;
use crate::schema::BehaviorTree;
use crate::schema::Node;
use crate::schema::NodeClass;
use crate::schema::Project;
use crate::schema::Task;
use crate::schema::UserAction;
use crate::schema::UserActionInput;
use crate::validate::assoc_lookup;
use crate::validate::arg_shape_errors;
use crate::validate::args_shape_errors;
use crate::validate::one_input_errors;
use crate::validate::one_output_errors;
use crate::validate::input_bindings_errors;
use crate::validate::output_bindings_errors;
use crate::validate::task_errors;
use crate::validate::node_errors;
use crate::validate::nodes_errors;
use crate::validate::tree_errors;
use crate::validate::trees_errors;
use crate::validate::node_tree_refs;
use crate::validate::nodes_tree_refs;
use crate::validate::tree_refs;
use crate::validate::pair_keys;
use crate::validate::has_name;
use crate::validate::validate_spec;

verus! {

/// Validation is deterministic: checking one unchanged project snapshot
/// under one policy can only ever produce one defect list, because the
/// engine's contract ties its result to a function of the snapshot.
pub proof fn lemma_validate_deterministic(
    p: Project,
    allow_unspecified: bool,
    r1: Seq<ErrorModel>,
    r2: Seq<ErrorModel>,
)
    requires
        r1 == validate_spec(p, allow_unspecified),
        r2 == validate_spec(p, allow_unspecified),
    ensures
        r1 == r2,
{
}

/// How many arity reports a defect list holds.
pub open spec fn arity_count(s: Seq<ErrorModel>) -> int
    decreases s.len(),
{
    if s.len() == 0 {
        0
    } else {
        arity_count(s.subrange(0, s.len() - 1)) + (match s.last() {
            ErrorModel::ArityMismatch { tree, node_path, expected, actual } => 1int,
            _ => 0int,
        })
    }
}

pub proof fn lemma_arity_count_empty()
    ensures
        arity_count(Seq::<ErrorModel>::empty()) == 0,
{
}

pub proof fn lemma_arity_count_single(e: ErrorModel)
    ensures
        arity_count(seq![e]) == (match e {
            ErrorModel::ArityMismatch { tree, node_path, expected, actual } => 1int,
            _ => 0int,
        }),
{
    assert(seq![e].subrange(0, 0) =~= Seq::<ErrorModel>::empty());
    assert(arity_count(seq![e].subrange(0, 0)) == 0);
    assert(seq![e].last() == e);
}

pub proof fn lemma_arity_count_concat(a: Seq<ErrorModel>, b: Seq<ErrorModel>)
    ensures
        arity_count(a + b) == arity_count(a) + arity_count(b),
    decreases b.len(),
{
    if b.len() == 0 {
        assert(a + b =~= a);
    } else {
        let b0 = b.subrange(0, b.len() - 1);
        lemma_arity_count_concat(a, b0);
        assert((a + b).subrange(0, (a + b).len() - 1) =~= a + b0);
        assert((a + b).last() == b.last());
    }
}

pub proof fn lemma_no_arity_in_arg(a: Argument, ns: Namespace, owner: Seq<char>, path: Seq<usize>)
    ensures
        arity_count(arg_shape_errors(a, ns, owner, path)) == 0,
    decreases a,
{
    match a {
        Argument::FixedArray(e, n) => {
            lemma_no_arity_in_arg(*e, ns, owner, path);
            let head: Seq<ErrorModel> = if n == 0 {
                seq![ErrorModel::InvalidShape { namespace: ns, name: owner, node_path: path }]
            } else {
                Seq::empty()
            };
            lemma_arity_count_concat(head, arg_shape_errors(*e, ns, owner, path));
            if n == 0 {
                lemma_arity_count_single(
                    ErrorModel::InvalidShape { namespace: ns, name: owner, node_path: path },
                );
            } else {
                lemma_arity_count_empty();
            }
        },
        Argument::Tuple(v) => {
            lemma_no_arity_in_args(v@, ns, owner, path);
        },
        _ => {},
    }
}

pub proof fn lemma_no_arity_in_args(
    s: Seq<Argument>,
    ns: Namespace,
    owner: Seq<char>,
    path: Seq<usize>,
)
    ensures
        arity_count(args_shape_errors(s, ns, owner, path)) == 0,
    decreases s,
{
    if s.len() > 0 {
        lemma_no_arity_in_args(s.subrange(0, s.len() - 1), ns, owner, path);
        lemma_no_arity_in_arg(s.last(), ns, owner, path);
        lemma_arity_count_concat(
            args_shape_errors(s.subrange(0, s.len() - 1), ns, owner, path),
            arg_shape_errors(s.last(), ns, owner, path),
        );
    }
}

pub proof fn lemma_no_arity_in_one_input(
    b: UserActionInput,
    sig: ArgumentDiscriminant,
    slot: int,
    bb: Seq<(String, Argument)>,
    tree: Seq<char>,
    path: Seq<usize>,
    allow_unspecified: bool,
)
    ensures
        arity_count(one_input_errors(b, sig, slot, bb, tree, path, allow_unspecified)) == 0,
{
    let es = one_input_errors(b, sig, slot, bb, tree, path, allow_unspecified);
    match b {
        UserActionInput::Argument(lit) => {
            lemma_no_arity_in_arg(lit, Namespace::Trees, tree, path);
            let head: Seq<ErrorModel> = if crate::algebra::arg_shape(lit)
                == crate::algebra::shape_of(sig) {
                Seq::empty()
            } else {
                seq![
                    ErrorModel::TypeMismatch {
                        tree,
                        node_path: path,
                        expected: crate::algebra::shape_of(sig),
                        actual: crate::algebra::arg_shape(lit),
                    },
                ]
            };
            lemma_arity_count_concat(head, arg_shape_errors(lit, Namespace::Trees, tree, path));
            if head.len() > 0 {
                lemma_arity_count_single(head[0]);
                assert(seq![head[0]] =~= head);
            } else {
                lemma_arity_count_empty();
            }
        },
        _ => {
            if es.len() > 0 {
                lemma_arity_count_single(es[0]);
                assert(seq![es[0]] =~= es);
            } else {
                lemma_arity_count_empty();
            }
        },
    }
}

pub proof fn lemma_no_arity_in_inputs(
    binds: Seq<UserActionInput>,
    sigs: Seq<ArgumentDiscriminant>,
    bb: Seq<(String, Argument)>,
    tree: Seq<char>,
    path: Seq<usize>,
    allow_unspecified: bool,
)
    ensures
        arity_count(input_bindings_errors(binds, sigs, bb, tree, path, allow_unspecified))
            == 0,
    decreases binds.len(),
{
    if binds.len() > 0 {
        lemma_no_arity_in_inputs(
            binds.subrange(0, binds.len() - 1),
            sigs,
            bb,
            tree,
            path,
            allow_unspecified,
        );
        lemma_no_arity_in_one_input(
            binds.last(),
            sigs[binds.len() - 1],
            binds.len() - 1,
            bb,
            tree,
            path,
            allow_unspecified,
        );
        lemma_arity_count_concat(
            input_bindings_errors(
                binds.subrange(0, binds.len() - 1),
                sigs,
                bb,
                tree,
                path,
                allow_unspecified,
            ),
            one_input_errors(
                binds.last(),
                sigs[binds.len() - 1],
                binds.len() - 1,
                bb,
                tree,
                path,
                allow_unspecified,
            ),
        );
    }
}

pub proof fn lemma_no_arity_in_outputs(
    binds: Seq<Option<String>>,
    sigs: Seq<ArgumentDiscriminant>,
    bb: Seq<(String, Argument)>,
    tree: Seq<char>,
    path: Seq<usize>,
)
    ensures
        arity_count(output_bindings_errors(binds, sigs, bb, tree, path)) == 0,
    decreases binds.len(),
{
    if binds.len() > 0 {
        lemma_no_arity_in_outputs(binds.subrange(0, binds.len() - 1), sigs, bb, tree, path);
        let one = one_output_errors(binds.last(), sigs[binds.len() - 1], bb, tree, path);
        if one.len() > 0 {
            lemma_arity_count_single(one[0]);
            assert(seq![one[0]] =~= one);
        } else {
            lemma_arity_count_empty();
        }
        lemma_arity_count_concat(
            output_bindings_errors(binds.subrange(0, binds.len() - 1), sigs, bb, tree, path),
            one,
        );
    }
}

/// A call to a resolved action yields exactly one arity report per side
/// — inputs, outputs — whose binding count disagrees with the signature,
/// and none when both counts agree.
pub proof fn lemma_arity_mismatch(
    key: String,
    input_bindings: Vec<UserActionInput>,
    output_bindings: Vec<Option<String>>,
    sig: UserAction,
    actions: Seq<(String, UserAction)>,
    bb: Seq<(String, Argument)>,
    tree: Seq<char>,
    path: Seq<usize>,
    allow_unspecified: bool,
)
    requires
        assoc_lookup(actions, key@) == Option::Some(sig),
    ensures
        arity_count(
            task_errors(
                Task::UserAction { key, input_bindings, output_bindings },
                actions,
                bb,
                tree,
                path,
                allow_unspecified,
            ),
        ) == (if input_bindings@.len() != sig.inputs@.len() {
            1int
        } else {
            0int
        }) + (if output_bindings@.len() != sig.outputs@.len() {
            1int
        } else {
            0int
        }),
{
    let in_part: Seq<ErrorModel> = if input_bindings@.len() != sig.inputs@.len() {
        seq![
            ErrorModel::ArityMismatch {
                tree,
                node_path: path,
                expected: sig.inputs@.len() as usize,
                actual: input_bindings@.len() as usize,
            },
        ]
    } else {
        input_bindings_errors(
            input_bindings@,
            sig.inputs@,
            bb,
            tree,
            path,
            allow_unspecified,
        )
    };
    let out_part: Seq<ErrorModel> = if output_bindings@.len() != sig.outputs@.len() {
        seq![
            ErrorModel::ArityMismatch {
                tree,
                node_path: path,
                expected: sig.outputs@.len() as usize,
                actual: output_bindings@.len() as usize,
            },
        ]
    } else {
        output_bindings_errors(output_bindings@, sig.outputs@, bb, tree, path)
    };
    lemma_arity_count_concat(in_part, out_part);
    if input_bindings@.len() != sig.inputs@.len() {
        lemma_arity_count_single(in_part[0]);
        assert(seq![in_part[0]] =~= in_part);
    } else {
        lemma_no_arity_in_inputs(
            input_bindings@,
            sig.inputs@,
            bb,
            tree,
            path,
            allow_unspecified,
        );
    }
    if output_bindings@.len() != sig.outputs@.len() {
        lemma_arity_count_single(out_part[0]);
        assert(seq![out_part[0]] =~= out_part);
    } else {
        lemma_no_arity_in_outputs(output_bindings@, sig.outputs@, bb, tree, path);
    }
}

pub proof fn lemma_node_refs_resolve(
    node: Node,
    actions: Seq<(String, UserAction)>,
    tree_names: Seq<Seq<char>>,
    bb: Seq<(String, Argument)>,
    tree: Seq<char>,
    path: Seq<usize>,
    allow_unspecified: bool,
)
    requires
        node_errors(node, actions, tree_names, bb, tree, path, allow_unspecified).len() == 0,
    ensures
        forall|r: int|
            0 <= r < node_tree_refs(node).len() ==> has_name(
                tree_names,
                node_tree_refs(node)[r],
            ),
    decreases node,
{
    match node.class {
        NodeClass::Sequence(sq) => {
            lemma_nodes_refs_resolve(
                sq.children@,
                actions,
                tree_names,
                bb,
                tree,
                path,
                0,
                allow_unspecified,
            );
            assert forall|r: int| 0 <= r < node_tree_refs(node).len() implies has_name(
                tree_names,
                node_tree_refs(node)[r],
            ) by {
                assert(has_name(tree_names, nodes_tree_refs(sq.children@)[r]));
            }
        },
        NodeClass::Selector(sl) => {
            lemma_nodes_refs_resolve(
                sl.children@,
                actions,
                tree_names,
                bb,
                tree,
                path,
                0,
                allow_unspecified,
            );
            assert forall|r: int| 0 <= r < node_tree_refs(node).len() implies has_name(
                tree_names,
                node_tree_refs(node)[r],
            ) by {
                assert(has_name(tree_names, nodes_tree_refs(sl.children@)[r]));
            }
        },
        NodeClass::Decorator(d) => {},
        NodeClass::Task(t) => {},
        NodeClass::TreeRef(r) => {
            assert(has_name(tree_names, r.relative_path@));
        },
    }
}

pub proof fn lemma_nodes_refs_resolve(
    children: Seq<Node>,
    actions: Seq<(String, UserAction)>,
    tree_names: Seq<Seq<char>>,
    bb: Seq<(String, Argument)>,
    tree: Seq<char>,
    base: Seq<usize>,
    start: int,
    allow_unspecified: bool,
)
    requires
        nodes_errors(children, actions, tree_names, bb, tree, base, start, allow_unspecified)
            .len() == 0,
    ensures
        forall|r: int|
            0 <= r < nodes_tree_refs(children).len() ==> has_name(
                tree_names,
                nodes_tree_refs(children)[r],
            ),
    decreases children,
{
    if children.len() > 0 {
        let pre = children.subrange(0, children.len() - 1);
        lemma_nodes_refs_resolve(
            pre,
            actions,
            tree_names,
            bb,
            tree,
            base,
            start,
            allow_unspecified,
        );
        lemma_node_refs_resolve(
            children.last(),
            actions,
            tree_names,
            bb,
            tree,
            base.push((start + children.len() - 1) as usize),
            allow_unspecified,
        );
        assert forall|r: int| 0 <= r < nodes_tree_refs(children).len() implies has_name(
            tree_names,
            nodes_tree_refs(children)[r],
        ) by {
            let a = nodes_tree_refs(pre);
            let b = node_tree_refs(children.last());
            if r < a.len() {
                assert(nodes_tree_refs(children)[r] == a[r]);
            } else {
                assert(nodes_tree_refs(children)[r] == b[r - a.len()]);
            }
        }
    }
}

pub proof fn lemma_tree_refs_resolve(
    name: Seq<char>,
    bt: BehaviorTree,
    actions: Seq<(String, UserAction)>,
    tree_names: Seq<Seq<char>>,
    allow_unspecified: bool,
)
    requires
        tree_errors(name, bt, actions, tree_names, allow_unspecified).len() == 0,
    ensures
        forall|r: int|
            0 <= r < tree_refs(bt).len() ==> has_name(tree_names, tree_refs(bt)[r]),
{
    lemma_node_refs_resolve(
        bt.root,
        actions,
        tree_names,
        bt.blackboard@,
        name,
        seq![0usize],
        allow_unspecified,
    );
    lemma_nodes_refs_resolve(
        bt.floating_nodes@,
        actions,
        tree_names,
        bt.blackboard@,
        name,
        Seq::empty(),
        1,
        allow_unspecified,
    );
    assert forall|r: int| 0 <= r < tree_refs(bt).len() implies has_name(
        tree_names,
        tree_refs(bt)[r],
    ) by {
        let a = node_tree_refs(bt.root);
        let b = nodes_tree_refs(bt.floating_nodes@);
        if r < a.len() {
            assert(tree_refs(bt)[r] == a[r]);
        } else {
            assert(tree_refs(bt)[r] == b[r - a.len()]);
        }
    }
}

pub proof fn lemma_trees_refs_resolve(
    trees: Seq<(String, BehaviorTree)>,
    actions: Seq<(String, UserAction)>,
    tree_names: Seq<Seq<char>>,
    allow_unspecified: bool,
)
    requires
        trees_errors(trees, actions, tree_names, allow_unspecified).len() == 0,
    ensures
        forall|i: int, r: int|
            0 <= i < trees.len() && 0 <= r < tree_refs(trees[i].1).len() ==> has_name(
                tree_names,
                tree_refs(trees[i].1)[r],
            ),
    decreases trees.len(),
{
    if trees.len() > 0 {
        let pre = trees.subrange(0, trees.len() - 1);
        lemma_trees_refs_resolve(pre, actions, tree_names, allow_unspecified);
        lemma_tree_refs_resolve(
            trees.last().0@,
            trees.last().1,
            actions,
            tree_names,
            allow_unspecified,
        );
        assert forall|i: int, r: int|
            0 <= i < trees.len() && 0 <= r < tree_refs(trees[i].1).len() implies has_name(
            tree_names,
            tree_refs(trees[i].1)[r],
        ) by {
            if i < trees.len() - 1 {
                assert(trees[i] == pre[i]);
            }
        }
    }
}

/// In a project whose defect list is empty, every tree reference that
/// occurs anywhere in any tree — in the root hierarchy or among the
/// floating nodes — names a tree that exists in the project.
pub proof fn lemma_valid_project_refs_resolve(p: Project, allow_unspecified: bool)
    requires
        validate_spec(p, allow_unspecified).len() == 0,
    ensures
        forall|i: int, r: int|
            0 <= i < p.trees@.len() && 0 <= r < tree_refs(p.trees@[i].1).len() ==> has_name(
                pair_keys(p.trees@),
                tree_refs(p.trees@[i].1)[r],
            ),
{
    lemma_trees_refs_resolve(
        p.trees@,
        p.user_actions@,
        pair_keys(p.trees@),
        allow_unspecified,
    );
}

} // verus!
