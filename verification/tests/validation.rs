use bevy_bt_core::algebra::Argument;
use bevy_bt_core::algebra::ArgumentDiscriminant;
use bevy_bt_core::errors::Namespace;
use bevy_bt_core::errors::ValidationError;
use bevy_bt_core::schema::BehaviorTree;
use bevy_bt_core::schema::Decorator;
use bevy_bt_core::schema::GridPosition;
use bevy_bt_core::schema::Node;
use bevy_bt_core::schema::NodeClass;
use bevy_bt_core::schema::Project;
use bevy_bt_core::schema::SequenceNode;
use bevy_bt_core::schema::Task;
use bevy_bt_core::schema::TreeRef;
use bevy_bt_core::schema::UserAction;
use bevy_bt_core::schema::UserActionInput;
use bevy_bt_core::schema::UserStruct;
use bevy_bt_core::validate::validate;
use bevy_bt_core::validate::validate_with_policy;

fn node(class: NodeClass) -> Node {
    Node {
        title: None,
        decorators: vec![],
        position: GridPosition { x: 0, y: 0 },
        comment: String::new(),
        class,
    }
}

fn tree_with_root(root: Node, blackboard: Vec<(String, Argument)>) -> BehaviorTree {
    BehaviorTree { root, floating_nodes: vec![], blackboard }
}

fn empty_project() -> Project {
    Project { trees: vec![], user_actions: vec![], user_structs: vec![] }
}

fn call(key: &str, inputs: Vec<UserActionInput>, outputs: Vec<Option<String>>) -> NodeClass {
    NodeClass::Task(Task::UserAction {
        key: key.to_string(),
        input_bindings: inputs,
        output_bindings: outputs,
    })
}

#[test]
fn empty_project_is_valid() {
    let p = empty_project();
    assert_eq!(validate(&p), vec![]);
}

#[test]
fn well_formed_project_is_valid() {
    let mut p = empty_project();
    p.user_actions.push((
        "greet".to_string(),
        UserAction { inputs: vec![ArgumentDiscriminant::I32], outputs: vec![] },
    ));
    let root = node(NodeClass::Sequence(SequenceNode {
        children: vec![
            node(call("greet", vec![UserActionInput::Blackboard("x".to_string())], vec![])),
            node(NodeClass::Task(Task::WaitForever)),
        ],
    }));
    p.trees.push((
        "Main".to_string(),
        tree_with_root(root, vec![("x".to_string(), Argument::I32(5))]),
    ));
    assert_eq!(validate(&p), vec![]);
}

#[test]
fn repeated_validation_is_deterministic() {
    let mut p = empty_project();
    p.trees.push((
        "A".to_string(),
        tree_with_root(node(NodeClass::TreeRef(TreeRef { relative_path: "B".to_string() })), vec![]),
    ));
    p.user_structs.push(("S".to_string(), UserStruct {
        fields: vec![("f".to_string(), Argument::UserStruct("S".to_string()))],
    }));
    let first = validate(&p);
    let second = validate(&p);
    assert_eq!(first, second);
    assert!(!first.is_empty());
}

#[test]
fn blackboard_binding_type_mismatch() {
    // Tree `T1` declares `x: I32`; the task binds it to a slot expecting
    // a 32-bit float: exactly one type mismatch.
    let mut p = empty_project();
    p.user_actions.push((
        "act".to_string(),
        UserAction { inputs: vec![ArgumentDiscriminant::F32], outputs: vec![] },
    ));
    let root = node(call("act", vec![UserActionInput::Blackboard("x".to_string())], vec![]));
    p.trees.push((
        "T1".to_string(),
        tree_with_root(root, vec![("x".to_string(), Argument::I32(0))]),
    ));
    assert_eq!(
        validate(&p),
        vec![ValidationError::TypeMismatch {
            tree: "T1".to_string(),
            node_path: vec![0],
            expected: ArgumentDiscriminant::F32,
            actual: ArgumentDiscriminant::I32,
        }]
    );
}

#[test]
fn self_referential_struct_is_one_cycle() {
    let mut p = empty_project();
    p.user_structs.push(("S".to_string(), UserStruct {
        fields: vec![("f".to_string(), Argument::UserStruct("S".to_string()))],
    }));
    assert_eq!(
        validate(&p),
        vec![ValidationError::CyclicStructDefinition { cycle: vec!["S".to_string()] }]
    );
}

#[test]
fn mutual_tree_references_are_one_cycle() {
    let mut p = empty_project();
    p.trees.push((
        "A".to_string(),
        tree_with_root(node(NodeClass::TreeRef(TreeRef { relative_path: "B".to_string() })), vec![]),
    ));
    p.trees.push((
        "B".to_string(),
        tree_with_root(node(NodeClass::TreeRef(TreeRef { relative_path: "A".to_string() })), vec![]),
    ));
    assert_eq!(
        validate(&p),
        vec![ValidationError::CyclicTreeReference {
            cycle: vec!["A".to_string(), "B".to_string()],
        }]
    );
}

#[test]
fn self_tree_reference_is_one_element_cycle() {
    let mut p = empty_project();
    p.trees.push((
        "A".to_string(),
        tree_with_root(node(NodeClass::TreeRef(TreeRef { relative_path: "A".to_string() })), vec![]),
    ));
    assert_eq!(
        validate(&p),
        vec![ValidationError::CyclicTreeReference { cycle: vec!["A".to_string()] }]
    );
}

#[test]
fn duplicate_struct_names_are_reported_once() {
    let mut p = empty_project();
    p.user_structs.push(("Inventory".to_string(), UserStruct { fields: vec![] }));
    p.user_structs.push(("Inventory".to_string(), UserStruct { fields: vec![] }));
    assert_eq!(
        validate(&p),
        vec![ValidationError::DuplicateName {
            namespace: Namespace::Structs,
            name: "Inventory".to_string(),
        }]
    );
}

#[test]
fn fixed_array_of_length_zero_is_invalid_shape() {
    let mut p = empty_project();
    let bad = Argument::FixedArray(Box::new(Argument::Boolean(false)), 0);
    p.trees.push((
        "T".to_string(),
        tree_with_root(node(NodeClass::Task(Task::WaitForever)), vec![("a".to_string(), bad)]),
    ));
    assert_eq!(
        validate(&p),
        vec![ValidationError::InvalidShape {
            namespace: Namespace::Trees,
            name: "T".to_string(),
            node_path: vec![],
        }]
    );
}

#[test]
fn unresolved_tree_reference_is_reported() {
    let mut p = empty_project();
    p.trees.push((
        "A".to_string(),
        tree_with_root(
            node(NodeClass::TreeRef(TreeRef { relative_path: "Nope".to_string() })),
            vec![],
        ),
    ));
    assert_eq!(
        validate(&p),
        vec![ValidationError::UnresolvedTreeReference {
            tree: "A".to_string(),
            node_path: vec![0],
            relative_path: "Nope".to_string(),
        }]
    );
}

#[test]
fn unresolved_action_reference_is_reported() {
    let mut p = empty_project();
    p.trees.push((
        "A".to_string(),
        tree_with_root(node(call("missing", vec![], vec![])), vec![]),
    ));
    assert_eq!(
        validate(&p),
        vec![ValidationError::UnresolvedActionReference {
            tree: "A".to_string(),
            node_path: vec![0],
            key: "missing".to_string(),
        }]
    );
}

#[test]
fn input_arity_mismatch_is_reported_once() {
    let mut p = empty_project();
    p.user_actions.push((
        "act".to_string(),
        UserAction { inputs: vec![ArgumentDiscriminant::I32], outputs: vec![] },
    ));
    p.trees.push((
        "A".to_string(),
        tree_with_root(node(call("act", vec![], vec![])), vec![]),
    ));
    assert_eq!(
        validate(&p),
        vec![ValidationError::ArityMismatch {
            tree: "A".to_string(),
            node_path: vec![0],
            expected: 1,
            actual: 0,
        }]
    );
}

#[test]
fn arity_mismatch_on_both_sides_gives_two_reports() {
    let mut p = empty_project();
    p.user_actions.push((
        "act".to_string(),
        UserAction {
            inputs: vec![ArgumentDiscriminant::I32],
            outputs: vec![ArgumentDiscriminant::Boolean],
        },
    ));
    p.trees.push((
        "A".to_string(),
        tree_with_root(node(call("act", vec![], vec![])), vec![]),
    ));
    let report = validate(&p);
    assert_eq!(report.len(), 2);
    assert!(matches!(report[0], ValidationError::ArityMismatch { expected: 1, actual: 0, .. }));
    assert!(matches!(report[1], ValidationError::ArityMismatch { expected: 1, actual: 0, .. }));
}

#[test]
fn undeclared_blackboard_variable_in_binding() {
    let mut p = empty_project();
    p.user_actions.push((
        "act".to_string(),
        UserAction { inputs: vec![ArgumentDiscriminant::I32], outputs: vec![] },
    ));
    p.trees.push((
        "A".to_string(),
        tree_with_root(
            node(call("act", vec![UserActionInput::Blackboard("missing_var".to_string())], vec![])),
            vec![],
        ),
    ));
    assert_eq!(
        validate(&p),
        vec![ValidationError::UndeclaredBlackboardVariable {
            tree: "A".to_string(),
            node_path: vec![0],
            name: "missing_var".to_string(),
        }]
    );
}

#[test]
fn inline_literal_type_mismatch() {
    let mut p = empty_project();
    p.user_actions.push((
        "act".to_string(),
        UserAction { inputs: vec![ArgumentDiscriminant::String], outputs: vec![] },
    ));
    p.trees.push((
        "A".to_string(),
        tree_with_root(
            node(call("act", vec![UserActionInput::Argument(Argument::Boolean(true))], vec![])),
            vec![],
        ),
    ));
    assert_eq!(
        validate(&p),
        vec![ValidationError::TypeMismatch {
            tree: "A".to_string(),
            node_path: vec![0],
            expected: ArgumentDiscriminant::String,
            actual: ArgumentDiscriminant::Boolean,
        }]
    );
}

#[test]
fn output_binding_type_mismatch() {
    let mut p = empty_project();
    p.user_actions.push((
        "act".to_string(),
        UserAction { inputs: vec![], outputs: vec![ArgumentDiscriminant::F64] },
    ));
    p.trees.push((
        "A".to_string(),
        tree_with_root(
            node(call("act", vec![], vec![Some("x".to_string())])),
            vec![("x".to_string(), Argument::I32(0))],
        ),
    ));
    assert_eq!(
        validate(&p),
        vec![ValidationError::TypeMismatch {
            tree: "A".to_string(),
            node_path: vec![0],
            expected: ArgumentDiscriminant::F64,
            actual: ArgumentDiscriminant::I32,
        }]
    );
}

#[test]
fn unbound_output_is_accepted() {
    let mut p = empty_project();
    p.user_actions.push((
        "act".to_string(),
        UserAction { inputs: vec![], outputs: vec![ArgumentDiscriminant::F64] },
    ));
    p.trees.push((
        "A".to_string(),
        tree_with_root(node(call("act", vec![], vec![None])), vec![]),
    ));
    assert_eq!(validate(&p), vec![]);
}

#[test]
fn unspecified_input_follows_policy() {
    let mut p = empty_project();
    p.user_actions.push((
        "act".to_string(),
        UserAction { inputs: vec![ArgumentDiscriminant::I32], outputs: vec![] },
    ));
    p.trees.push((
        "A".to_string(),
        tree_with_root(node(call("act", vec![UserActionInput::Unspecified], vec![])), vec![]),
    ));
    assert_eq!(validate(&p), vec![]);
    assert_eq!(
        validate_with_policy(&p, false),
        vec![ValidationError::UnspecifiedInput {
            tree: "A".to_string(),
            node_path: vec![0],
            slot: 0,
        }]
    );
}

#[test]
fn decorator_checks_blackboard() {
    let mut p = empty_project();
    let mut guarded = node(NodeClass::Task(Task::WaitForever));
    guarded.decorators.push(Decorator::BlackboardEquals(
        "x".to_string(),
        Argument::Boolean(true),
    ));
    guarded.decorators.push(Decorator::BlackboardNonEmpty("missing_var".to_string()));
    p.trees.push((
        "A".to_string(),
        tree_with_root(guarded, vec![("x".to_string(), Argument::I32(1))]),
    ));
    assert_eq!(
        validate(&p),
        vec![
            ValidationError::TypeMismatch {
                tree: "A".to_string(),
                node_path: vec![0],
                expected: ArgumentDiscriminant::I32,
                actual: ArgumentDiscriminant::Boolean,
            },
            ValidationError::UndeclaredBlackboardVariable {
                tree: "A".to_string(),
                node_path: vec![0],
                name: "missing_var".to_string(),
            },
        ]
    );
}

#[test]
fn floating_nodes_are_checked_with_their_own_paths() {
    let mut p = empty_project();
    let mut bt = tree_with_root(node(NodeClass::Task(Task::WaitForever)), vec![]);
    bt.floating_nodes.push(node(NodeClass::TreeRef(TreeRef {
        relative_path: "Nope".to_string(),
    })));
    p.trees.push(("A".to_string(), bt));
    assert_eq!(
        validate(&p),
        vec![ValidationError::UnresolvedTreeReference {
            tree: "A".to_string(),
            node_path: vec![1],
            relative_path: "Nope".to_string(),
        }]
    );
}

#[test]
fn nested_children_get_index_paths() {
    let mut p = empty_project();
    let inner = node(NodeClass::TreeRef(TreeRef { relative_path: "Nope".to_string() }));
    let root = node(NodeClass::Sequence(SequenceNode {
        children: vec![node(NodeClass::Task(Task::WaitForever)), inner],
    }));
    p.trees.push(("A".to_string(), tree_with_root(root, vec![])));
    assert_eq!(
        validate(&p),
        vec![ValidationError::UnresolvedTreeReference {
            tree: "A".to_string(),
            node_path: vec![0, 1],
            relative_path: "Nope".to_string(),
        }]
    );
}

#[test]
fn wait_for_carries_no_checks() {
    let mut p = empty_project();
    p.trees.push((
        "A".to_string(),
        tree_with_root(
            node(NodeClass::Task(Task::WaitFor { timeout: 2.5f64.to_bits() })),
            vec![],
        ),
    ));
    assert_eq!(validate(&p), vec![]);
}

#[test]
fn user_eval_inputs_are_shape_checked() {
    let mut p = empty_project();
    let mut guarded = node(NodeClass::Task(Task::WaitForever));
    guarded.decorators.push(Decorator::UserEval {
        logic_name: "can_see".to_string(),
        inputs: vec![(
            "range".to_string(),
            Argument::FixedArray(Box::new(Argument::F32(0)), 0),
        )],
        default: false,
    });
    p.trees.push(("A".to_string(), tree_with_root(guarded, vec![])));
    assert_eq!(
        validate(&p),
        vec![ValidationError::InvalidShape {
            namespace: Namespace::Trees,
            name: "A".to_string(),
            node_path: vec![0],
        }]
    );
}

#[test]
fn report_content_depends_only_on_project_content() {
    // Two structurally identical snapshots built independently give the
    // same report.
    let build = || {
        let mut p = empty_project();
        p.user_actions.push((
            "act".to_string(),
            UserAction { inputs: vec![ArgumentDiscriminant::F32], outputs: vec![] },
        ));
        p.trees.push((
            "T1".to_string(),
            tree_with_root(
                node(call("act", vec![UserActionInput::Blackboard("x".to_string())], vec![])),
                vec![("x".to_string(), Argument::I32(0))],
            ),
        ));
        p
    };
    assert_eq!(validate(&build()), validate(&build()));
}
