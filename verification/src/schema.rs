//! Schema entities: the concrete shapes of a project — trees, nodes,
//! tasks, decorators, action signatures and user-defined aggregates.
//!
//! These are plain value objects; every invariant over them is enforced by
//! the validation engine. Name-keyed collections are held as ordered lists
//! of `(name, value)` pairs: iteration order is the stored order, and
//! duplicate names are representable so that validation can report them.

use vstd::prelude::*;
use crate::algebra::Argument;
use crate::algebra::ArgumentDiscriminant;

verus! {

/// A whole workspace: three name-keyed namespaces. Names are unique within
/// each namespace (checked by validation, not by construction).
#[derive(Debug)]
pub struct Project {
    pub trees: Vec<(String, BehaviorTree)>,
    pub user_actions: Vec<(String, UserAction)>,
    pub user_structs: Vec<(String, UserStruct)>,
}

/// One behavior tree: a root node, floating nodes kept for authoring
/// convenience, and the tree-scoped blackboard of typed variables.
#[derive(Debug)]
pub struct BehaviorTree {
    pub root: Node,
    pub floating_nodes: Vec<Node>,
    pub blackboard: Vec<(String, Argument)>,
}

/// Editor-only grid position, carried as the IEEE-754 bit patterns of the
/// two coordinates. It has no semantic weight for validation.
#[derive(Debug)]
pub struct GridPosition {
    pub x: u64,
    pub y: u64,
}

/// A node of a tree: presentation fields plus exactly one class payload.
#[derive(Debug)]
pub struct Node {
    pub title: Option<String>,
    pub decorators: Vec<Decorator>,
    pub position: GridPosition,
    pub comment: String,
    pub class: NodeClass,
}

/// The closed set of node kinds.
#[derive(Debug)]
pub enum NodeClass {
    Sequence(SequenceNode),
    Selector(SelectorNode),
    Decorator(Decorator),
    Task(Task),
    TreeRef(TreeRef),
}

/// Runs its children in order.
#[derive(Debug)]
pub struct SequenceNode {
    pub children: Vec<Node>,
}

/// Runs one of its children; `random` picks the order.
#[derive(Debug)]
pub struct SelectorNode {
    pub random: bool,
    pub children: Vec<Node>,
}

/// Marker for a task slot with no payload of its own.
#[derive(Debug)]
pub struct TaskNode {}

/// Reference to another tree of the project by its relative path.
#[derive(Debug)]
pub struct TreeRef {
    pub relative_path: String,
}

/// A main node evaluated for its result while other nodes run beside it.
#[derive(Debug)]
pub struct Parallel {
    pub main: NodeClass,
    pub subs: Vec<NodeClass>,
}

/// Instantiation of a single action.
///
/// The `timeout` of `WaitFor` is a duration in seconds, carried as the
/// IEEE-754 bit pattern of the 64-bit value.
#[derive(Debug)]
pub enum Task {
    UserAction {
        key: String,
        input_bindings: Vec<UserActionInput>,
        output_bindings: Vec<Option<String>>,
    },
    WaitFor { timeout: u64 },
    WaitForever,
}

/// How one action input slot is filled.
#[derive(Debug)]
pub enum UserActionInput {
    Unspecified,
    Blackboard(String),
    Argument(Argument),
}

impl Default for UserActionInput {
    /// An input slot starts out unbound.
    fn default() -> (r: Self)
        ensures
            r is Unspecified,
    {
        UserActionInput::Unspecified
    }
}

/// The ordered input/output type contract of a reusable, externally
/// implemented behavior.
#[derive(Debug)]
pub struct UserAction {
    pub inputs: Vec<ArgumentDiscriminant>,
    pub outputs: Vec<ArgumentDiscriminant>,
}

/// A user-defined aggregate type: an ordered, insertion-order-preserving
/// mapping of field name to typed default value.
#[derive(Debug)]
pub struct UserStruct {
    pub fields: Vec<(String, Argument)>,
}

/// A guard on a node's execution.
#[derive(Debug)]
pub enum Decorator {
    /// True when the named blackboard variable equals the literal; the
    /// types must agree.
    BlackboardEquals(String, Argument),
    /// For booleans, non-false; for numerics, non-zero; for strings or
    /// references, non-empty.
    BlackboardNonEmpty(String),
    /// External boolean predicate; `default` is used when the predicate is
    /// unresolvable at run time.
    UserEval {
        logic_name: String,
        inputs: Vec<(String, Argument)>,
        default: bool,
    },
}

} // verus!
