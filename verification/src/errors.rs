//! The closed error taxonomy of the validation engine, and its
//! mathematical model.
//!
//! Errors are collected, never thrown: a validation pass returns every
//! defect it finds. Each error carries enough context (namespace or tree
//! name, and a node path as an index sequence) to render a precise
//! location. Within a tree, the virtual path index `0` stands for the root
//! node and `1 + i` for the `i`-th floating node; deeper indices are child
//! positions.

use vstd::prelude::*;
use crate::algebra::ArgumentDiscriminant;
use crate::algebra::TypeShape;
use crate::algebra::shape_of;

verus! {

/// The three project namespaces.
#[derive(Clone, Copy, PartialEq, Eq, Structural, Debug)]
pub enum Namespace {
    Trees,
    Actions,
    Structs,
}

/// One detected defect.
#[derive(Debug, PartialEq)]
pub enum ValidationError {
    /// Two entities share a name within one namespace.
    DuplicateName { namespace: Namespace, name: String },
    /// Binding count disagrees with the action signature.
    ArityMismatch { tree: String, node_path: Vec<usize>, expected: usize, actual: usize },
    /// A binding's or literal's type disagrees with its declared slot.
    TypeMismatch {
        tree: String,
        node_path: Vec<usize>,
        expected: ArgumentDiscriminant,
        actual: ArgumentDiscriminant,
    },
    /// A binding or decorator references a variable absent from the tree's
    /// blackboard.
    UndeclaredBlackboardVariable { tree: String, node_path: Vec<usize>, name: String },
    /// A tree reference names a tree absent from the project.
    UnresolvedTreeReference { tree: String, node_path: Vec<usize>, relative_path: String },
    /// An action call names a signature absent from the project.
    UnresolvedActionReference { tree: String, node_path: Vec<usize>, key: String },
    /// An input slot is left unbound while the validation policy requires
    /// every input to be supplied.
    UnspecifiedInput { tree: String, node_path: Vec<usize>, slot: usize },
    /// The tree-reference graph contains this loop of tree names.
    CyclicTreeReference { cycle: Vec<String> },
    /// The struct-reference graph contains this loop of struct names.
    CyclicStructDefinition { cycle: Vec<String> },
    /// A malformed literal shape: a fixed-size array descriptor with
    /// length zero.
    InvalidShape { namespace: Namespace, name: String, node_path: Vec<usize> },
}

/// The mathematical model of a [`ValidationError`]: names as character
/// sequences, type descriptors as shapes.
pub enum ErrorModel {
    DuplicateName { namespace: Namespace, name: Seq<char> },
    ArityMismatch { tree: Seq<char>, node_path: Seq<usize>, expected: usize, actual: usize },
    TypeMismatch {
        tree: Seq<char>,
        node_path: Seq<usize>,
        expected: TypeShape,
        actual: TypeShape,
    },
    UndeclaredBlackboardVariable { tree: Seq<char>, node_path: Seq<usize>, name: Seq<char> },
    UnresolvedTreeReference {
        tree: Seq<char>,
        node_path: Seq<usize>,
        relative_path: Seq<char>,
    },
    UnresolvedActionReference { tree: Seq<char>, node_path: Seq<usize>, key: Seq<char> },
    UnspecifiedInput { tree: Seq<char>, node_path: Seq<usize>, slot: usize },
    CyclicTreeReference { cycle: Seq<Seq<char>> },
    CyclicStructDefinition { cycle: Seq<Seq<char>> },
    InvalidShape { namespace: Namespace, name: Seq<char>, node_path: Seq<usize> },
}

impl View for ValidationError {
    type V = ErrorModel;

    open spec fn view(&self) -> ErrorModel {
        match *self {
            ValidationError::DuplicateName { namespace, name } => ErrorModel::DuplicateName {
                namespace,
                name: name@,
            },
            ValidationError::ArityMismatch { tree, node_path, expected, actual } =>
                ErrorModel::ArityMismatch {
                tree: tree@,
                node_path: node_path@,
                expected,
                actual,
            },
            ValidationError::TypeMismatch { tree, node_path, expected, actual } =>
                ErrorModel::TypeMismatch {
                tree: tree@,
                node_path: node_path@,
                expected: shape_of(expected),
                actual: shape_of(actual),
            },
            ValidationError::UndeclaredBlackboardVariable { tree, node_path, name } =>
                ErrorModel::UndeclaredBlackboardVariable {
                tree: tree@,
                node_path: node_path@,
                name: name@,
            },
            ValidationError::UnresolvedTreeReference { tree, node_path, relative_path } =>
                ErrorModel::UnresolvedTreeReference {
                tree: tree@,
                node_path: node_path@,
                relative_path: relative_path@,
            },
            ValidationError::UnresolvedActionReference { tree, node_path, key } =>
                ErrorModel::UnresolvedActionReference {
                tree: tree@,
                node_path: node_path@,
                key: key@,
            },
            ValidationError::UnspecifiedInput { tree, node_path, slot } =>
                ErrorModel::UnspecifiedInput {
                tree: tree@,
                node_path: node_path@,
                slot,
            },
            ValidationError::CyclicTreeReference { cycle } => ErrorModel::CyclicTreeReference {
                cycle: cycle.deep_view(),
            },
            ValidationError::CyclicStructDefinition { cycle } =>
                ErrorModel::CyclicStructDefinition {
                cycle: cycle.deep_view(),
            },
            ValidationError::InvalidShape { namespace, name, node_path } =>
                ErrorModel::InvalidShape {
                namespace,
                name: name@,
                node_path: node_path@,
            },
        }
    }
}

impl DeepView for ValidationError {
    type V = ErrorModel;

    open spec fn deep_view(&self) -> ErrorModel {
        self.view()
    }
}

} // verus!
