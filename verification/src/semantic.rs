//! The semantic analyzer's outcome: success, or exactly one structured
//! error, the first violation met in traversal order.

pub mod analyzer;
pub mod laws;
pub mod model;

use vstd::prelude::*;

use crate::ast::nodes::{Program, Type, TypeView};

verus! {

/// Which level of the namespace hierarchy a duplicate definition hit.
#[derive(Debug, Clone, Copy, PartialEq, Eq)]
pub enum DefinitionKind {
    Realm,
    Being,
    Variable,
    Ritual,
    Parameter,
}

/// What a site expected of a type: one exact type, or any numeric type.
#[derive(Debug, Clone, PartialEq, Eq)]
pub enum TypeExpectation {
    Exact(Type),
    Numeric,
}

/// Mathematical image of `TypeExpectation`.
pub enum TypeExpectationView {
    Exact(TypeView),
    Numeric,
}

impl View for TypeExpectation {
    type V = TypeExpectationView;

    open spec fn view(&self) -> TypeExpectationView {
        match self {
            TypeExpectation::Exact(t) => TypeExpectationView::Exact(t@),
            TypeExpectation::Numeric => TypeExpectationView::Numeric,
        }
    }
}

/// The offending type, or pair of operand types, actually found.
#[derive(Debug, Clone, PartialEq, Eq)]
pub enum FoundTypes {
    Single(Type),
    Pair(Type, Type),
}

/// Mathematical image of `FoundTypes`.
pub enum FoundTypesView {
    Single(TypeView),
    Pair(TypeView, TypeView),
}

impl View for FoundTypes {
    type V = FoundTypesView;

    open spec fn view(&self) -> FoundTypesView {
        match self {
            FoundTypes::Single(t) => FoundTypesView::Single(t@),
            FoundTypes::Pair(a, b) => FoundTypesView::Pair(a@, b@),
        }
    }
}

/// Where a type mismatch was detected.
#[derive(Debug, Clone, PartialEq, Eq)]
pub enum MismatchSite {
    ArithmeticOperands,
    EqualityOperands,
    OrderingOperands,
    CallArgument { ritual: String, position: usize },
    Initializer { variable: String },
    Assignment { variable: String },
    Condition,
    ReturnValue,
}

/// Mathematical image of `MismatchSite`.
pub enum MismatchSiteView {
    ArithmeticOperands,
    EqualityOperands,
    OrderingOperands,
    CallArgument { ritual: Seq<char>, position: int },
    Initializer { variable: Seq<char> },
    Assignment { variable: Seq<char> },
    Condition,
    ReturnValue,
}

impl View for MismatchSite {
    type V = MismatchSiteView;

    open spec fn view(&self) -> MismatchSiteView {
        match self {
            MismatchSite::ArithmeticOperands => MismatchSiteView::ArithmeticOperands,
            MismatchSite::EqualityOperands => MismatchSiteView::EqualityOperands,
            MismatchSite::OrderingOperands => MismatchSiteView::OrderingOperands,
            MismatchSite::CallArgument { ritual, position } => (MismatchSiteView::CallArgument {
                ritual: ritual@,
                position: *position as int,
            }),
            MismatchSite::Initializer { variable } => (MismatchSiteView::Initializer {
                variable: variable@,
            }),
            MismatchSite::Assignment { variable } => (MismatchSiteView::Assignment {
                variable: variable@,
            }),
            MismatchSite::Condition => MismatchSiteView::Condition,
            MismatchSite::ReturnValue => MismatchSiteView::ReturnValue,
        }
    }
}

/// One semantic violation. Every validating operation returns either
/// success or exactly one of these; nothing is accumulated.
#[derive(Debug, Clone, PartialEq, Eq)]
pub enum SemanticError {
    /// A name already bound at the same level of the same container.
    DuplicateDefinition { kind: DefinitionKind, name: String, path: Vec<String> },
    /// A variable reference that no scope frame nor the current being's
    /// members resolve.
    UndefinedVariable { name: String },
    /// A call to a ritual the current being does not define.
    UndefinedRitual { name: String },
    /// A call whose argument count differs from the parameter count.
    ArityMismatch { ritual: String, expected: usize, found: usize },
    /// A type other than the one a site requires.
    TypeMismatch { expected: TypeExpectation, found: FoundTypes, site: MismatchSite },
    /// A ritual with a non-`Void` return type and no top-level `Return`.
    MissingReturn { ritual: String, return_type: Type },
}

/// Mathematical image of `SemanticError`.
pub enum ErrorView {
    DuplicateDefinition { kind: DefinitionKind, name: Seq<char>, path: Seq<Seq<char>> },
    UndefinedVariable { name: Seq<char> },
    UndefinedRitual { name: Seq<char> },
    ArityMismatch { ritual: Seq<char>, expected: int, found: int },
    TypeMismatch { expected: TypeExpectationView, found: FoundTypesView, site: MismatchSiteView },
    MissingReturn { ritual: Seq<char>, return_type: TypeView },
}

impl View for SemanticError {
    type V = ErrorView;

    open spec fn view(&self) -> ErrorView {
        match self {
            SemanticError::DuplicateDefinition { kind, name, path } => (
            ErrorView::DuplicateDefinition {
                kind: *kind,
                name: name@,
                path: path.deep_view(),
            }),
            SemanticError::UndefinedVariable { name } => (ErrorView::UndefinedVariable {
                name: name@,
            }),
            SemanticError::UndefinedRitual { name } => (ErrorView::UndefinedRitual { name: name@ }),
            SemanticError::ArityMismatch { ritual, expected, found } => (ErrorView::ArityMismatch {
                ritual: ritual@,
                expected: *expected as int,
                found: *found as int,
            }),
            SemanticError::TypeMismatch { expected, found, site } => (ErrorView::TypeMismatch {
                expected: expected@,
                found: found@,
                site: site@,
            }),
            SemanticError::MissingReturn { ritual, return_type } => (ErrorView::MissingReturn {
                ritual: ritual@,
                return_type: return_type@,
            }),
        }
    }
}

/// Checks one whole compilation unit: success, or the first violation
/// met in a single depth-first pass.
pub fn analyze(program: &Program) -> (r: Result<(), SemanticError>)
    ensures
        (match r {
            Ok(_) => model::spec_analyze_program(*program) is Ok,
            Err(e) => model::spec_analyze_program(*program) == Err::<(), ErrorView>(e@),
        }),
{
    analyzer::analyze_program(program)
}

} // verus!
