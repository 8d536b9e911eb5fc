//! The syntax tree handed to the semantic analyzer by the parsing
//! collaborator, together with the mathematical views the contracts
//! speak of: every `String` becomes a `Seq<char>`.

use vstd::prelude::*;

verus! {

/// The closed set of value types of the language. `Custom` is a nominal
/// type: two `Custom` types are the same exactly when their names are.
#[derive(Debug, Clone, PartialEq, Eq)]
pub enum Type {
    Integer,
    Float,
    String,
    Boolean,
    Void,
    Custom(String),
}

/// Mathematical image of `Type`: the name of a `Custom` type is a
/// sequence of characters.
pub enum TypeView {
    Integer,
    Float,
    String,
    Boolean,
    Void,
    Custom(Seq<char>),
}

impl View for Type {
    type V = TypeView;

    open spec fn view(&self) -> TypeView {
        match self {
            Type::Integer => TypeView::Integer,
            Type::Float => TypeView::Float,
            Type::String => TypeView::String,
            Type::Boolean => TypeView::Boolean,
            Type::Void => TypeView::Void,
            Type::Custom(name) => TypeView::Custom(name@),
        }
    }
}

impl DeepView for Type {
    type V = TypeView;

    open spec fn deep_view(&self) -> TypeView {
        self.view()
    }
}

/// A named, typed variable: a being member, a local, or a parameter.
#[derive(Debug, Clone, PartialEq, Eq)]
pub struct Variable {
    pub name: String,
    pub var_type: Type,
}

/// Mathematical image of `Variable`.
pub struct VariableView {
    pub name: Seq<char>,
    pub var_type: TypeView,
}

impl View for Variable {
    type V = VariableView;

    open spec fn view(&self) -> VariableView {
        VariableView { name: self.name@, var_type: self.var_type@ }
    }
}

impl DeepView for Variable {
    type V = VariableView;

    open spec fn deep_view(&self) -> VariableView {
        self.view()
    }
}

/// A literal. The analyzer reads only which kind of literal a node is;
/// the text of a numeric literal with a fractional part is carried
/// unread for later stages of the pipeline.
#[derive(Debug, Clone, PartialEq, Eq)]
pub enum Literal {
    Integer(i64),
    Float(String),
    String(String),
    Boolean(bool),
}

#[derive(Debug, Clone, Copy, PartialEq, Eq)]
pub enum BinaryOperator {
    Add,
    Subtract,
    Multiply,
    Divide,
    Equal,
    NotEqual,
    LessThan,
    GreaterThan,
}

#[derive(Debug)]
pub enum Expression {
    Literal(Literal),
    Variable(String),
    BinaryOperation { left: Box<Expression>, operator: BinaryOperator, right: Box<Expression> },
    FunctionCall { name: String, arguments: Vec<Expression> },
}

#[derive(Debug)]
pub enum Statement {
    VariableDeclaration { variable: Variable, initializer: Option<Expression> },
    Assignment { name: String, value: Expression },
    RitualCall { name: String, arguments: Vec<Expression> },
    Conditional {
        condition: Expression,
        true_branch: Vec<Statement>,
        false_branch: Option<Vec<Statement>>,
    },
    Cycle { condition: Option<Expression>, body: Vec<Statement> },
    Return(Option<Expression>),
}

/// A named procedure with ordered typed parameters, a declared return
/// type, and a body of statements.
#[derive(Debug)]
pub struct Ritual {
    pub name: String,
    pub parameters: Vec<Variable>,
    pub return_type: Type,
    pub body: Vec<Statement>,
}

/// A named container of member variables and rituals.
#[derive(Debug)]
pub struct Being {
    pub name: String,
    pub rituals: Vec<Ritual>,
    pub variables: Vec<Variable>,
}

/// A top-level namespace containing beings.
#[derive(Debug)]
pub struct Realm {
    pub name: String,
    pub beings: Vec<Being>,
}

/// One compilation unit: an ordered list of realms.
#[derive(Debug)]
pub struct Program {
    pub realms: Vec<Realm>,
}

} // verus!
