use nervs::ast::nodes::{
    BinaryOperator, Being, Expression, Literal, Program, Realm, Ritual, Statement, Type, Variable,
};
use nervs::semantic::analyzer::{analyze_program, SemanticContext};
use nervs::semantic::{
    analyze, DefinitionKind, FoundTypes, MismatchSite, SemanticError, TypeExpectation,
};

fn var(name: &str, t: Type) -> Variable {
    Variable { name: name.to_string(), var_type: t }
}

fn int_lit(n: i64) -> Expression {
    Expression::Literal(Literal::Integer(n))
}

fn float_lit(text: &str) -> Expression {
    Expression::Literal(Literal::Float(text.to_string()))
}

fn str_lit(text: &str) -> Expression {
    Expression::Literal(Literal::String(text.to_string()))
}

fn bool_lit(b: bool) -> Expression {
    Expression::Literal(Literal::Boolean(b))
}

fn bin(left: Expression, op: BinaryOperator, right: Expression) -> Expression {
    Expression::BinaryOperation { left: Box::new(left), operator: op, right: Box::new(right) }
}

fn var_expr(name: &str) -> Expression {
    Expression::Variable(name.to_string())
}

fn ritual(name: &str, parameters: Vec<Variable>, return_type: Type, body: Vec<Statement>) -> Ritual {
    Ritual { name: name.to_string(), parameters, return_type, body }
}

fn being(name: &str, variables: Vec<Variable>, rituals: Vec<Ritual>) -> Being {
    Being { name: name.to_string(), variables, rituals }
}

fn realm(name: &str, beings: Vec<Being>) -> Realm {
    Realm { name: name.to_string(), beings }
}

fn one_being_program(b: Being) -> Program {
    Program { realms: vec![realm("A", vec![b])] }
}

fn path(parts: &[&str]) -> Vec<String> {
    parts.iter().map(|p| p.to_string()).collect()
}

// duplicate names are rejected at every level, with the right kind and path

#[test]
fn duplicate_realms_rejected() {
    let program = Program { realms: vec![realm("A", vec![]), realm("A", vec![])] };
    assert_eq!(
        analyze_program(&program),
        Err(SemanticError::DuplicateDefinition {
            kind: DefinitionKind::Realm,
            name: "A".to_string(),
            path: vec![],
        })
    );
}

#[test]
fn duplicate_beings_rejected() {
    let program = Program {
        realms: vec![realm("A", vec![being("B", vec![], vec![]), being("B", vec![], vec![])])],
    };
    assert_eq!(
        analyze_program(&program),
        Err(SemanticError::DuplicateDefinition {
            kind: DefinitionKind::Being,
            name: "B".to_string(),
            path: path(&["A"]),
        })
    );
}

#[test]
fn duplicate_member_variables_rejected() {
    let program = one_being_program(being(
        "B",
        vec![var("x", Type::Integer), var("x", Type::Float)],
        vec![],
    ));
    assert_eq!(
        analyze_program(&program),
        Err(SemanticError::DuplicateDefinition {
            kind: DefinitionKind::Variable,
            name: "x".to_string(),
            path: path(&["A", "B"]),
        })
    );
}

#[test]
fn duplicate_rituals_rejected() {
    let program = one_being_program(being(
        "B",
        vec![],
        vec![
            ritual("f", vec![], Type::Void, vec![]),
            ritual("f", vec![], Type::Void, vec![]),
        ],
    ));
    assert_eq!(
        analyze_program(&program),
        Err(SemanticError::DuplicateDefinition {
            kind: DefinitionKind::Ritual,
            name: "f".to_string(),
            path: path(&["A", "B"]),
        })
    );
}

#[test]
fn duplicate_parameters_rejected() {
    let program = one_being_program(being(
        "B",
        vec![],
        vec![ritual(
            "f",
            vec![var("p", Type::Integer), var("p", Type::Float)],
            Type::Void,
            vec![],
        )],
    ));
    assert_eq!(
        analyze_program(&program),
        Err(SemanticError::DuplicateDefinition {
            kind: DefinitionKind::Parameter,
            name: "p".to_string(),
            path: path(&["A", "B", "f"]),
        })
    );
}

// shadowing is permitted, overwrite is not

#[test]
fn shadowing_in_nested_branch_succeeds() {
    let program = one_being_program(being(
        "B",
        vec![],
        vec![ritual(
            "f",
            vec![var("x", Type::Integer)],
            Type::Void,
            vec![Statement::Conditional {
                condition: bool_lit(true),
                true_branch: vec![Statement::VariableDeclaration {
                    variable: var("x", Type::String),
                    initializer: Some(str_lit("shadow")),
                }],
                false_branch: None,
            }],
        )],
    ));
    assert_eq!(analyze_program(&program), Ok(()));
}

#[test]
fn redeclaration_in_same_branch_fails() {
    let program = one_being_program(being(
        "B",
        vec![],
        vec![ritual(
            "f",
            vec![],
            Type::Void,
            vec![Statement::Conditional {
                condition: bool_lit(true),
                true_branch: vec![
                    Statement::VariableDeclaration {
                        variable: var("x", Type::Integer),
                        initializer: None,
                    },
                    Statement::VariableDeclaration {
                        variable: var("x", Type::String),
                        initializer: None,
                    },
                ],
                false_branch: None,
            }],
        )],
    ));
    assert_eq!(
        analyze_program(&program),
        Err(SemanticError::DuplicateDefinition {
            kind: DefinitionKind::Variable,
            name: "x".to_string(),
            path: path(&["A", "B", "f"]),
        })
    );
}

#[test]
fn inner_scope_shadows_and_outer_survives() {
    let mut ctx = SemanticContext::new();
    assert_eq!(ctx.add_variable("x", Type::Integer), Ok(()));
    ctx.enter_scope();
    assert_eq!(ctx.add_variable("x", Type::String), Ok(()));
    assert_eq!(ctx.lookup_variable("x"), Some(&Type::String));
    ctx.exit_scope();
    assert_eq!(ctx.lookup_variable("x"), Some(&Type::Integer));
}

// arithmetic promotion

#[test]
fn integer_plus_integer_is_integer() {
    let ctx = SemanticContext::new();
    let e = bin(int_lit(1), BinaryOperator::Add, int_lit(2));
    assert_eq!(ctx.infer_expression_type(&e), Ok(Type::Integer));
}

#[test]
fn integer_plus_float_is_float() {
    let ctx = SemanticContext::new();
    let e = bin(int_lit(1), BinaryOperator::Add, float_lit("2.0"));
    assert_eq!(ctx.infer_expression_type(&e), Ok(Type::Float));
}

#[test]
fn string_plus_integer_fails_numeric() {
    let ctx = SemanticContext::new();
    let e = bin(str_lit("a"), BinaryOperator::Add, int_lit(1));
    assert_eq!(
        ctx.infer_expression_type(&e),
        Err(SemanticError::TypeMismatch {
            expected: TypeExpectation::Numeric,
            found: FoundTypes::Pair(Type::String, Type::Integer),
            site: MismatchSite::ArithmeticOperands,
        })
    );
}

// ordering and equality rules

#[test]
fn integer_less_than_float_is_boolean() {
    let ctx = SemanticContext::new();
    let e = bin(int_lit(1), BinaryOperator::LessThan, float_lit("2.0"));
    assert_eq!(ctx.infer_expression_type(&e), Ok(Type::Boolean));
}

#[test]
fn string_ordering_fails() {
    let ctx = SemanticContext::new();
    let e = bin(str_lit("a"), BinaryOperator::LessThan, str_lit("b"));
    assert_eq!(
        ctx.infer_expression_type(&e),
        Err(SemanticError::TypeMismatch {
            expected: TypeExpectation::Numeric,
            found: FoundTypes::Pair(Type::String, Type::String),
            site: MismatchSite::OrderingOperands,
        })
    );
}

#[test]
fn boolean_equality_is_boolean() {
    let ctx = SemanticContext::new();
    let e = bin(bool_lit(true), BinaryOperator::Equal, bool_lit(false));
    assert_eq!(ctx.infer_expression_type(&e), Ok(Type::Boolean));
}

#[test]
fn integer_string_equality_fails() {
    let ctx = SemanticContext::new();
    let e = bin(int_lit(1), BinaryOperator::Equal, str_lit("1"));
    assert_eq!(
        ctx.infer_expression_type(&e),
        Err(SemanticError::TypeMismatch {
            expected: TypeExpectation::Exact(Type::Integer),
            found: FoundTypes::Single(Type::String),
            site: MismatchSite::EqualityOperands,
        })
    );
}

// call checking

fn context_with_add_ritual() -> SemanticContext {
    let mut ctx = SemanticContext::new();
    assert_eq!(ctx.add_realm("A"), Ok(()));
    assert_eq!(ctx.add_being("B"), Ok(()));
    let add = ritual(
        "add",
        vec![var("a", Type::Integer), var("b", Type::Integer)],
        Type::Integer,
        vec![],
    );
    assert_eq!(ctx.add_ritual(&add), Ok(()));
    ctx
}

#[test]
fn call_with_wrong_arity_fails() {
    let ctx = context_with_add_ritual();
    assert_eq!(
        ctx.check_ritual_call("add", &vec![int_lit(1)]),
        Err(SemanticError::ArityMismatch {
            ritual: "add".to_string(),
            expected: 2,
            found: 1,
        })
    );
}

#[test]
fn call_with_wrong_argument_type_fails_at_position_zero() {
    let ctx = context_with_add_ritual();
    assert_eq!(
        ctx.check_ritual_call("add", &vec![str_lit("x"), int_lit(2)]),
        Err(SemanticError::TypeMismatch {
            expected: TypeExpectation::Exact(Type::Integer),
            found: FoundTypes::Single(Type::String),
            site: MismatchSite::CallArgument { ritual: "add".to_string(), position: 0 },
        })
    );
}

#[test]
fn call_with_matching_arguments_has_return_type() {
    let ctx = context_with_add_ritual();
    assert_eq!(ctx.check_ritual_call("add", &vec![int_lit(1), int_lit(2)]), Ok(Type::Integer));
}

#[test]
fn call_of_unknown_ritual_fails() {
    let ctx = context_with_add_ritual();
    assert_eq!(
        ctx.check_ritual_call("missing", &vec![]),
        Err(SemanticError::UndefinedRitual { name: "missing".to_string() })
    );
}

// return discipline

#[test]
fn missing_return_fails() {
    let program = one_being_program(being(
        "B",
        vec![],
        vec![ritual("f", vec![], Type::Integer, vec![])],
    ));
    assert_eq!(
        analyze_program(&program),
        Err(SemanticError::MissingReturn {
            ritual: "f".to_string(),
            return_type: Type::Integer,
        })
    );
}

#[test]
fn valued_return_in_void_ritual_fails() {
    let program = one_being_program(being(
        "B",
        vec![],
        vec![ritual("f", vec![], Type::Void, vec![Statement::Return(Some(int_lit(5)))])],
    ));
    assert_eq!(
        analyze_program(&program),
        Err(SemanticError::TypeMismatch {
            expected: TypeExpectation::Exact(Type::Void),
            found: FoundTypes::Single(Type::Integer),
            site: MismatchSite::ReturnValue,
        })
    );
}

#[test]
fn bare_return_in_void_ritual_succeeds() {
    let program = one_being_program(being(
        "B",
        vec![],
        vec![ritual("f", vec![], Type::Void, vec![Statement::Return(None)])],
    ));
    assert_eq!(analyze_program(&program), Ok(()));
}

// fail-fast ordering

#[test]
fn first_violation_wins() {
    // a duplicate member variable comes before a ritual that reads an
    // undefined variable; only the duplicate is reported
    let program = one_being_program(being(
        "B",
        vec![var("x", Type::Integer), var("x", Type::Float)],
        vec![ritual(
            "f",
            vec![],
            Type::Void,
            vec![Statement::Assignment { name: "ghostly".to_string(), value: int_lit(1) }],
        )],
    ));
    assert_eq!(
        analyze_program(&program),
        Err(SemanticError::DuplicateDefinition {
            kind: DefinitionKind::Variable,
            name: "x".to_string(),
            path: path(&["A", "B"]),
        })
    );
}

// other statement rules

#[test]
fn assignment_to_undefined_variable_fails() {
    let program = one_being_program(being(
        "B",
        vec![],
        vec![ritual(
            "f",
            vec![],
            Type::Void,
            vec![Statement::Assignment { name: "y".to_string(), value: int_lit(1) }],
        )],
    ));
    assert_eq!(
        analyze_program(&program),
        Err(SemanticError::UndefinedVariable { name: "y".to_string() })
    );
}

#[test]
fn assignment_with_incompatible_type_fails() {
    let program = one_being_program(being(
        "B",
        vec![var("x", Type::Integer)],
        vec![ritual(
            "f",
            vec![],
            Type::Void,
            vec![Statement::Assignment { name: "x".to_string(), value: str_lit("no") }],
        )],
    ));
    assert_eq!(
        analyze_program(&program),
        Err(SemanticError::TypeMismatch {
            expected: TypeExpectation::Exact(Type::Integer),
            found: FoundTypes::Single(Type::String),
            site: MismatchSite::Assignment { variable: "x".to_string() },
        })
    );
}

#[test]
fn non_boolean_condition_fails() {
    let program = one_being_program(being(
        "B",
        vec![],
        vec![ritual(
            "f",
            vec![],
            Type::Void,
            vec![Statement::Conditional {
                condition: int_lit(1),
                true_branch: vec![],
                false_branch: None,
            }],
        )],
    ));
    assert_eq!(
        analyze_program(&program),
        Err(SemanticError::TypeMismatch {
            expected: TypeExpectation::Exact(Type::Boolean),
            found: FoundTypes::Single(Type::Integer),
            site: MismatchSite::Condition,
        })
    );
}

#[test]
fn initializer_type_must_match_declaration() {
    let program = one_being_program(being(
        "B",
        vec![],
        vec![ritual(
            "f",
            vec![],
            Type::Void,
            vec![Statement::VariableDeclaration {
                variable: var("x", Type::Integer),
                initializer: Some(str_lit("no")),
            }],
        )],
    ));
    assert_eq!(
        analyze_program(&program),
        Err(SemanticError::TypeMismatch {
            expected: TypeExpectation::Exact(Type::Integer),
            found: FoundTypes::Single(Type::String),
            site: MismatchSite::Initializer { variable: "x".to_string() },
        })
    );
}

#[test]
fn member_variables_resolve_in_ritual_bodies() {
    let program = one_being_program(being(
        "B",
        vec![var("pi_approx", Type::Integer)],
        vec![ritual(
            "f",
            vec![],
            Type::Integer,
            vec![Statement::Return(Some(var_expr("pi_approx")))],
        )],
    ));
    assert_eq!(analyze_program(&program), Ok(()));
}

#[test]
fn forward_reference_between_rituals_resolves() {
    // every signature of the being is registered before any body is
    // validated, so an earlier ritual may call a later one
    let program = one_being_program(being(
        "B",
        vec![],
        vec![
            ritual(
                "caller",
                vec![],
                Type::Integer,
                vec![Statement::Return(Some(Expression::FunctionCall {
                    name: "helper".to_string(),
                    arguments: vec![],
                }))],
            ),
            ritual(
                "helper",
                vec![],
                Type::Integer,
                vec![Statement::Return(Some(int_lit(1)))],
            ),
        ],
    ));
    assert_eq!(analyze_program(&program), Ok(()));
}

#[test]
fn backward_reference_between_rituals_resolves() {
    let program = one_being_program(being(
        "B",
        vec![],
        vec![
            ritual(
                "helper",
                vec![],
                Type::Integer,
                vec![Statement::Return(Some(int_lit(1)))],
            ),
            ritual(
                "caller",
                vec![],
                Type::Integer,
                vec![Statement::Return(Some(Expression::FunctionCall {
                    name: "helper".to_string(),
                    arguments: vec![],
                }))],
            ),
        ],
    ));
    assert_eq!(analyze_program(&program), Ok(()));
}

#[test]
fn whole_calculator_program_validates() {
    let add = ritual(
        "add",
        vec![var("a", Type::Integer), var("b", Type::Integer)],
        Type::Integer,
        vec![Statement::Return(Some(bin(var_expr("a"), BinaryOperator::Add, var_expr("b"))))],
    );
    let multiply = ritual(
        "multiply",
        vec![var("a", Type::Integer), var("b", Type::Integer)],
        Type::Integer,
        vec![
            Statement::VariableDeclaration {
                variable: var("result", Type::Integer),
                initializer: Some(bin(var_expr("a"), BinaryOperator::Multiply, var_expr("b"))),
            },
            Statement::Return(Some(var_expr("result"))),
        ],
    );
    let greet = ritual(
        "greet",
        vec![],
        Type::String,
        vec![Statement::Return(Some(str_lit("Hello, Nervs!")))],
    );
    let factorial = ritual(
        "factorial",
        vec![var("n", Type::Integer)],
        Type::Integer,
        vec![
            Statement::VariableDeclaration {
                variable: var("result", Type::Integer),
                initializer: Some(int_lit(1)),
            },
            Statement::VariableDeclaration {
                variable: var("i", Type::Integer),
                initializer: Some(int_lit(1)),
            },
            Statement::Cycle {
                condition: Some(bin(var_expr("i"), BinaryOperator::LessThan, var_expr("n"))),
                body: vec![
                    Statement::Assignment {
                        name: "result".to_string(),
                        value: bin(var_expr("result"), BinaryOperator::Multiply, var_expr("i")),
                    },
                    Statement::Assignment {
                        name: "i".to_string(),
                        value: bin(var_expr("i"), BinaryOperator::Add, int_lit(1)),
                    },
                ],
            },
            Statement::Return(Some(var_expr("result"))),
        ],
    );
    let program = Program {
        realms: vec![realm(
            "MathRealm",
            vec![being(
                "Calculator",
                vec![var("pi_approx", Type::Integer)],
                vec![add, multiply, greet, factorial],
            )],
        )],
    };
    assert_eq!(analyze_program(&program), Ok(()));
    assert_eq!(analyze(&program), Ok(()));
}

#[test]
fn custom_types_compare_by_name() {
    let ctx = SemanticContext::new();
    let hive1 = Type::Custom("HiveMind".to_string());
    let hive2 = Type::Custom("HiveMind".to_string());
    let other = Type::Custom("Other".to_string());
    assert!(ctx.types_compatible(&hive1, &hive2));
    assert!(!ctx.types_compatible(&hive1, &other));
    assert!(!ctx.types_compatible(&hive1, &Type::Integer));
}

#[test]
fn integer_and_float_are_not_compatible() {
    // promotion applies to arithmetic results only, never to general
    // compatibility
    let ctx = SemanticContext::new();
    assert!(!ctx.types_compatible(&Type::Integer, &Type::Float));
    let e = bin(int_lit(1), BinaryOperator::Equal, float_lit("1.0"));
    assert_eq!(
        ctx.infer_expression_type(&e),
        Err(SemanticError::TypeMismatch {
            expected: TypeExpectation::Exact(Type::Integer),
            found: FoundTypes::Single(Type::Float),
            site: MismatchSite::EqualityOperands,
        })
    );
}

#[test]
fn sibling_branches_do_not_see_each_others_locals() {
    // both arms may declare the same name; neither sees the other's
    let program = one_being_program(being(
        "B",
        vec![],
        vec![ritual(
            "f",
            vec![],
            Type::Void,
            vec![Statement::Conditional {
                condition: bool_lit(true),
                true_branch: vec![Statement::VariableDeclaration {
                    variable: var("t", Type::Integer),
                    initializer: None,
                }],
                false_branch: Some(vec![Statement::VariableDeclaration {
                    variable: var("t", Type::String),
                    initializer: None,
                }]),
            }],
        )],
    ));
    assert_eq!(analyze_program(&program), Ok(()));
}

#[test]
fn branch_locals_do_not_outlive_their_branch() {
    let program = one_being_program(being(
        "B",
        vec![],
        vec![ritual(
            "f",
            vec![],
            Type::Void,
            vec![
                Statement::Conditional {
                    condition: bool_lit(true),
                    true_branch: vec![Statement::VariableDeclaration {
                        variable: var("t", Type::Integer),
                        initializer: None,
                    }],
                    false_branch: None,
                },
                Statement::Assignment { name: "t".to_string(), value: int_lit(1) },
            ],
        )],
    ));
    assert_eq!(
        analyze_program(&program),
        Err(SemanticError::UndefinedVariable { name: "t".to_string() })
    );
}

#[test]
fn calls_are_intra_being_only() {
    // a ritual of an earlier being is not visible from a later one
    let program = Program {
        realms: vec![realm(
            "A",
            vec![
                being(
                    "First",
                    vec![],
                    vec![ritual("helper", vec![], Type::Void, vec![])],
                ),
                being(
                    "Second",
                    vec![],
                    vec![ritual(
                        "caller",
                        vec![],
                        Type::Void,
                        vec![Statement::RitualCall { name: "helper".to_string(), arguments: vec![] }],
                    )],
                ),
            ],
        )],
    };
    assert_eq!(
        analyze_program(&program),
        Err(SemanticError::UndefinedRitual { name: "helper".to_string() })
    );
}

#[test]
fn error_inside_cycle_body_is_reported() {
    let program = one_being_program(being(
        "B",
        vec![],
        vec![ritual(
            "f",
            vec![],
            Type::Void,
            vec![Statement::Cycle {
                condition: None,
                body: vec![Statement::Assignment {
                    name: "missing".to_string(),
                    value: int_lit(1),
                }],
            }],
        )],
    ));
    assert_eq!(
        analyze_program(&program),
        Err(SemanticError::UndefinedVariable { name: "missing".to_string() })
    );
}

#[test]
fn cycle_condition_must_be_boolean() {
    let program = one_being_program(being(
        "B",
        vec![],
        vec![ritual(
            "f",
            vec![],
            Type::Void,
            vec![Statement::Cycle { condition: Some(str_lit("loop")), body: vec![] }],
        )],
    ));
    assert_eq!(
        analyze_program(&program),
        Err(SemanticError::TypeMismatch {
            expected: TypeExpectation::Exact(Type::Boolean),
            found: FoundTypes::Single(Type::String),
            site: MismatchSite::Condition,
        })
    );
}

#[test]
fn ritual_call_statement_discards_return_type() {
    let program = one_being_program(being(
        "B",
        vec![],
        vec![
            ritual(
                "helper",
                vec![var("a", Type::Integer)],
                Type::Integer,
                vec![Statement::Return(Some(var_expr("a")))],
            ),
            ritual(
                "caller",
                vec![],
                Type::Void,
                vec![Statement::RitualCall {
                    name: "helper".to_string(),
                    arguments: vec![int_lit(3)],
                }],
            ),
        ],
    ));
    assert_eq!(analyze_program(&program), Ok(()));
}

#[test]
fn void_valued_return_in_void_ritual_fails_even_for_void_value() {
    // a valued return against a Void return type is a mismatch
    // whichever type the value has, a Void-returning call included
    let program = one_being_program(being(
        "B",
        vec![],
        vec![
            ritual("g", vec![], Type::Void, vec![Statement::Return(None)]),
            ritual(
                "f",
                vec![],
                Type::Void,
                vec![Statement::Return(Some(Expression::FunctionCall {
                    name: "g".to_string(),
                    arguments: vec![],
                }))],
            ),
        ],
    ));
    assert_eq!(
        analyze_program(&program),
        Err(SemanticError::TypeMismatch {
            expected: TypeExpectation::Exact(Type::Void),
            found: FoundTypes::Single(Type::Void),
            site: MismatchSite::ReturnValue,
        })
    );
}

#[test]
fn duplicate_local_error_names_its_own_ritual() {
    // the path of a duplicate local names the ritual whose body holds
    // it, not the last ritual registered
    let program = one_being_program(being(
        "B",
        vec![],
        vec![
            ritual(
                "first",
                vec![var("x", Type::Integer)],
                Type::Void,
                vec![Statement::VariableDeclaration {
                    variable: var("x", Type::String),
                    initializer: None,
                }],
            ),
            ritual("second", vec![], Type::Void, vec![]),
        ],
    ));
    assert_eq!(
        analyze_program(&program),
        Err(SemanticError::DuplicateDefinition {
            kind: DefinitionKind::Variable,
            name: "x".to_string(),
            path: path(&["A", "B", "first"]),
        })
    );
}
