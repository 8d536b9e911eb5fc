//! The mathematical model of semantic analysis. Every contract of the
//! analyzer speaks in terms of these specification functions: a context
//! is a finite map of realms, each a map of beings, each two maps of
//! member variables and ritual signatures, together with the current
//! container names and the stack of lexical scope frames.
//!
//! The model is fail-fast: each function returns either the next
//! context (or an inferred type) or exactly the first violation met in
//! traversal order.

use vstd::prelude::*;

use crate::ast::nodes::{
    BinaryOperator, Expression, Literal, Program, Realm, Being, Ritual, Statement, TypeView,
    Variable, VariableView,
};
use crate::semantic::{
    DefinitionKind, ErrorView, FoundTypesView, MismatchSiteView, TypeExpectationView,
};

verus! {

/// A registered ritual: its parameters in order and its return type.
#[verifier::ext_equal]
pub struct SignatureView {
    pub parameters: Seq<VariableView>,
    pub return_type: TypeView,
}

/// A registered being: its member variables and its rituals.
#[verifier::ext_equal]
pub struct BeingView {
    pub variables: Map<Seq<char>, TypeView>,
    pub rituals: Map<Seq<char>, SignatureView>,
}

/// A registered realm: its beings.
#[verifier::ext_equal]
pub struct RealmView {
    pub beings: Map<Seq<char>, BeingView>,
}

/// The whole analysis state: the namespace registry, the names of the
/// containers currently being analyzed, and the scope stack.
#[verifier::ext_equal]
pub struct ContextView {
    pub realms: Map<Seq<char>, RealmView>,
    pub current_realm: Option<Seq<char>>,
    pub current_being: Option<Seq<char>>,
    pub current_ritual: Option<Seq<char>>,
    pub scopes: Seq<Map<Seq<char>, TypeView>>,
}

/// The state a fresh analyzer starts from: an empty registry, no
/// current containers, and one empty scope frame.
pub open spec fn initial_context() -> ContextView {
    ContextView {
        realms: Map::empty(),
        current_realm: None,
        current_being: None,
        current_ritual: None,
        scopes: seq![Map::empty()],
    }
}

/// Two types may be used for one another exactly when they are
/// structurally equal; a `Custom` type compares by its name alone.
/// There is no implicit widening here: the Integer-to-Float promotion
/// applies only to the result of an arithmetic operator.
pub open spec fn type_compatible(a: TypeView, b: TypeView) -> bool {
    a == b
}

/// The types the arithmetic and ordering operators accept.
pub open spec fn is_numeric(t: TypeView) -> bool {
    t == TypeView::Integer || t == TypeView::Float
}

/// The result type of an arithmetic operator: Float as soon as either
/// operand is Float, Integer otherwise.
pub open spec fn promoted(a: TypeView, b: TypeView) -> TypeView {
    if a == TypeView::Float || b == TypeView::Float {
        TypeView::Float
    } else {
        TypeView::Integer
    }
}

/// The name of the current realm (meaningful only when one is set).
pub open spec fn cur_realm(c: ContextView) -> Seq<char> {
    match c.current_realm {
        Some(r) => r,
        None => Seq::empty(),
    }
}

/// The name of the current being (meaningful only when one is set).
pub open spec fn cur_being(c: ContextView) -> Seq<char> {
    match c.current_being {
        Some(b) => b,
        None => Seq::empty(),
    }
}

/// A current realm is set and registered.
pub open spec fn has_current_realm(c: ContextView) -> bool {
    c.current_realm is Some && c.realms.contains_key(cur_realm(c))
}

/// A current being is set and registered inside the current realm.
pub open spec fn has_current_being(c: ContextView) -> bool {
    has_current_realm(c) && c.current_being is Some && c.realms[cur_realm(c)].beings.contains_key(
        cur_being(c),
    )
}

/// The qualified path of the position the analyzer stands at: the
/// current realm, being and ritual names, those that are set.
pub open spec fn current_path(c: ContextView) -> Seq<Seq<char>> {
    (match c.current_realm {
        Some(r) => seq![r],
        None => Seq::empty(),
    }) + (match c.current_being {
        Some(b) => seq![b],
        None => Seq::empty(),
    }) + (match c.current_ritual {
        Some(t) => seq![t],
        None => Seq::empty(),
    })
}

/// Two contexts that agree on everything but the scope stack: statement
/// validation never touches the registry or the current containers.
pub open spec fn same_but_scopes(a: ContextView, b: ContextView) -> bool {
    &&& a.realms == b.realms
    &&& a.current_realm == b.current_realm
    &&& a.current_being == b.current_being
    &&& a.current_ritual == b.current_ritual
}

/// Registers a new realm and makes it current; rejected if the name is
/// already a realm.
pub open spec fn spec_add_realm(c: ContextView, name: Seq<char>) -> Result<ContextView, ErrorView> {
    if c.realms.contains_key(name) {
        Err(ErrorView::DuplicateDefinition {
            kind: DefinitionKind::Realm,
            name,
            path: Seq::empty(),
        })
    } else {
        Ok(ContextView {
            realms: c.realms.insert(name, RealmView { beings: Map::empty() }),
            current_realm: Some(name),
            ..c
        })
    }
}

/// Registers a new being in the current realm and makes it current;
/// rejected if the name is already a being of that realm.
pub open spec fn spec_add_being(c: ContextView, name: Seq<char>) -> Result<ContextView, ErrorView>
    recommends
        has_current_realm(c),
{
    let r = cur_realm(c);
    let beings = c.realms[r].beings;
    if beings.contains_key(name) {
        Err(ErrorView::DuplicateDefinition {
            kind: DefinitionKind::Being,
            name,
            path: seq![r],
        })
    } else {
        Ok(ContextView {
            realms: c.realms.insert(
                r,
                RealmView {
                    beings: beings.insert(
                        name,
                        BeingView { variables: Map::empty(), rituals: Map::empty() },
                    ),
                },
            ),
            current_being: Some(name),
            ..c
        })
    }
}

/// Registers a member variable of the current being; rejected if the
/// name is already a member variable of that being.
pub open spec fn spec_add_being_variable(c: ContextView, v: Variable) -> Result<
    ContextView,
    ErrorView,
>
    recommends
        has_current_being(c),
{
    let r = cur_realm(c);
    let b = cur_being(c);
    let being = c.realms[r].beings[b];
    if being.variables.contains_key(v.name@) {
        Err(ErrorView::DuplicateDefinition {
            kind: DefinitionKind::Variable,
            name: v.name@,
            path: seq![r, b],
        })
    } else {
        Ok(ContextView {
            realms: c.realms.insert(
                r,
                RealmView {
                    beings: c.realms[r].beings.insert(
                        b,
                        BeingView {
                            variables: being.variables.insert(v.name@, v.var_type@),
                            ..being
                        },
                    ),
                },
            ),
            ..c
        })
    }
}

/// The first parameter whose name repeats an earlier parameter's name,
/// scanning left to right from position `j`.
pub open spec fn first_duplicate_parameter(ps: Seq<Variable>, j: int) -> Option<Seq<char>>
    decreases ps.len() - j,
{
    if j < 0 || j >= ps.len() {
        None
    } else if exists|i: int| 0 <= i < j && ps[i].name@ == ps[j].name@ {
        Some(ps[j].name@)
    } else {
        first_duplicate_parameter(ps, j + 1)
    }
}

/// Registers a ritual's signature in the current being and makes the
/// ritual current; rejected if the name is already a ritual of that
/// being, or, after that, if two parameters share a name. Nothing is
/// registered on rejection.
pub open spec fn spec_add_ritual(c: ContextView, rit: Ritual) -> Result<ContextView, ErrorView>
    recommends
        has_current_being(c),
{
    let r = cur_realm(c);
    let b = cur_being(c);
    let being = c.realms[r].beings[b];
    if being.rituals.contains_key(rit.name@) {
        Err(ErrorView::DuplicateDefinition {
            kind: DefinitionKind::Ritual,
            name: rit.name@,
            path: seq![r, b],
        })
    } else {
        match first_duplicate_parameter(rit.parameters@, 0) {
            Some(pname) => Err(ErrorView::DuplicateDefinition {
                kind: DefinitionKind::Parameter,
                name: pname,
                path: seq![r, b, rit.name@],
            }),
            None => Ok(ContextView {
                realms: c.realms.insert(
                    r,
                    RealmView {
                        beings: c.realms[r].beings.insert(
                            b,
                            BeingView {
                                rituals: being.rituals.insert(
                                    rit.name@,
                                    SignatureView {
                                        parameters: rit.parameters.deep_view(),
                                        return_type: rit.return_type@,
                                    },
                                ),
                                ..being
                            },
                        ),
                    },
                ),
                current_ritual: Some(rit.name@),
                ..c
            }),
        }
    }
}

/// Declares a local in the innermost scope frame; rejected if the name
/// is already bound in that same frame. A binding in an outer frame or
/// among the being's members is shadowed, never overwritten.
pub open spec fn spec_declare(c: ContextView, name: Seq<char>, t: TypeView) -> Result<
    ContextView,
    ErrorView,
>
    recommends
        c.scopes.len() > 0,
{
    let top = c.scopes.last();
    if top.contains_key(name) {
        Err(ErrorView::DuplicateDefinition {
            kind: DefinitionKind::Variable,
            name,
            path: current_path(c),
        })
    } else {
        Ok(ContextView { scopes: c.scopes.update(c.scopes.len() - 1, top.insert(name, t)), ..c })
    }
}

/// Pushes an empty scope frame.
pub open spec fn spec_enter(c: ContextView) -> ContextView {
    ContextView { scopes: c.scopes.push(Map::empty()), ..c }
}

/// Pops the innermost scope frame, if any.
pub open spec fn spec_exit(c: ContextView) -> ContextView {
    if c.scopes.len() > 0 {
        ContextView { scopes: c.scopes.drop_last(), ..c }
    } else {
        c
    }
}

/// Innermost-first resolution through the scope frames alone.
pub open spec fn scope_lookup(scopes: Seq<Map<Seq<char>, TypeView>>, name: Seq<char>) -> Option<
    TypeView,
>
    decreases scopes.len(),
{
    if scopes.len() == 0 {
        None
    } else if scopes.last().contains_key(name) {
        Some(scopes.last()[name])
    } else {
        scope_lookup(scopes.drop_last(), name)
    }
}

/// The current being's member variable of that name, if any.
pub open spec fn member_lookup(c: ContextView, name: Seq<char>) -> Option<TypeView> {
    if has_current_being(c) && c.realms[cur_realm(c)].beings[cur_being(c)].variables.contains_key(
        name,
    ) {
        Some(c.realms[cur_realm(c)].beings[cur_being(c)].variables[name])
    } else {
        None
    }
}

/// Name resolution: the scope frames innermost to outermost, then the
/// current being's member variables.
pub open spec fn lookup_name(c: ContextView, name: Seq<char>) -> Option<TypeView> {
    match scope_lookup(c.scopes, name) {
        Some(t) => Some(t),
        None => member_lookup(c, name),
    }
}

/// The current being's ritual of that name, if any.
pub open spec fn current_signature(c: ContextView, name: Seq<char>) -> Option<SignatureView> {
    if has_current_being(c) && c.realms[cur_realm(c)].beings[cur_being(c)].rituals.contains_key(
        name,
    ) {
        Some(c.realms[cur_realm(c)].beings[cur_being(c)].rituals[name])
    } else {
        None
    }
}

/// The type of a binary operation over already-inferred operand types.
pub open spec fn spec_binary_result(lt: TypeView, op: BinaryOperator, rt: TypeView) -> Result<
    TypeView,
    ErrorView,
> {
    match op {
        BinaryOperator::Add
        | BinaryOperator::Subtract
        | BinaryOperator::Multiply
        | BinaryOperator::Divide => if is_numeric(lt) && is_numeric(rt) {
            Ok(promoted(lt, rt))
        } else {
            Err(ErrorView::TypeMismatch {
                expected: TypeExpectationView::Numeric,
                found: FoundTypesView::Pair(lt, rt),
                site: MismatchSiteView::ArithmeticOperands,
            })
        },
        BinaryOperator::Equal | BinaryOperator::NotEqual => if type_compatible(lt, rt) {
            Ok(TypeView::Boolean)
        } else {
            Err(ErrorView::TypeMismatch {
                expected: TypeExpectationView::Exact(lt),
                found: FoundTypesView::Single(rt),
                site: MismatchSiteView::EqualityOperands,
            })
        },
        BinaryOperator::LessThan | BinaryOperator::GreaterThan => if is_numeric(lt) && is_numeric(
            rt,
        ) {
            Ok(TypeView::Boolean)
        } else {
            Err(ErrorView::TypeMismatch {
                expected: TypeExpectationView::Numeric,
                found: FoundTypesView::Pair(lt, rt),
                site: MismatchSiteView::OrderingOperands,
            })
        },
    }
}

/// The type of an expression: literals by their kind, variables by
/// name resolution, binary operations by the operator rules (left
/// operand inferred first), calls by the call rule.
pub open spec fn spec_infer(c: ContextView, e: Expression) -> Result<TypeView, ErrorView>
    decreases e, 0int,
{
    match e {
        Expression::Literal(lit) => Ok(
            match lit {
                Literal::Integer(_) => TypeView::Integer,
                Literal::Float(_) => TypeView::Float,
                Literal::String(_) => TypeView::String,
                Literal::Boolean(_) => TypeView::Boolean,
            },
        ),
        Expression::Variable(name) => match lookup_name(c, name@) {
            Some(t) => Ok(t),
            None => Err(ErrorView::UndefinedVariable { name: name@ }),
        },
        Expression::BinaryOperation { left, operator, right } => match spec_infer(c, *left) {
            Err(e1) => Err(e1),
            Ok(lt) => match spec_infer(c, *right) {
                Err(e2) => Err(e2),
                Ok(rt) => spec_binary_result(lt, operator, rt),
            },
        },
        Expression::FunctionCall { name, arguments } => spec_check_call(c, name@, arguments@),
    }
}

/// The call rule: the ritual must exist in the current being, the
/// argument count must equal the parameter count, and each argument in
/// order must infer to a type compatible with its parameter; the call's
/// type is the declared return type.
pub open spec fn spec_check_call(c: ContextView, name: Seq<char>, args: Seq<Expression>) -> Result<
    TypeView,
    ErrorView,
>
    decreases args, args.len() + 1,
{
    match current_signature(c, name) {
        None => Err(ErrorView::UndefinedRitual { name }),
        Some(sig) => if args.len() != sig.parameters.len() {
            Err(ErrorView::ArityMismatch {
                ritual: name,
                expected: sig.parameters.len() as int,
                found: args.len() as int,
            })
        } else {
            spec_check_arguments(c, name, sig, args, 0)
        },
    }
}

/// Checks arguments from position `i` on; done, the call has the
/// signature's return type.
pub open spec fn spec_check_arguments(
    c: ContextView,
    name: Seq<char>,
    sig: SignatureView,
    args: Seq<Expression>,
    i: int,
) -> Result<TypeView, ErrorView>
    recommends
        args.len() == sig.parameters.len(),
    decreases args, args.len() - i,
{
    if i < 0 || i >= args.len() {
        Ok(sig.return_type)
    } else {
        match spec_infer(c, args[i]) {
            Err(e) => Err(e),
            Ok(at) => if i < sig.parameters.len() && !type_compatible(at, sig.parameters[i].var_type) {
                Err(ErrorView::TypeMismatch {
                    expected: TypeExpectationView::Exact(sig.parameters[i].var_type),
                    found: FoundTypesView::Single(at),
                    site: MismatchSiteView::CallArgument { ritual: name, position: i },
                })
            } else {
                spec_check_arguments(c, name, sig, args, i + 1)
            },
        }
    }
}

/// Validates one statement under the enclosing ritual's declared
/// return type, yielding the context it leaves behind.
pub open spec fn spec_validate_statement(c: ContextView, s: Statement, ret: TypeView) -> Result<
    ContextView,
    ErrorView,
>
    recommends
        c.scopes.len() > 0,
    decreases s, 0int,
{
    match s {
        Statement::VariableDeclaration { variable, initializer } => match initializer {
            Some(init) => match spec_infer(c, init) {
                Err(e) => Err(e),
                Ok(t) => if !type_compatible(t, variable.var_type@) {
                    Err(ErrorView::TypeMismatch {
                        expected: TypeExpectationView::Exact(variable.var_type@),
                        found: FoundTypesView::Single(t),
                        site: MismatchSiteView::Initializer { variable: variable.name@ },
                    })
                } else {
                    spec_declare(c, variable.name@, variable.var_type@)
                },
            },
            None => spec_declare(c, variable.name@, variable.var_type@),
        },
        Statement::Assignment { name, value } => match lookup_name(c, name@) {
            None => Err(ErrorView::UndefinedVariable { name: name@ }),
            Some(vt) => match spec_infer(c, value) {
                Err(e) => Err(e),
                Ok(et) => if !type_compatible(et, vt) {
                    Err(ErrorView::TypeMismatch {
                        expected: TypeExpectationView::Exact(vt),
                        found: FoundTypesView::Single(et),
                        site: MismatchSiteView::Assignment { variable: name@ },
                    })
                } else {
                    Ok(c)
                },
            },
        },
        Statement::RitualCall { name, arguments } => match spec_check_call(c, name@, arguments@) {
            Err(e) => Err(e),
            Ok(_) => Ok(c),
        },
        Statement::Conditional { condition, true_branch, false_branch } => match spec_infer(
            c,
            condition,
        ) {
            Err(e) => Err(e),
            Ok(ct) => if ct != TypeView::Boolean {
                Err(ErrorView::TypeMismatch {
                    expected: TypeExpectationView::Exact(TypeView::Boolean),
                    found: FoundTypesView::Single(ct),
                    site: MismatchSiteView::Condition,
                })
            } else {
                match spec_validate_statements(spec_enter(c), true_branch@, ret, 0) {
                    Err(e) => Err(e),
                    Ok(c2) => {
                        let c3 = spec_exit(c2);
                        match false_branch {
                            None => Ok(c3),
                            Some(fb) => match spec_validate_statements(
                                spec_enter(c3),
                                fb@,
                                ret,
                                0,
                            ) {
                                Err(e) => Err(e),
                                Ok(c4) => Ok(spec_exit(c4)),
                            },
                        }
                    },
                }
            },
        },
        Statement::Cycle { condition, body } => {
            let checked: Result<ContextView, ErrorView> = match condition {
                Some(cond) => match spec_infer(c, cond) {
                    Err(e) => Err(e),
                    Ok(ct) => if ct != TypeView::Boolean {
                        Err(ErrorView::TypeMismatch {
                            expected: TypeExpectationView::Exact(TypeView::Boolean),
                            found: FoundTypesView::Single(ct),
                            site: MismatchSiteView::Condition,
                        })
                    } else {
                        Ok(c)
                    },
                },
                None => Ok(c),
            };
            match checked {
                Err(e) => Err(e),
                Ok(_) => match spec_validate_statements(spec_enter(c), body@, ret, 0) {
                    Err(e) => Err(e),
                    Ok(c2) => Ok(spec_exit(c2)),
                },
            }
        },
        Statement::Return(opt) => match opt {
            None => if ret == TypeView::Void {
                Ok(c)
            } else {
                Err(ErrorView::TypeMismatch {
                    expected: TypeExpectationView::Exact(ret),
                    found: FoundTypesView::Single(TypeView::Void),
                    site: MismatchSiteView::ReturnValue,
                })
            },
            Some(e0) => match spec_infer(c, e0) {
                Err(e) => Err(e),
                // a valued return against a Void return type is a
                // mismatch whichever type the value has
                Ok(et) => if ret == TypeView::Void || !type_compatible(et, ret) {
                    Err(ErrorView::TypeMismatch {
                        expected: TypeExpectationView::Exact(ret),
                        found: FoundTypesView::Single(et),
                        site: MismatchSiteView::ReturnValue,
                    })
                } else {
                    Ok(c)
                },
            },
        },
    }
}

/// Validates statements from position `i` on, threading the context.
pub open spec fn spec_validate_statements(
    c: ContextView,
    ss: Seq<Statement>,
    ret: TypeView,
    i: int,
) -> Result<ContextView, ErrorView>
    decreases ss, ss.len() - i + 1,
{
    if i < 0 || i >= ss.len() {
        Ok(c)
    } else {
        match spec_validate_statement(c, ss[i], ret) {
            Err(e) => Err(e),
            Ok(c1) => spec_validate_statements(c1, ss, ret, i + 1),
        }
    }
}

/// Binds parameters as locals of the freshly opened ritual scope, in
/// order.
pub open spec fn spec_bind_parameters(c: ContextView, ps: Seq<Variable>, i: int) -> Result<
    ContextView,
    ErrorView,
>
    decreases ps.len() - i,
{
    if i < 0 || i >= ps.len() {
        Ok(c)
    } else {
        match spec_declare(c, ps[i].name@, ps[i].var_type@) {
            Err(e) => Err(e),
            Ok(c1) => spec_bind_parameters(c1, ps, i + 1),
        }
    }
}

/// A `Return` statement stands somewhere in the ritual's own statement
/// list. This is a syntactic presence check over the top-level list
/// only; it does not look inside conditional or cycle bodies.
pub open spec fn has_top_level_return(ss: Seq<Statement>) -> bool {
    exists|i: int| 0 <= i < ss.len() && (ss[i] is Return)
}

/// Validates one ritual's body against its already-registered
/// signature: makes the ritual current, opens a scope, binds the
/// parameters, validates the statements, requires a top-level `Return`
/// when the return type is not `Void`, and closes the scope.
pub open spec fn spec_validate_ritual_body(c: ContextView, rit: Ritual) -> Result<
    ContextView,
    ErrorView,
> {
    let c1 = spec_enter(ContextView { current_ritual: Some(rit.name@), ..c });
    match spec_bind_parameters(c1, rit.parameters@, 0) {
        Err(e) => Err(e),
        Ok(c2) => match spec_validate_statements(c2, rit.body@, rit.return_type@, 0) {
            Err(e) => Err(e),
            Ok(c3) => if rit.return_type@ != TypeView::Void && !has_top_level_return(rit.body@) {
                Err(ErrorView::MissingReturn {
                    ritual: rit.name@,
                    return_type: rit.return_type@,
                })
            } else {
                Ok(spec_exit(c3))
            },
        },
    }
}

/// Registers member variables from position `i` on.
pub open spec fn spec_add_being_variables(c: ContextView, vs: Seq<Variable>, i: int) -> Result<
    ContextView,
    ErrorView,
>
    decreases vs.len() - i,
{
    if i < 0 || i >= vs.len() {
        Ok(c)
    } else {
        match spec_add_being_variable(c, vs[i]) {
            Err(e) => Err(e),
            Ok(c1) => spec_add_being_variables(c1, vs, i + 1),
        }
    }
}

/// Registers ritual signatures from position `i` on, without touching
/// any body.
pub open spec fn spec_register_rituals(c: ContextView, rs: Seq<Ritual>, i: int) -> Result<
    ContextView,
    ErrorView,
>
    decreases rs.len() - i,
{
    if i < 0 || i >= rs.len() {
        Ok(c)
    } else {
        match spec_add_ritual(c, rs[i]) {
            Err(e) => Err(e),
            Ok(c1) => spec_register_rituals(c1, rs, i + 1),
        }
    }
}

/// Validates ritual bodies from position `i` on.
pub open spec fn spec_validate_ritual_bodies(c: ContextView, rs: Seq<Ritual>, i: int) -> Result<
    ContextView,
    ErrorView,
>
    decreases rs.len() - i,
{
    if i < 0 || i >= rs.len() {
        Ok(c)
    } else {
        match spec_validate_ritual_body(c, rs[i]) {
            Err(e) => Err(e),
            Ok(c1) => spec_validate_ritual_bodies(c1, rs, i + 1),
        }
    }
}

/// Analyzes one being: registers it, then its member variables in
/// order, then every ritual's signature in order, and only then
/// validates the ritual bodies in order — so a body may call any
/// ritual of its being, those declared after it included.
pub open spec fn spec_analyze_being(c: ContextView, b: Being) -> Result<ContextView, ErrorView>
    recommends
        has_current_realm(c),
{
    match spec_add_being(c, b.name@) {
        Err(e) => Err(e),
        Ok(c1) => match spec_add_being_variables(c1, b.variables@, 0) {
            Err(e) => Err(e),
            Ok(c2) => match spec_register_rituals(c2, b.rituals@, 0) {
                Err(e) => Err(e),
                Ok(c3) => spec_validate_ritual_bodies(c3, b.rituals@, 0),
            },
        },
    }
}

/// Analyzes beings from position `i` on.
pub open spec fn spec_analyze_beings(c: ContextView, bs: Seq<Being>, i: int) -> Result<
    ContextView,
    ErrorView,
>
    decreases bs.len() - i,
{
    if i < 0 || i >= bs.len() {
        Ok(c)
    } else {
        match spec_analyze_being(c, bs[i]) {
            Err(e) => Err(e),
            Ok(c1) => spec_analyze_beings(c1, bs, i + 1),
        }
    }
}

/// Analyzes one realm: registers it, then its beings in order.
pub open spec fn spec_analyze_realm(c: ContextView, r: Realm) -> Result<ContextView, ErrorView> {
    match spec_add_realm(c, r.name@) {
        Err(e) => Err(e),
        Ok(c1) => spec_analyze_beings(c1, r.beings@, 0),
    }
}

/// Analyzes realms from position `i` on.
pub open spec fn spec_analyze_realms(c: ContextView, rs: Seq<Realm>, i: int) -> Result<
    ContextView,
    ErrorView,
>
    decreases rs.len() - i,
{
    if i < 0 || i >= rs.len() {
        Ok(c)
    } else {
        match spec_analyze_realm(c, rs[i]) {
            Err(e) => Err(e),
            Ok(c1) => spec_analyze_realms(c1, rs, i + 1),
        }
    }
}

/// Analyzes a whole compilation unit from the initial context: either
/// every realm, being and ritual obeys the rules, or exactly the first
/// violation in traversal order is reported.
pub open spec fn spec_analyze_program(p: Program) -> Result<(), ErrorView> {
    match spec_analyze_realms(initial_context(), p.realms@, 0) {
        Ok(_) => Ok(()),
        Err(e) => Err(e),
    }
}

} // verus!
