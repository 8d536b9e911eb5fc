//! The analyzer's governing laws, stated over the model and proved
//! once and for all: duplicate rejection at every level, shadowing
//! without overwriting, the arithmetic promotion and comparison rules,
//! call checking, return discipline, and fail-fast error reporting.

use vstd::prelude::*;

use crate::ast::nodes::{BinaryOperator, Expression, Ritual, Being, Statement, TypeView, Variable};
use crate::semantic::model::{
    ContextView, cur_being, cur_realm, current_path, current_signature, first_duplicate_parameter,
    has_current_being, has_current_realm, has_top_level_return, is_numeric, lookup_name, promoted,
    spec_add_being, spec_add_being_variable, spec_add_being_variables, spec_add_realm,
    spec_add_ritual, spec_analyze_being, spec_bind_parameters, spec_register_rituals,
    spec_binary_result, spec_check_arguments, spec_check_call, spec_declare, spec_enter, spec_exit,
    spec_infer, spec_validate_ritual_body, spec_validate_statement, spec_validate_statements,
    type_compatible, SignatureView,
};
use crate::semantic::{
    DefinitionKind, ErrorView, FoundTypesView, MismatchSiteView, TypeExpectationView,
};

verus! {

/// Duplicate names are rejected at every level, and only duplicates
/// are: registering a realm, being or member variable fails exactly
/// when the name is already bound at that same level, with a
/// `DuplicateDefinition` carrying the right kind and enclosing path,
/// and the context is unchanged by the failure.
pub proof fn lemma_duplicates_rejected(c: ContextView, name: Seq<char>, v: Variable)
    ensures
        spec_add_realm(c, name) is Err <==> c.realms.contains_key(name),
        spec_add_realm(c, name) is Err ==> spec_add_realm(c, name)->Err_0
            == (ErrorView::DuplicateDefinition {
            kind: DefinitionKind::Realm,
            name,
            path: Seq::empty(),
        }),
        has_current_realm(c) ==> (spec_add_being(c, name) is Err <==> c.realms[cur_realm(
            c,
        )].beings.contains_key(name)),
        has_current_realm(c) && spec_add_being(c, name) is Err ==> spec_add_being(c, name)->Err_0
            == (ErrorView::DuplicateDefinition {
            kind: DefinitionKind::Being,
            name,
            path: seq![cur_realm(c)],
        }),
        has_current_being(c) ==> (spec_add_being_variable(c, v) is Err <==> c.realms[cur_realm(
            c,
        )].beings[cur_being(c)].variables.contains_key(v.name@)),
        has_current_being(c) && spec_add_being_variable(c, v) is Err ==> spec_add_being_variable(
            c,
            v,
        )->Err_0 == (ErrorView::DuplicateDefinition {
            kind: DefinitionKind::Variable,
            name: v.name@,
            path: seq![cur_realm(c), cur_being(c)],
        }),
{
}

/// A ritual is rejected exactly when its name is already a ritual of
/// the being, or, after that, when two of its parameters share a name;
/// the errors carry the `Ritual` and `Parameter` kinds with the
/// qualified paths.
pub proof fn lemma_ritual_duplicates_rejected(c: ContextView, rit: Ritual)
    requires
        has_current_being(c),
    ensures
        spec_add_ritual(c, rit) is Err <==> (c.realms[cur_realm(c)].beings[cur_being(
            c,
        )].rituals.contains_key(rit.name@) || first_duplicate_parameter(rit.parameters@, 0)
            is Some),
        c.realms[cur_realm(c)].beings[cur_being(c)].rituals.contains_key(rit.name@)
            ==> spec_add_ritual(c, rit)->Err_0 == (ErrorView::DuplicateDefinition {
            kind: DefinitionKind::Ritual,
            name: rit.name@,
            path: seq![cur_realm(c), cur_being(c)],
        }),
        !c.realms[cur_realm(c)].beings[cur_being(c)].rituals.contains_key(rit.name@)
            && first_duplicate_parameter(rit.parameters@, 0) is Some ==> spec_add_ritual(
            c,
            rit,
        )->Err_0 == (ErrorView::DuplicateDefinition {
            kind: DefinitionKind::Parameter,
            name: first_duplicate_parameter(rit.parameters@, 0)->Some_0,
            path: seq![cur_realm(c), cur_being(c), rit.name@],
        }),
{
}

/// Shadowing is permitted, overwrite is not: inside a freshly entered
/// block, a name visible outside may always be declared anew; within
/// the block the inner binding resolves, and after leaving the block
/// every name resolves as it did before.
pub proof fn lemma_shadowing_permitted(c: ContextView, name: Seq<char>, t: TypeView)
    requires
        c.scopes.len() > 0,
    ensures
        spec_declare(spec_enter(c), name, t) is Ok,
        lookup_name(spec_declare(spec_enter(c), name, t)->Ok_0, name) == Some(t),
        forall|n2: Seq<char>|
            lookup_name(#[trigger] spec_exit(spec_declare(spec_enter(c), name, t)->Ok_0), n2)
                == lookup_name(c, n2),
{
    let c1 = spec_enter(c);
    assert(c1.scopes.last() == Map::<Seq<char>, TypeView>::empty());
    let c2 = spec_declare(c1, name, t)->Ok_0;
    assert(c2.scopes.last() == Map::<Seq<char>, TypeView>::empty().insert(name, t)) by {
        assert(c2.scopes == c1.scopes.update(c1.scopes.len() - 1, c1.scopes.last().insert(name, t)));
    }
    let c3 = spec_exit(c2);
    assert(c3.scopes =~= c.scopes);
    assert(c3 =~= c);
}

/// Declaring a name twice in the same block fails with a duplicate
/// definition; the outer binding is never overwritten.
pub proof fn lemma_overwrite_rejected(c: ContextView, name: Seq<char>, t1: TypeView, t2: TypeView)
    requires
        c.scopes.len() > 0,
        spec_declare(c, name, t1) is Ok,
    ensures
        ({
            let c1 = spec_declare(c, name, t1)->Ok_0;
            spec_declare(c1, name, t2) == Err::<ContextView, ErrorView>(
                ErrorView::DuplicateDefinition {
                    kind: DefinitionKind::Variable,
                    name,
                    path: current_path(c1),
                },
            )
        }),
{
    let c1 = spec_declare(c, name, t1)->Ok_0;
    assert(c1.scopes.last() == c.scopes.last().insert(name, t1)) by {
        assert(c1.scopes == c.scopes.update(c.scopes.len() - 1, c.scopes.last().insert(name, t1)));
    }
}

/// Arithmetic promotion: an arithmetic operator over two numeric
/// operands yields Integer only when both are Integer and Float as
/// soon as either is Float; over anything else it fails expecting a
/// numeric pair.
pub proof fn lemma_arithmetic_promotion(lt: TypeView, op: BinaryOperator, rt: TypeView)
    requires
        op is Add || op is Subtract || op is Multiply || op is Divide,
    ensures
        is_numeric(lt) && is_numeric(rt) ==> spec_binary_result(lt, op, rt) == Ok::<
            TypeView,
            ErrorView,
        >(promoted(lt, rt)),
        lt == TypeView::Integer && rt == TypeView::Integer ==> spec_binary_result(lt, op, rt)
            == Ok::<TypeView, ErrorView>(TypeView::Integer),
        is_numeric(lt) && is_numeric(rt) && (lt == TypeView::Float || rt == TypeView::Float)
            ==> spec_binary_result(lt, op, rt) == Ok::<TypeView, ErrorView>(TypeView::Float),
        !(is_numeric(lt) && is_numeric(rt)) ==> spec_binary_result(lt, op, rt) == Err::<
            TypeView,
            ErrorView,
        >(ErrorView::TypeMismatch {
            expected: TypeExpectationView::Numeric,
            found: FoundTypesView::Pair(lt, rt),
            site: MismatchSiteView::ArithmeticOperands,
        }),
{
}

/// Ordering and equality rules: an ordering operator demands two
/// numeric operands and yields Boolean; an equality operator demands
/// two compatible operands and yields Boolean; each fails otherwise
/// with the corresponding mismatch.
pub proof fn lemma_comparison_rules(lt: TypeView, op: BinaryOperator, rt: TypeView)
    ensures
        (op is LessThan || op is GreaterThan) && is_numeric(lt) && is_numeric(rt)
            ==> spec_binary_result(lt, op, rt) == Ok::<TypeView, ErrorView>(TypeView::Boolean),
        (op is LessThan || op is GreaterThan) && !(is_numeric(lt) && is_numeric(rt))
            ==> spec_binary_result(lt, op, rt) == Err::<TypeView, ErrorView>(
            ErrorView::TypeMismatch {
                expected: TypeExpectationView::Numeric,
                found: FoundTypesView::Pair(lt, rt),
                site: MismatchSiteView::OrderingOperands,
            },
        ),
        (op is Equal || op is NotEqual) && type_compatible(lt, rt) ==> spec_binary_result(
            lt,
            op,
            rt,
        ) == Ok::<TypeView, ErrorView>(TypeView::Boolean),
        (op is Equal || op is NotEqual) && !type_compatible(lt, rt) ==> spec_binary_result(
            lt,
            op,
            rt,
        ) == Err::<TypeView, ErrorView>(ErrorView::TypeMismatch {
            expected: TypeExpectationView::Exact(lt),
            found: FoundTypesView::Single(rt),
            site: MismatchSiteView::EqualityOperands,
        }),
{
}

/// Call checking, the failure side: a call of an unknown ritual is
/// undefined; a call with the wrong number of arguments is an arity
/// mismatch naming both counts.
pub proof fn lemma_call_checking(
    c: ContextView,
    name: Seq<char>,
    args: Seq<Expression>,
    sig: SignatureView,
)
    ensures
        current_signature(c, name) is None ==> spec_check_call(c, name, args) == Err::<
            TypeView,
            ErrorView,
        >(ErrorView::UndefinedRitual { name }),
        current_signature(c, name) == Some(sig) && args.len() != sig.parameters.len()
            ==> spec_check_call(c, name, args) == Err::<TypeView, ErrorView>(
            ErrorView::ArityMismatch {
                ritual: name,
                expected: sig.parameters.len() as int,
                found: args.len() as int,
            },
        ),
{
}

proof fn lemma_check_arguments_type(
    c: ContextView,
    name: Seq<char>,
    sig: SignatureView,
    args: Seq<Expression>,
    i: int,
    t: TypeView,
)
    requires
        spec_check_arguments(c, name, sig, args, i) == Ok::<TypeView, ErrorView>(t),
    ensures
        t == sig.return_type,
    decreases args.len() - i,
{
    if i < 0 || i >= args.len() {
    } else {
        match spec_infer(c, args[i]) {
            Err(_) => {},
            Ok(at) => {
                if i < sig.parameters.len() && !type_compatible(at, sig.parameters[i].var_type) {
                } else {
                    lemma_check_arguments_type(c, name, sig, args, i + 1, t);
                }
            },
        }
    }
}

/// Call checking, the success side: whenever a call checks out, its
/// type is exactly the ritual's declared return type.
pub proof fn lemma_call_type(
    c: ContextView,
    name: Seq<char>,
    args: Seq<Expression>,
    sig: SignatureView,
    t: TypeView,
)
    requires
        current_signature(c, name) == Some(sig),
        spec_check_call(c, name, args) == Ok::<TypeView, ErrorView>(t),
    ensures
        t == sig.return_type,
{
    lemma_check_arguments_type(c, name, sig, args, 0, t);
}

proof fn lemma_registration_keeps_signatures(
    c: ContextView,
    rs: Seq<Ritual>,
    i: int,
    cr: ContextView,
    name: Seq<char>,
)
    requires
        has_current_being(c),
        current_signature(c, name) is Some,
        spec_register_rituals(c, rs, i) == Ok::<ContextView, ErrorView>(cr),
    ensures
        current_signature(cr, name) is Some,
    decreases rs.len() - i,
{
    if i < 0 || i >= rs.len() {
    } else {
        let c1 = spec_add_ritual(c, rs[i])->Ok_0;
        assert(has_current_being(c1));
        assert(current_signature(c1, name) is Some);
        lemma_registration_keeps_signatures(c1, rs, i + 1, cr, name);
    }
}

/// Forward references resolve: a being's ritual signatures are all
/// registered before any body is validated, so in the context the
/// registration phase leaves behind, every ritual of the being — those
/// declared later included — resolves to its signature.
pub proof fn lemma_forward_references_resolve(
    c: ContextView,
    rs: Seq<Ritual>,
    i: int,
    cr: ContextView,
    j: int,
)
    requires
        has_current_being(c),
        spec_register_rituals(c, rs, i) == Ok::<ContextView, ErrorView>(cr),
        0 <= i <= j < rs.len(),
    ensures
        current_signature(cr, rs[j].name@) is Some,
    decreases rs.len() - i,
{
    let c1 = spec_add_ritual(c, rs[i])->Ok_0;
    assert(has_current_being(c1));
    if j == i {
        assert(current_signature(c1, rs[i].name@) is Some);
        lemma_registration_keeps_signatures(c1, rs, i + 1, cr, rs[i].name@);
    } else {
        lemma_forward_references_resolve(c1, rs, i + 1, cr, j);
    }
}

/// Return discipline at one statement: under a `Void` return type only
/// a bare `return` is accepted, and a valued `return` is a mismatch
/// whichever type its expression has; under any other return type a
/// bare `return` is a mismatch, and a valued `return` is accepted
/// exactly when its expression's type is compatible with the declared
/// one.
pub proof fn lemma_return_discipline(c: ContextView, ret: TypeView, e0: Expression, et: TypeView)
    ensures
        ret == TypeView::Void ==> spec_validate_statement(c, Statement::Return(None), ret) == Ok::<
            ContextView,
            ErrorView,
        >(c),
        ret != TypeView::Void ==> spec_validate_statement(c, Statement::Return(None), ret) == Err::<
            ContextView,
            ErrorView,
        >(ErrorView::TypeMismatch {
            expected: TypeExpectationView::Exact(ret),
            found: FoundTypesView::Single(TypeView::Void),
            site: MismatchSiteView::ReturnValue,
        }),
        ret == TypeView::Void && spec_infer(c, e0) == Ok::<TypeView, ErrorView>(et)
            ==> spec_validate_statement(c, Statement::Return(Some(e0)), ret) == Err::<
            ContextView,
            ErrorView,
        >(ErrorView::TypeMismatch {
            expected: TypeExpectationView::Exact(ret),
            found: FoundTypesView::Single(et),
            site: MismatchSiteView::ReturnValue,
        }),
        ret != TypeView::Void && spec_infer(c, e0) == Ok::<TypeView, ErrorView>(et)
            && type_compatible(et, ret) ==> spec_validate_statement(
            c,
            Statement::Return(Some(e0)),
            ret,
        ) == Ok::<ContextView, ErrorView>(c),
        ret != TypeView::Void && spec_infer(c, e0) == Ok::<TypeView, ErrorView>(et)
            && !type_compatible(et, ret) ==> spec_validate_statement(
            c,
            Statement::Return(Some(e0)),
            ret,
        ) == Err::<ContextView, ErrorView>(ErrorView::TypeMismatch {
            expected: TypeExpectationView::Exact(ret),
            found: FoundTypesView::Single(et),
            site: MismatchSiteView::ReturnValue,
        }),
{
}

/// Return discipline at the ritual: a ritual whose return type is not
/// `Void` and whose statement list validates but holds no top-level
/// `Return` fails with `MissingReturn`, after the whole body has been
/// validated.
pub proof fn lemma_missing_return(c: ContextView, rit: Ritual, c2: ContextView)
    requires
        spec_bind_parameters(
            spec_enter(ContextView { current_ritual: Some(rit.name@), ..c }),
            rit.parameters@,
            0,
        ) == Ok::<ContextView, ErrorView>(c2),
        spec_validate_statements(c2, rit.body@, rit.return_type@, 0) is Ok,
        rit.return_type@ != TypeView::Void,
        !has_top_level_return(rit.body@),
    ensures
        spec_validate_ritual_body(c, rit) == Err::<ContextView, ErrorView>(
            ErrorView::MissingReturn { ritual: rit.name@, return_type: rit.return_type@ },
        ),
{
}

/// Fail-fast ordering: when registering a being's member variables
/// already fails, analyzing the being reports exactly that first
/// error; the rituals that follow, whatever violations they hold, are
/// never examined.
pub proof fn lemma_fail_fast(c: ContextView, b: Being, e: ErrorView)
    requires
        spec_add_being(c, b.name@) is Ok,
        spec_add_being_variables(spec_add_being(c, b.name@)->Ok_0, b.variables@, 0) == Err::<
            ContextView,
            ErrorView,
        >(e),
    ensures
        spec_analyze_being(c, b) == Err::<ContextView, ErrorView>(e),
{
}

/// Fail-fast ordering inside a statement list: the first statement's
/// violation is the list's violation; the statements after it are
/// never examined.
pub proof fn lemma_fail_fast_statements(
    c: ContextView,
    ss: Seq<Statement>,
    ret: TypeView,
    e: ErrorView,
)
    requires
        ss.len() > 0,
        spec_validate_statement(c, ss[0], ret) == Err::<ContextView, ErrorView>(e),
    ensures
        spec_validate_statements(c, ss, ret, 0) == Err::<ContextView, ErrorView>(e),
{
}

} // verus!
