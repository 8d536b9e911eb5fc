//! The semantic analyzer: a hierarchical namespace registry, a lexical
//! scope stack, and the type rules, proved to compute exactly what the
//! model in `model` says.

use vstd::prelude::*;
use vstd::pervasive::unreached;

use crate::ast::nodes::{
    BinaryOperator, Expression, Literal, Program, Realm, Being, Ritual, Statement, Type, TypeView,
    Variable,
};
use crate::names::NameMap;
use crate::semantic::model::{
    BeingView, ContextView, RealmView, SignatureView, cur_being, cur_realm, current_path,
    current_signature, first_duplicate_parameter, has_current_being, has_current_realm,
    has_top_level_return, initial_context, is_numeric, lookup_name, same_but_scopes, scope_lookup,
    spec_add_being,
    spec_add_being_variable, spec_add_being_variables, spec_add_realm, spec_add_ritual,
    spec_analyze_being, spec_analyze_beings, spec_analyze_program, spec_analyze_realm,
    spec_analyze_realms, spec_bind_parameters, spec_register_rituals,
    spec_check_arguments, spec_check_call, spec_declare, spec_enter, spec_exit, spec_infer,
    spec_validate_ritual_bodies, spec_validate_ritual_body, spec_validate_statement,
    spec_validate_statements, type_compatible,
};
use crate::semantic::{
    DefinitionKind, ErrorView, FoundTypes, MismatchSite, SemanticError, TypeExpectation,
};

verus! {

/// An owned copy of a type (the derived `Clone` says nothing to the
/// verifier, so the copy is built by hand).
fn clone_type(t: &Type) -> (r: Type)
    ensures
        r == *t,
{
    match t {
        Type::Integer => Type::Integer,
        Type::Float => Type::Float,
        Type::String => Type::String,
        Type::Boolean => Type::Boolean,
        Type::Void => Type::Void,
        Type::Custom(name) => Type::Custom(name.clone()),
    }
}

/// An owned copy of a parameter list.
fn clone_variables(vs: &Vec<Variable>) -> (r: Vec<Variable>)
    ensures
        r@ == vs@,
{
    let mut r: Vec<Variable> = Vec::new();
    let n = vs.len();
    let mut i: usize = 0;
    while i < n
        invariant
            i <= n,
            n == vs@.len(),
            r@ == vs@.subrange(0, i as int),
        decreases n - i,
    {
        r.push(Variable { name: vs[i].name.clone(), var_type: clone_type(&vs[i].var_type) });
        proof {
            assert(r@ =~= vs@.subrange(0, i + 1 as int));
        }
        i += 1;
    }
    proof {
        assert(vs@.subrange(0, n as int) =~= vs@);
    }
    r
}

/// Whether a type is one the arithmetic and ordering operators accept.
fn type_is_numeric(t: &Type) -> (r: bool)
    ensures
        r == is_numeric(t@),
{
    matches!(t, Type::Integer | Type::Float)
}

/// The first parameter whose name repeats an earlier parameter's
/// name, scanning left to right.
fn find_duplicate_parameter(ps: &Vec<Variable>) -> (r: Option<usize>)
    ensures
        (match r {
            Some(j) => j < ps@.len() && first_duplicate_parameter(ps@, 0) == Some(
                ps@[j as int].name@,
            ),
            None => first_duplicate_parameter(ps@, 0) is None,
        }),
{
    let n = ps.len();
    let mut j: usize = 0;
    while j < n
        invariant
            j <= n,
            n == ps@.len(),
            first_duplicate_parameter(ps@, 0) == first_duplicate_parameter(ps@, j as int),
        decreases n - j,
    {
        let mut i: usize = 0;
        while i < j
            invariant
                i <= j < n,
                n == ps@.len(),
                first_duplicate_parameter(ps@, 0) == first_duplicate_parameter(ps@, j as int),
                forall|k: int| 0 <= k < i ==> ps@[k].name@ != ps@[j as int].name@,
            decreases j - i,
        {
            if ps[i].name.eq(&ps[j].name) {
                proof {
                    assert(exists|k: int|
                        0 <= k < j && ps@[k].name@ == ps@[j as int].name@) by {
                        assert(ps@[i as int].name@ == ps@[j as int].name@);
                    }
                }
                return Some(j);
            }
            i += 1;
        }
        proof {
            assert(!(exists|k: int| 0 <= k < j && ps@[k].name@ == ps@[j as int].name@));
        }
        j += 1;
    }
    None
}

/// A registered ritual: parameters in order, and the return type.
struct RitualInfo {
    parameters: Vec<Variable>,
    return_type: Type,
}

impl View for RitualInfo {
    type V = SignatureView;

    closed spec fn view(&self) -> SignatureView {
        SignatureView { parameters: self.parameters.deep_view(), return_type: self.return_type@ }
    }
}

/// A registered being: member variables and rituals.
struct BeingInfo {
    variables: NameMap<Type>,
    rituals: NameMap<RitualInfo>,
}

impl View for BeingInfo {
    type V = BeingView;

    closed spec fn view(&self) -> BeingView {
        BeingView { variables: self.variables@, rituals: self.rituals@ }
    }
}

/// A registered realm: its beings.
struct RealmInfo {
    beings: NameMap<BeingInfo>,
}

impl View for RealmInfo {
    type V = RealmView;

    closed spec fn view(&self) -> RealmView {
        RealmView { beings: self.beings@ }
    }
}

/// The analyzer's whole state: the registry of everything declared so
/// far, the names of the containers currently being analyzed, and the
/// stack of lexical scope frames. One instance serves one compilation
/// unit.
pub struct SemanticContext {
    realm_table: NameMap<RealmInfo>,
    current_realm: Option<String>,
    current_being: Option<String>,
    current_ritual: Option<String>,
    scope_stack: Vec<NameMap<Type>>,
}

impl View for SemanticContext {
    type V = ContextView;

    closed spec fn view(&self) -> ContextView {
        ContextView {
            realms: self.realm_table@,
            current_realm: match self.current_realm {
                Some(s) => Some(s@),
                None => None,
            },
            current_being: match self.current_being {
                Some(s) => Some(s@),
                None => None,
            },
            current_ritual: match self.current_ritual {
                Some(s) => Some(s@),
                None => None,
            },
            scopes: Seq::new(self.scope_stack@.len(), |i: int| self.scope_stack@[i]@),
        }
    }
}

impl SemanticContext {
    /// A fresh context: empty registry, no current containers, one
    /// empty scope frame.
    pub fn new() -> (r: Self)
        ensures
            r@ == initial_context(),
    {
        let mut scope_stack: Vec<NameMap<Type>> = Vec::new();
        scope_stack.push(NameMap::new());
        let r = SemanticContext {
            realm_table: NameMap::new(),
            current_realm: None,
            current_being: None,
            current_ritual: None,
            scope_stack,
        };
        proof {
            assert(r@.scopes =~= initial_context().scopes);
            assert(r@ =~= initial_context());
        }
        r
    }

    /// Pushes an empty scope frame.
    pub fn enter_scope(&mut self)
        ensures
            final(self)@ == spec_enter(old(self)@),
    {
        self.scope_stack.push(NameMap::new());
        proof {
            assert(self@.scopes =~= spec_enter(old(self)@).scopes);
            assert(self@ =~= spec_enter(old(self)@));
        }
    }

    /// Pops the innermost scope frame, if any. Callers keep enter and
    /// exit balanced.
    pub fn exit_scope(&mut self)
        ensures
            final(self)@ == spec_exit(old(self)@),
    {
        let _ = self.scope_stack.pop();
        proof {
            assert(self@.scopes =~= spec_exit(old(self)@).scopes);
            assert(self@ =~= spec_exit(old(self)@));
        }
    }

    /// The qualified path of the analyzer's current position.
    fn current_path_vec(&self) -> (r: Vec<String>)
        ensures
            r.deep_view() == current_path(self@),
    {
        let mut path: Vec<String> = Vec::new();
        if let Some(r0) = &self.current_realm {
            path.push(r0.clone());
        }
        if let Some(b0) = &self.current_being {
            path.push(b0.clone());
        }
        if let Some(t0) = &self.current_ritual {
            path.push(t0.clone());
        }
        proof {
            assert(path.deep_view() =~= current_path(self@));
        }
        path
    }

    /// Declares a local in the innermost scope frame. A name already
    /// bound in that same frame is a duplicate definition; one bound in
    /// an outer frame or among the being's members is only shadowed.
    /// At least one frame must be open: the driver opens one before it
    /// binds parameters or walks a body, and keeps enter and exit
    /// balanced.
    pub fn add_variable(&mut self, name: &str, var_type: Type) -> (r: Result<(), SemanticError>)
        requires
            old(self)@.scopes.len() > 0,
        ensures
            (match r {
                Ok(_) => spec_declare(old(self)@, name@, var_type@) == Ok::<
                    ContextView,
                    ErrorView,
                >(final(self)@),
                Err(e) => spec_declare(old(self)@, name@, var_type@) == Err::<
                    ContextView,
                    ErrorView,
                >(e@) && final(self)@ == old(self)@,
            }),
    {
        let key = name.to_owned();
        let ghost c0 = self@;
        let mut frame = match self.scope_stack.pop() {
            Some(f) => f,
            None => unreached(),
        };
        proof {
            assert(frame@ == c0.scopes.last());
        }
        if frame.contains_key(&key) {
            let path = self.current_path_vec();
            proof {
                assert(current_path(self@) == current_path(c0));
            }
            self.scope_stack.push(frame);
            proof {
                assert(self@.scopes =~= c0.scopes);
                assert(self@ =~= c0);
            }
            return Err(
                SemanticError::DuplicateDefinition {
                    kind: DefinitionKind::Variable,
                    name: key,
                    path,
                },
            );
        }
        frame.insert(key, var_type);
        self.scope_stack.push(frame);
        proof {
            let c1 = spec_declare(c0, name@, var_type@)->Ok_0;
            assert(self@.scopes =~= c1.scopes);
            assert(self@ =~= c1);
        }
        Ok(())
    }

    /// Resolves a name: the scope frames innermost to outermost, then
    /// the current being's member variables.
    pub fn lookup_variable<'a>(&'a self, name: &str) -> (r: Option<&'a Type>)
        ensures
            (match r {
                Some(t) => lookup_name(self@, name@) == Some(t@),
                None => lookup_name(self@, name@) is None,
            }),
    {
        let key = name.to_owned();
        let n = self.scope_stack.len();
        proof {
            assert(self@.scopes.subrange(0, n as int) =~= self@.scopes);
        }
        let mut i: usize = n;
        while i > 0
            invariant
                i <= n,
                n == self.scope_stack@.len(),
                key@ == name@,
                scope_lookup(self@.scopes, name@) == scope_lookup(
                    self@.scopes.subrange(0, i as int),
                    name@,
                ),
            decreases i,
        {
            i -= 1;
            let ghost pre = self@.scopes.subrange(0, i + 1);
            proof {
                assert(pre.last() == self@.scopes[i as int]);
                assert(pre.drop_last() =~= self@.scopes.subrange(0, i as int));
            }
            match self.scope_stack[i].get(&key) {
                Some(t) => {
                    return Some(t);
                },
                None => {
                },
            }
        }
        proof {
            assert(self@.scopes.subrange(0, 0) =~= Seq::<Map<Seq<char>, TypeView>>::empty());
        }
        if let Some(rn) = &self.current_realm {
            if let Some(bn) = &self.current_being {
                if let Some(realm_info) = self.realm_table.get(rn) {
                    if let Some(being_info) = realm_info.beings.get(bn) {
                        if let Some(t) = being_info.variables.get(&key) {
                            return Some(t);
                        }
                    }
                }
            }
        }
        None
    }

    /// Registers a new realm and makes it current.
    pub fn add_realm(&mut self, name: &str) -> (r: Result<(), SemanticError>)
        ensures
            (match r {
                Ok(_) => spec_add_realm(old(self)@, name@) == Ok::<ContextView, ErrorView>(
                    final(self)@,
                ),
                Err(e) => spec_add_realm(old(self)@, name@) == Err::<ContextView, ErrorView>(e@)
                    && final(self)@ == old(self)@,
            }),
    {
        let key = name.to_owned();
        if self.realm_table.contains_key(&key) {
            let err = SemanticError::DuplicateDefinition {
                kind: DefinitionKind::Realm,
                name: key,
                path: Vec::new(),
            };
            proof {
                assert(err@->DuplicateDefinition_path =~= Seq::<Seq<char>>::empty());
            }
            return Err(err);
        }
        let cur = key.clone();
        let new_realm = RealmInfo { beings: NameMap::new() };
        proof {
            assert(new_realm@ =~= (RealmView { beings: Map::<Seq<char>, BeingView>::empty() }));
        }
        self.realm_table.insert(key, new_realm);
        self.current_realm = Some(cur);
        proof {
            let c1 = spec_add_realm(old(self)@, name@)->Ok_0;
            assert(self@.realms =~= c1.realms);
            assert(self@.scopes =~= c1.scopes);
            assert(self@ =~= c1);
        }
        Ok(())
    }

    /// Registers a new being in the current realm and makes it
    /// current. A realm must have been registered first: registering a
    /// being with no current realm is a driver error, ruled out by the
    /// precondition.
    pub fn add_being(&mut self, name: &str) -> (r: Result<(), SemanticError>)
        requires
            has_current_realm(old(self)@),
        ensures
            (match r {
                Ok(_) => spec_add_being(old(self)@, name@) == Ok::<ContextView, ErrorView>(
                    final(self)@,
                ),
                Err(e) => spec_add_being(old(self)@, name@) == Err::<ContextView, ErrorView>(e@)
                    && final(self)@ == old(self)@,
            }),
    {
        let key = name.to_owned();
        let ghost c0 = self@;
        let realm_name = match &self.current_realm {
            Some(r0) => r0.clone(),
            None => unreached(),
        };
        let mut realm_info = match self.realm_table.remove(&realm_name) {
            Some(ri) => ri,
            None => unreached(),
        };
        proof {
            assert(realm_info@ == c0.realms[cur_realm(c0)]);
        }
        if realm_info.beings.contains_key(&key) {
            let err = SemanticError::DuplicateDefinition {
                kind: DefinitionKind::Being,
                name: key,
                path: vec![realm_name.clone()],
            };
            proof {
                assert(err@->DuplicateDefinition_path =~= seq![cur_realm(c0)]);
            }
            self.realm_table.insert(realm_name, realm_info);
            proof {
                assert(self@.realms =~= c0.realms);
                assert(self@ =~= c0);
            }
            return Err(err);
        }
        let cur = key.clone();
        let new_being = BeingInfo { variables: NameMap::new(), rituals: NameMap::new() };
        proof {
            assert(new_being@ =~= (BeingView {
                variables: Map::<Seq<char>, TypeView>::empty(),
                rituals: Map::<Seq<char>, SignatureView>::empty(),
            }));
        }
        realm_info.beings.insert(key, new_being);
        self.realm_table.insert(realm_name, realm_info);
        self.current_being = Some(cur);
        proof {
            let c1 = spec_add_being(c0, name@)->Ok_0;
            assert(realm_info@.beings =~= c1.realms[cur_realm(c0)].beings);
            assert(realm_info@ =~= c1.realms[cur_realm(c0)]);
            assert(self@.realms =~= c1.realms);
            assert(self@ =~= c1);
        }
        Ok(())
    }

    /// Registers a member variable of the current being. A being must
    /// have been registered first: the precondition rules the other
    /// case out.
    pub fn add_being_variable(&mut self, var: &Variable) -> (r: Result<(), SemanticError>)
        requires
            has_current_being(old(self)@),
        ensures
            (match r {
                Ok(_) => spec_add_being_variable(old(self)@, *var) == Ok::<
                    ContextView,
                    ErrorView,
                >(final(self)@),
                Err(e) => spec_add_being_variable(old(self)@, *var) == Err::<
                    ContextView,
                    ErrorView,
                >(e@) && final(self)@ == old(self)@,
            }),
    {
        let ghost c0 = self@;
        let realm_name = match &self.current_realm {
            Some(r0) => r0.clone(),
            None => unreached(),
        };
        let being_name = match &self.current_being {
            Some(b0) => b0.clone(),
            None => unreached(),
        };
        let mut realm_info = match self.realm_table.remove(&realm_name) {
            Some(ri) => ri,
            None => unreached(),
        };
        let mut being_info = match realm_info.beings.remove(&being_name) {
            Some(bi) => bi,
            None => unreached(),
        };
        proof {
            assert(being_info@ == c0.realms[cur_realm(c0)].beings[cur_being(c0)]);
        }
        if being_info.variables.contains_key(&var.name) {
            let err = SemanticError::DuplicateDefinition {
                kind: DefinitionKind::Variable,
                name: var.name.clone(),
                path: vec![realm_name.clone(), being_name.clone()],
            };
            proof {
                assert(err@->DuplicateDefinition_path =~= seq![cur_realm(c0), cur_being(c0)]);
            }
            realm_info.beings.insert(being_name, being_info);
            self.realm_table.insert(realm_name, realm_info);
            proof {
                assert(realm_info@.beings =~= c0.realms[cur_realm(c0)].beings);
                assert(realm_info@ =~= c0.realms[cur_realm(c0)]);
                assert(self@.realms =~= c0.realms);
                assert(self@ =~= c0);
            }
            return Err(err);
        }
        being_info.variables.insert(var.name.clone(), clone_type(&var.var_type));
        realm_info.beings.insert(being_name, being_info);
        self.realm_table.insert(realm_name, realm_info);
        proof {
            let c1 = spec_add_being_variable(c0, *var)->Ok_0;
            assert(realm_info@.beings =~= c1.realms[cur_realm(c0)].beings);
            assert(realm_info@ =~= c1.realms[cur_realm(c0)]);
            assert(self@.realms =~= c1.realms);
            assert(self@ =~= c1);
        }
        Ok(())
    }

    /// Registers a ritual's signature in the current being and makes
    /// the ritual current. The ritual's name must be new in the being
    /// and its parameter names pairwise distinct; nothing is registered
    /// on rejection.
    pub fn add_ritual(&mut self, ritual: &Ritual) -> (r: Result<(), SemanticError>)
        requires
            has_current_being(old(self)@),
        ensures
            (match r {
                Ok(_) => spec_add_ritual(old(self)@, *ritual) == Ok::<ContextView, ErrorView>(
                    final(self)@,
                ),
                Err(e) => spec_add_ritual(old(self)@, *ritual) == Err::<ContextView, ErrorView>(e@)
                    && final(self)@ == old(self)@,
            }),
    {
        let ghost c0 = self@;
        let realm_name = match &self.current_realm {
            Some(r0) => r0.clone(),
            None => unreached(),
        };
        let being_name = match &self.current_being {
            Some(b0) => b0.clone(),
            None => unreached(),
        };
        let mut realm_info = match self.realm_table.remove(&realm_name) {
            Some(ri) => ri,
            None => unreached(),
        };
        let mut being_info = match realm_info.beings.remove(&being_name) {
            Some(bi) => bi,
            None => unreached(),
        };
        proof {
            assert(being_info@ == c0.realms[cur_realm(c0)].beings[cur_being(c0)]);
        }
        if being_info.rituals.contains_key(&ritual.name) {
            let err = SemanticError::DuplicateDefinition {
                kind: DefinitionKind::Ritual,
                name: ritual.name.clone(),
                path: vec![realm_name.clone(), being_name.clone()],
            };
            proof {
                assert(err@->DuplicateDefinition_path =~= seq![cur_realm(c0), cur_being(c0)]);
            }
            realm_info.beings.insert(being_name, being_info);
            self.realm_table.insert(realm_name, realm_info);
            proof {
                assert(realm_info@.beings =~= c0.realms[cur_realm(c0)].beings);
                assert(realm_info@ =~= c0.realms[cur_realm(c0)]);
                assert(self@.realms =~= c0.realms);
                assert(self@ =~= c0);
            }
            return Err(err);
        }
        // reject a parameter name that repeats an earlier one, scanning
        // left to right
        let dup = find_duplicate_parameter(&ritual.parameters);
        if let Some(d) = dup {
            let err = SemanticError::DuplicateDefinition {
                kind: DefinitionKind::Parameter,
                name: ritual.parameters[d].name.clone(),
                path: vec![realm_name.clone(), being_name.clone(), ritual.name.clone()],
            };
            proof {
                assert(err@->DuplicateDefinition_path =~= seq![
                    cur_realm(c0),
                    cur_being(c0),
                    ritual.name@,
                ]);
            }
            realm_info.beings.insert(being_name, being_info);
            self.realm_table.insert(realm_name, realm_info);
            proof {
                assert(realm_info@.beings =~= c0.realms[cur_realm(c0)].beings);
                assert(realm_info@ =~= c0.realms[cur_realm(c0)]);
                assert(self@.realms =~= c0.realms);
                assert(self@ =~= c0);
            }
            return Err(err);
        }
        let cur = ritual.name.clone();
        being_info.rituals.insert(
            ritual.name.clone(),
            RitualInfo {
                parameters: clone_variables(&ritual.parameters),
                return_type: clone_type(&ritual.return_type),
            },
        );
        realm_info.beings.insert(being_name, being_info);
        self.realm_table.insert(realm_name, realm_info);
        self.current_ritual = Some(cur);
        proof {
            let c1 = spec_add_ritual(c0, *ritual)->Ok_0;
            assert(realm_info@.beings =~= c1.realms[cur_realm(c0)].beings);
            assert(realm_info@ =~= c1.realms[cur_realm(c0)]);
            assert(self@.realms =~= c1.realms);
            assert(self@ =~= c1);
        }
        Ok(())
    }

    /// Checks a call of a ritual of the current being: the ritual must
    /// exist, the argument count must match, and each argument must
    /// infer to a type compatible with its parameter; the call has the
    /// declared return type.
    pub fn check_ritual_call(&self, name: &str, args: &Vec<Expression>) -> (r: Result<
        Type,
        SemanticError,
    >)
        ensures
            (match r {
                Ok(t) => spec_check_call(self@, name@, args@) == Ok::<TypeView, ErrorView>(t@),
                Err(e) => spec_check_call(self@, name@, args@) == Err::<TypeView, ErrorView>(e@),
            }),
        decreases args@, args@.len() + 1,
    {
        let key = name.to_owned();
        let found: Option<&RitualInfo> = match (&self.current_realm, &self.current_being) {
            (Some(rn), Some(bn)) => match self.realm_table.get(rn) {
                Some(ri) => match ri.beings.get(bn) {
                    Some(bi) => bi.rituals.get(&key),
                    None => None,
                },
                None => None,
            },
            _ => None,
        };
        let ritual_info = match found {
            Some(x) => x,
            None => {
                return Err(SemanticError::UndefinedRitual { name: key });
            },
        };
        let ghost sigv: SignatureView = ritual_info@;
        proof {
            assert(current_signature(self@, name@) == Some(sigv));
        }
        if args.len() != ritual_info.parameters.len() {
            return Err(
                SemanticError::ArityMismatch {
                    ritual: key,
                    expected: ritual_info.parameters.len(),
                    found: args.len(),
                },
            );
        }
        let n = args.len();
        let mut i: usize = 0;
        while i < n
            invariant
                i <= n,
                n == args@.len(),
                n == ritual_info.parameters@.len(),
                key@ == name@,
                sigv == ritual_info@,
                current_signature(self@, name@) == Some(sigv),
                spec_check_arguments(self@, name@, sigv, args@, 0) == spec_check_arguments(
                    self@,
                    name@,
                    sigv,
                    args@,
                    i as int,
                ),
            decreases n - i,
        {
            let at = match self.infer_expression_type(&args[i]) {
                Ok(t) => t,
                Err(e) => {
                    return Err(e);
                },
            };
            if !self.types_compatible(&at, &ritual_info.parameters[i].var_type) {
                return Err(
                    SemanticError::TypeMismatch {
                        expected: TypeExpectation::Exact(
                            clone_type(&ritual_info.parameters[i].var_type),
                        ),
                        found: FoundTypes::Single(at),
                        site: MismatchSite::CallArgument { ritual: key, position: i },
                    },
                );
            }
            i += 1;
        }
        Ok(clone_type(&ritual_info.return_type))
    }

    /// Infers the type of an expression: literals by kind, variables by
    /// resolution, binary operations by the operator rules, calls by
    /// the call rule.
    pub fn infer_expression_type(&self, expr: &Expression) -> (r: Result<Type, SemanticError>)
        ensures
            (match r {
                Ok(t) => spec_infer(self@, *expr) == Ok::<TypeView, ErrorView>(t@),
                Err(e) => spec_infer(self@, *expr) == Err::<TypeView, ErrorView>(e@),
            }),
        decreases *expr, 0int,
    {
        match expr {
            Expression::Literal(lit) => Ok(
                match lit {
                    Literal::Integer(_) => Type::Integer,
                    Literal::Float(_) => Type::Float,
                    Literal::String(_) => Type::String,
                    Literal::Boolean(_) => Type::Boolean,
                },
            ),
            Expression::Variable(name) => match self.lookup_variable(name.as_str()) {
                Some(t) => Ok(clone_type(t)),
                None => Err(SemanticError::UndefinedVariable { name: name.clone() }),
            },
            Expression::BinaryOperation { left, operator, right } => {
                let lt = match self.infer_expression_type(&**left) {
                    Ok(t) => t,
                    Err(e) => {
                        return Err(e);
                    },
                };
                let rt = match self.infer_expression_type(&**right) {
                    Ok(t) => t,
                    Err(e) => {
                        return Err(e);
                    },
                };
                match operator {
                    BinaryOperator::Add
                    | BinaryOperator::Subtract
                    | BinaryOperator::Multiply
                    | BinaryOperator::Divide => {
                        if type_is_numeric(&lt) && type_is_numeric(&rt) {
                            if matches!(lt, Type::Float) || matches!(rt, Type::Float) {
                                Ok(Type::Float)
                            } else {
                                Ok(Type::Integer)
                            }
                        } else {
                            Err(
                                SemanticError::TypeMismatch {
                                    expected: TypeExpectation::Numeric,
                                    found: FoundTypes::Pair(lt, rt),
                                    site: MismatchSite::ArithmeticOperands,
                                },
                            )
                        }
                    },
                    BinaryOperator::Equal | BinaryOperator::NotEqual => {
                        if self.types_compatible(&lt, &rt) {
                            Ok(Type::Boolean)
                        } else {
                            Err(
                                SemanticError::TypeMismatch {
                                    expected: TypeExpectation::Exact(lt),
                                    found: FoundTypes::Single(rt),
                                    site: MismatchSite::EqualityOperands,
                                },
                            )
                        }
                    },
                    BinaryOperator::LessThan | BinaryOperator::GreaterThan => {
                        if type_is_numeric(&lt) && type_is_numeric(&rt) {
                            Ok(Type::Boolean)
                        } else {
                            Err(
                                SemanticError::TypeMismatch {
                                    expected: TypeExpectation::Numeric,
                                    found: FoundTypes::Pair(lt, rt),
                                    site: MismatchSite::OrderingOperands,
                                },
                            )
                        }
                    },
                }
            },
            Expression::FunctionCall { name, arguments } => self.check_ritual_call(
                name.as_str(),
                arguments,
            ),
        }
    }

    /// Structural type equality, the compatibility predicate. `Custom`
    /// types compare by name; there is no implicit numeric widening.
    pub fn types_compatible(&self, t1: &Type, t2: &Type) -> (r: bool)
        ensures
            r == type_compatible(t1@, t2@),
    {
        match (t1, t2) {
            (Type::Integer, Type::Integer) => true,
            (Type::Float, Type::Float) => true,
            (Type::String, Type::String) => true,
            (Type::Boolean, Type::Boolean) => true,
            (Type::Void, Type::Void) => true,
            (Type::Custom(a), Type::Custom(b)) => a.eq(b),
            _ => false,
        }
    }
}

/// Validates one statement under the enclosing ritual's return type.
fn analyze_statement(
    context: &mut SemanticContext,
    stmt: &Statement,
    expected_return_type: &Type,
) -> (r: Result<(), SemanticError>)
    requires
        old(context)@.scopes.len() > 0,
    ensures
        (match r {
            Ok(_) => spec_validate_statement(old(context)@, *stmt, expected_return_type@) == Ok::<
                ContextView,
                ErrorView,
            >(final(context)@) && final(context)@.scopes.len() == old(context)@.scopes.len()
                && same_but_scopes(final(context)@, old(context)@),
            Err(e) => spec_validate_statement(old(context)@, *stmt, expected_return_type@) == Err::<
                ContextView,
                ErrorView,
            >(e@) && same_but_scopes(final(context)@, old(context)@),
        }),
    decreases *stmt, 0int,
{
    match stmt {
        Statement::VariableDeclaration { variable, initializer } => {
            if let Some(init) = initializer {
                let init_type = match context.infer_expression_type(init) {
                    Ok(t) => t,
                    Err(e) => {
                        return Err(e);
                    },
                };
                if !context.types_compatible(&init_type, &variable.var_type) {
                    return Err(
                        SemanticError::TypeMismatch {
                            expected: TypeExpectation::Exact(clone_type(&variable.var_type)),
                            found: FoundTypes::Single(init_type),
                            site: MismatchSite::Initializer { variable: variable.name.clone() },
                        },
                    );
                }
            }
            context.add_variable(variable.name.as_str(), clone_type(&variable.var_type))
        },
        Statement::Assignment { name, value } => {
            let var_type = match context.lookup_variable(name.as_str()) {
                Some(t) => clone_type(t),
                None => {
                    return Err(SemanticError::UndefinedVariable { name: name.clone() });
                },
            };
            let value_type = match context.infer_expression_type(value) {
                Ok(t) => t,
                Err(e) => {
                    return Err(e);
                },
            };
            if !context.types_compatible(&value_type, &var_type) {
                return Err(
                    SemanticError::TypeMismatch {
                        expected: TypeExpectation::Exact(var_type),
                        found: FoundTypes::Single(value_type),
                        site: MismatchSite::Assignment { variable: name.clone() },
                    },
                );
            }
            Ok(())
        },
        Statement::RitualCall { name, arguments } => {
            match context.check_ritual_call(name.as_str(), arguments) {
                Ok(_) => Ok(()),
                Err(e) => Err(e),
            }
        },
        Statement::Conditional { condition, true_branch, false_branch } => {
            let condition_type = match context.infer_expression_type(condition) {
                Ok(t) => t,
                Err(e) => {
                    return Err(e);
                },
            };
            if !matches!(condition_type, Type::Boolean) {
                return Err(
                    SemanticError::TypeMismatch {
                        expected: TypeExpectation::Exact(Type::Boolean),
                        found: FoundTypes::Single(condition_type),
                        site: MismatchSite::Condition,
                    },
                );
            }
            context.enter_scope();
            match analyze_statements(context, true_branch, expected_return_type) {
                Ok(_) => {},
                Err(e) => {
                    return Err(e);
                },
            }
            context.exit_scope();
            if let Some(false_stmts) = false_branch {
                context.enter_scope();
                match analyze_statements(context, false_stmts, expected_return_type) {
                    Ok(_) => {},
                    Err(e) => {
                        return Err(e);
                    },
                }
                context.exit_scope();
            }
            Ok(())
        },
        Statement::Cycle { condition, body } => {
            if let Some(cond) = condition {
                let condition_type = match context.infer_expression_type(cond) {
                    Ok(t) => t,
                    Err(e) => {
                        return Err(e);
                    },
                };
                if !matches!(condition_type, Type::Boolean) {
                    return Err(
                        SemanticError::TypeMismatch {
                            expected: TypeExpectation::Exact(Type::Boolean),
                            found: FoundTypes::Single(condition_type),
                            site: MismatchSite::Condition,
                        },
                    );
                }
            }
            context.enter_scope();
            match analyze_statements(context, body, expected_return_type) {
                Ok(_) => {},
                Err(e) => {
                    return Err(e);
                },
            }
            context.exit_scope();
            Ok(())
        },
        Statement::Return(expr_opt) => {
            match expr_opt {
                None => {
                    if matches!(expected_return_type, Type::Void) {
                        Ok(())
                    } else {
                        Err(
                            SemanticError::TypeMismatch {
                                expected: TypeExpectation::Exact(clone_type(expected_return_type)),
                                found: FoundTypes::Single(Type::Void),
                                site: MismatchSite::ReturnValue,
                            },
                        )
                    }
                },
                Some(e0) => {
                    let expr_type = match context.infer_expression_type(e0) {
                        Ok(t) => t,
                        Err(e) => {
                            return Err(e);
                        },
                    };
                    // a valued return against a Void return type is a
                    // mismatch whichever type the value has
                    if matches!(expected_return_type, Type::Void) || !context.types_compatible(
                        &expr_type,
                        expected_return_type,
                    ) {
                        return Err(
                            SemanticError::TypeMismatch {
                                expected: TypeExpectation::Exact(clone_type(expected_return_type)),
                                found: FoundTypes::Single(expr_type),
                                site: MismatchSite::ReturnValue,
                            },
                        );
                    }
                    Ok(())
                },
            }
        },
    }
}

/// Validates a statement list in order, threading the context.
fn analyze_statements(
    context: &mut SemanticContext,
    stmts: &Vec<Statement>,
    expected_return_type: &Type,
) -> (r: Result<(), SemanticError>)
    requires
        old(context)@.scopes.len() > 0,
    ensures
        (match r {
            Ok(_) => spec_validate_statements(old(context)@, stmts@, expected_return_type@, 0)
                == Ok::<ContextView, ErrorView>(final(context)@) && final(context)@.scopes.len()
                == old(context)@.scopes.len() && same_but_scopes(final(context)@, old(context)@),
            Err(e) => spec_validate_statements(old(context)@, stmts@, expected_return_type@, 0)
                == Err::<ContextView, ErrorView>(e@)
                && same_but_scopes(final(context)@, old(context)@),
        }),
    decreases stmts@, stmts@.len() + 2,
{
    let n = stmts.len();
    let mut i: usize = 0;
    while i < n
        invariant
            i <= n,
            n == stmts@.len(),
            context@.scopes.len() == old(context)@.scopes.len() > 0,
            context@.realms == old(context)@.realms,
            context@.current_realm == old(context)@.current_realm,
            context@.current_being == old(context)@.current_being,
            context@.current_ritual == old(context)@.current_ritual,
            spec_validate_statements(old(context)@, stmts@, expected_return_type@, 0)
                == spec_validate_statements(context@, stmts@, expected_return_type@, i as int),
        decreases n - i,
    {
        match analyze_statement(context, &stmts[i], expected_return_type) {
            Ok(_) => {},
            Err(e) => {
                return Err(e);
            },
        }
        i += 1;
    }
    Ok(())
}

/// Validates one ritual's body against its already-registered
/// signature: makes the ritual current, opens a scope, binds its
/// parameters, validates its body, requires a top-level `Return` when
/// the return type is not `Void`, and closes the scope.
fn validate_ritual_body(context: &mut SemanticContext, ritual: &Ritual) -> (r: Result<
    (),
    SemanticError,
>)
    requires
        old(context)@.scopes.len() > 0,
    ensures
        (match r {
            Ok(_) => spec_validate_ritual_body(old(context)@, *ritual) == Ok::<
                ContextView,
                ErrorView,
            >(final(context)@) && final(context)@.scopes.len() == old(context)@.scopes.len()
                && final(context)@.realms == old(context)@.realms
                && final(context)@.current_realm == old(context)@.current_realm
                && final(context)@.current_being == old(context)@.current_being,
            Err(e) => spec_validate_ritual_body(old(context)@, *ritual) == Err::<
                ContextView,
                ErrorView,
            >(e@),
        }),
{
    let ghost c0 = context@;
    context.current_ritual = Some(ritual.name.clone());
    proof {
        assert(context@ =~= (ContextView { current_ritual: Some(ritual.name@), ..c0 }));
    }
    context.enter_scope();
    let ghost c2 = context@;
    let pn = ritual.parameters.len();
    let mut i: usize = 0;
    while i < pn
        invariant
            i <= pn,
            pn == ritual.parameters@.len(),
            c0 == old(context)@,
            c2 == spec_enter(ContextView { current_ritual: Some(ritual.name@), ..c0 }),
            context@.scopes.len() == c2.scopes.len() > 0,
            context@.realms == c2.realms,
            context@.current_realm == c2.current_realm,
            context@.current_being == c2.current_being,
            context@.current_ritual == c2.current_ritual,
            spec_bind_parameters(c2, ritual.parameters@, 0) == spec_bind_parameters(
                context@,
                ritual.parameters@,
                i as int,
            ),
        decreases pn - i,
    {
        match context.add_variable(
            ritual.parameters[i].name.as_str(),
            clone_type(&ritual.parameters[i].var_type),
        ) {
            Ok(_) => {},
            Err(e) => {
                return Err(e);
            },
        }
        i += 1;
    }
    match analyze_statements(context, &ritual.body, &ritual.return_type) {
        Ok(_) => {},
        Err(e) => {
            return Err(e);
        },
    }
    let bn = ritual.body.len();
    let mut has_return = false;
    let mut k: usize = 0;
    while k < bn
        invariant
            k <= bn,
            bn == ritual.body@.len(),
            has_return == exists|m: int| 0 <= m < k && (ritual.body@[m] is Return),
        decreases bn - k,
    {
        if matches!(&ritual.body[k], Statement::Return(_)) {
            has_return = true;
        }
        k += 1;
    }
    proof {
        assert(has_return == has_top_level_return(ritual.body@));
    }
    if !matches!(&ritual.return_type, Type::Void) && !has_return {
        return Err(
            SemanticError::MissingReturn {
                ritual: ritual.name.clone(),
                return_type: clone_type(&ritual.return_type),
            },
        );
    }
    context.exit_scope();
    Ok(())
}

/// Analyzes one being: registers it, then its member variables, then
/// every ritual's signature, and only then validates the ritual
/// bodies — so a body may call any ritual of its being, those declared
/// after it included.
fn analyze_being(context: &mut SemanticContext, being: &Being) -> (r: Result<(), SemanticError>)
    requires
        has_current_realm(old(context)@),
        old(context)@.scopes.len() > 0,
    ensures
        (match r {
            Ok(_) => spec_analyze_being(old(context)@, *being) == Ok::<ContextView, ErrorView>(
                final(context)@,
            ) && final(context)@.scopes.len() == old(context)@.scopes.len() && has_current_realm(
                final(context)@,
            ) && final(context)@.current_realm == old(context)@.current_realm,
            Err(e) => spec_analyze_being(old(context)@, *being) == Err::<ContextView, ErrorView>(
                e@,
            ),
        }),
{
    let ghost c0 = context@;
    match context.add_being(being.name.as_str()) {
        Ok(_) => {},
        Err(e) => {
            return Err(e);
        },
    }
    let ghost c1 = context@;
    let vn = being.variables.len();
    let mut i: usize = 0;
    while i < vn
        invariant
            i <= vn,
            vn == being.variables@.len(),
            c0 == old(context)@,
            spec_add_being(c0, being.name@) == Ok::<ContextView, ErrorView>(c1),
            has_current_being(context@),
            context@.scopes.len() == c1.scopes.len() > 0,
            context@.current_realm == c1.current_realm,
            context@.current_being == c1.current_being,
            spec_add_being_variables(c1, being.variables@, 0) == spec_add_being_variables(
                context@,
                being.variables@,
                i as int,
            ),
        decreases vn - i,
    {
        match context.add_being_variable(&being.variables[i]) {
            Ok(_) => {},
            Err(e) => {
                return Err(e);
            },
        }
        i += 1;
    }
    let ghost c2 = context@;
    let rn = being.rituals.len();
    let mut j: usize = 0;
    while j < rn
        invariant
            j <= rn,
            rn == being.rituals@.len(),
            c0 == old(context)@,
            spec_add_being(c0, being.name@) == Ok::<ContextView, ErrorView>(c1),
            spec_add_being_variables(c1, being.variables@, 0) == Ok::<ContextView, ErrorView>(c2),
            has_current_being(context@),
            context@.scopes.len() == c2.scopes.len() > 0,
            context@.current_realm == c2.current_realm,
            context@.current_being == c2.current_being,
            spec_register_rituals(c2, being.rituals@, 0) == spec_register_rituals(
                context@,
                being.rituals@,
                j as int,
            ),
        decreases rn - j,
    {
        match context.add_ritual(&being.rituals[j]) {
            Ok(_) => {},
            Err(e) => {
                return Err(e);
            },
        }
        j += 1;
    }
    let ghost c3 = context@;
    let mut k: usize = 0;
    while k < rn
        invariant
            k <= rn,
            rn == being.rituals@.len(),
            c0 == old(context)@,
            spec_add_being(c0, being.name@) == Ok::<ContextView, ErrorView>(c1),
            spec_add_being_variables(c1, being.variables@, 0) == Ok::<ContextView, ErrorView>(c2),
            spec_register_rituals(c2, being.rituals@, 0) == Ok::<ContextView, ErrorView>(c3),
            has_current_realm(context@),
            context@.scopes.len() == c3.scopes.len() > 0,
            context@.realms == c3.realms,
            context@.current_realm == c3.current_realm,
            context@.current_being == c3.current_being,
            spec_validate_ritual_bodies(c3, being.rituals@, 0) == spec_validate_ritual_bodies(
                context@,
                being.rituals@,
                k as int,
            ),
        decreases rn - k,
    {
        match validate_ritual_body(context, &being.rituals[k]) {
            Ok(_) => {},
            Err(e) => {
                return Err(e);
            },
        }
        k += 1;
    }
    Ok(())
}

/// Analyzes one realm: registers it, then its beings in order.
fn analyze_realm(context: &mut SemanticContext, realm: &Realm) -> (r: Result<(), SemanticError>)
    requires
        old(context)@.scopes.len() > 0,
    ensures
        (match r {
            Ok(_) => spec_analyze_realm(old(context)@, *realm) == Ok::<ContextView, ErrorView>(
                final(context)@,
            ) && final(context)@.scopes.len() == old(context)@.scopes.len(),
            Err(e) => spec_analyze_realm(old(context)@, *realm) == Err::<ContextView, ErrorView>(
                e@,
            ),
        }),
{
    match context.add_realm(realm.name.as_str()) {
        Ok(_) => {},
        Err(e) => {
            return Err(e);
        },
    }
    let ghost c1 = context@;
    let bn = realm.beings.len();
    let mut i: usize = 0;
    while i < bn
        invariant
            i <= bn,
            bn == realm.beings@.len(),
            spec_add_realm(old(context)@, realm.name@) == Ok::<ContextView, ErrorView>(c1),
            has_current_realm(context@),
            context@.scopes.len() == c1.scopes.len() > 0,
            spec_analyze_beings(c1, realm.beings@, 0) == spec_analyze_beings(
                context@,
                realm.beings@,
                i as int,
            ),
        decreases bn - i,
    {
        match analyze_being(context, &realm.beings[i]) {
            Ok(_) => {},
            Err(e) => {
                return Err(e);
            },
        }
        i += 1;
    }
    Ok(())
}

/// Analyzes a whole compilation unit in one depth-first pass over a
/// fresh context: success, or exactly the first violation met in
/// traversal order.
pub fn analyze_program(program: &Program) -> (r: Result<(), SemanticError>)
    ensures
        (match r {
            Ok(_) => spec_analyze_program(*program) is Ok,
            Err(e) => spec_analyze_program(*program) == Err::<(), ErrorView>(e@),
        }),
{
    let mut context = SemanticContext::new();
    let rn = program.realms.len();
    let mut i: usize = 0;
    while i < rn
        invariant
            i <= rn,
            rn == program.realms@.len(),
            context@.scopes.len() > 0,
            spec_analyze_realms(initial_context(), program.realms@, 0) == spec_analyze_realms(
                context@,
                program.realms@,
                i as int,
            ),
        decreases rn - i,
    {
        match analyze_realm(&mut context, &program.realms[i]) {
            Ok(_) => {},
            Err(e) => {
                return Err(e);
            },
        }
        i += 1;
    }
    Ok(())
}

} // verus!
