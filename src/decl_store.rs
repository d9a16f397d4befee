use crate::diagnostics::{Diagnostic, ErrorEmitted, Handler};
use crate::ident::{Ident, Span};
use crate::type_engine::{TypeEngine, TypeId, TypeSubstMap};
use vstd::prelude::*;

verus! {

/// What an optional type becomes under a substitution map.
pub open spec fn subst_opt(map: &TypeSubstMap, t: Option<TypeId>) -> Option<TypeId> {
    match t {
        Some(x) => Some(map.apply_spec(x)),
        None => None,
    }
}

/// Two optional types are both absent or denote the same type.
pub open spec fn same_opt_type(engine: &TypeEngine, a: Option<TypeId>, b: Option<TypeId>) -> bool {
    match (a, b) {
        (Some(x), Some(y)) => engine.same_type(x, y),
        (None, None) => true,
        _ => false,
    }
}

/// Two lists of types agree position by position.
pub open spec fn same_types(engine: &TypeEngine, a: Seq<TypeId>, b: Seq<TypeId>) -> bool {
    &&& a.len() == b.len()
    &&& forall|i: int| 0 <= i < a.len() ==> engine.same_type(#[trigger] a[i], b[i])
}

pub fn subst_opt_type(map: &TypeSubstMap, t: Option<TypeId>) -> (r: Option<TypeId>)
    ensures
        r == subst_opt(map, t),
{
    match t {
        Some(x) => Some(map.apply(x)),
        None => None,
    }
}

pub fn eq_opt_types(engine: &TypeEngine, a: Option<TypeId>, b: Option<TypeId>) -> (r: bool)
    ensures
        r == same_opt_type(engine, a, b),
{
    match (a, b) {
        (Some(x), Some(y)) => engine.eq_types(x, y),
        (None, None) => true,
        _ => false,
    }
}

pub fn subst_type_ids(v: &Vec<TypeId>, map: &TypeSubstMap) -> (r: Vec<TypeId>)
    ensures
        r@ == v@.map_values(|t: TypeId| map.apply_spec(t)),
{
    let mut r: Vec<TypeId> = Vec::new();
    let mut i: usize = 0;
    while i < v.len()
        invariant
            0 <= i <= v@.len(),
            r@ == v@.take(i as int).map_values(|t: TypeId| map.apply_spec(t)),
        decreases v@.len() - i,
    {
        r.push(map.apply(v[i]));
        assert(v@.take(i + 1) =~= v@.take(i as int).push(v@[i as int]));
        i = i + 1;
        assert(r@ =~= v@.take(i as int).map_values(|t: TypeId| map.apply_spec(t)));
    }
    assert(v@.take(v@.len() as int) =~= v@);
    r
}

pub fn eq_type_ids(engine: &TypeEngine, a: &Vec<TypeId>, b: &Vec<TypeId>) -> (r: bool)
    ensures
        r == same_types(engine, a@, b@),
{
    if a.len() != b.len() {
        return false;
    }
    let mut i: usize = 0;
    while i < a.len()
        invariant
            a@.len() == b@.len(),
            0 <= i <= a@.len(),
            forall|j: int| 0 <= j < i ==> engine.same_type(#[trigger] a@[j], b@[j]),
        decreases a@.len() - i,
    {
        if !engine.eq_types(a[i], b[i]) {
            return false;
        }
        i = i + 1;
    }
    true
}

/// A function: a signature of a trait's interface (no body) or a function
/// with a body.
pub struct TyFunctionDecl {
    pub name: Ident,
    pub parameters: Vec<TypeId>,
    pub return_type: TypeId,
    /// The type that the body was inferred to have, if there is a body.
    pub body_type: Option<TypeId>,
    /// The type whose implementation the function belongs to, once known.
    pub implementing_type: Option<TypeId>,
    /// Set once the deferred checks of the body have passed.
    pub checked: bool,
    pub span: Span,
}

impl TyFunctionDecl {
    pub open spec fn identical(&self, other: &TyFunctionDecl) -> bool {
        &&& self.name == other.name
        &&& self.parameters@ == other.parameters@
        &&& self.return_type == other.return_type
        &&& self.body_type == other.body_type
        &&& self.implementing_type == other.implementing_type
        &&& self.checked == other.checked
        &&& self.span == other.span
    }

    /// Equality under the type engine; spans and bookkeeping play no part.
    pub open spec fn equal_in(&self, other: &TyFunctionDecl, engine: &TypeEngine) -> bool {
        &&& self.name.text() == other.name.text()
        &&& same_types(engine, self.parameters@, other.parameters@)
        &&& engine.same_type(self.return_type, other.return_type)
        &&& same_opt_type(engine, self.body_type, other.body_type)
    }

    /// `self` is `orig` with every type substituted by `map`.
    pub open spec fn is_subst_of(&self, orig: &TyFunctionDecl, map: &TypeSubstMap) -> bool {
        &&& self.name == orig.name
        &&& self.parameters@ == orig.parameters@.map_values(|t: TypeId| map.apply_spec(t))
        &&& self.return_type == map.apply_spec(orig.return_type)
        &&& self.body_type == subst_opt(map, orig.body_type)
        &&& self.implementing_type == orig.implementing_type
        &&& self.checked == orig.checked
        &&& self.span == orig.span
    }

    /// `self` is `orig` marked as checked.
    pub open spec fn marks_checked(&self, orig: &TyFunctionDecl) -> bool {
        &&& self.name == orig.name
        &&& self.parameters@ == orig.parameters@
        &&& self.return_type == orig.return_type
        &&& self.body_type == orig.body_type
        &&& self.implementing_type == orig.implementing_type
        &&& self.span == orig.span
        &&& self.checked
    }

    /// The deferred checks pass: a body has the declared return type.
    pub open spec fn finalizes(&self, engine: &TypeEngine) -> bool {
        match self.body_type {
            Some(b) => engine.same_type(b, self.return_type),
            None => true,
        }
    }

    pub fn duplicate(&self) -> (r: TyFunctionDecl)
        ensures
            r.identical(self),
    {
        let identity = TypeSubstMap::new();
        let parameters = subst_type_ids(&self.parameters, &identity);
        assert(parameters@ =~= self.parameters@) by {
            assert forall|i: int| 0 <= i < parameters@.len() implies parameters@[i]
                == self.parameters@[i] by {
                assert(identity.apply_spec(self.parameters@[i]) == self.parameters@[i]);
            }
        }
        TyFunctionDecl {
            name: self.name.clone(),
            parameters,
            return_type: self.return_type,
            body_type: self.body_type,
            implementing_type: self.implementing_type,
            checked: self.checked,
            span: self.span,
        }
    }

    pub fn eq_in(&self, other: &TyFunctionDecl, engine: &TypeEngine) -> (r: bool)
        ensures
            r == self.equal_in(other, engine),
    {
        self.name.same_name(&other.name) && eq_type_ids(engine, &self.parameters, &other.parameters)
            && engine.eq_types(self.return_type, other.return_type) && eq_opt_types(
            engine,
            self.body_type,
            other.body_type,
        )
    }

    pub fn subst(&self, map: &TypeSubstMap) -> (r: TyFunctionDecl)
        ensures
            r.is_subst_of(self, map),
    {
        TyFunctionDecl {
            name: self.name.clone(),
            parameters: subst_type_ids(&self.parameters, map),
            return_type: map.apply(self.return_type),
            body_type: subst_opt_type(map, self.body_type),
            implementing_type: self.implementing_type,
            checked: self.checked,
            span: self.span,
        }
    }

    /// Runs the deferred checks. On success the function is marked checked;
    /// on failure one diagnostic is emitted and the function is left as it was.
    pub fn type_check_finalize(&mut self, handler: &mut Handler, engine: &TypeEngine) -> (r: Result<
        (),
        ErrorEmitted,
    >)
        ensures
            r.is_ok() == old(self).finalizes(engine),
            r.is_ok() ==> final(handler).diagnostics@ == old(handler).diagnostics@,
            r.is_ok() ==> final(self).marks_checked(old(self)),
            r.is_err() ==> final(self).identical(old(self)),
            r.is_err() ==> final(handler).diagnostics@.len() == old(handler).diagnostics@.len() + 1,
    {
        match self.body_type {
            Some(b) => {
                if !engine.eq_types(b, self.return_type) {
                    let d = Diagnostic {
                        span: self.span,
                        expected: engine.get(self.return_type),
                        found: engine.get(b),
                    };
                    return Err(handler.emit_err(d));
                }
            },
            None => {},
        }
        self.checked = true;
        Ok(())
    }
}

/// A constant: its declared type and, where it has a value, the type that
/// the value was inferred to have.
pub struct TyConstantDecl {
    pub name: Ident,
    pub type_id: TypeId,
    pub value_type: Option<TypeId>,
    pub checked: bool,
    pub span: Span,
}

impl TyConstantDecl {
    pub open spec fn equal_in(&self, other: &TyConstantDecl, engine: &TypeEngine) -> bool {
        &&& self.name.text() == other.name.text()
        &&& engine.same_type(self.type_id, other.type_id)
        &&& same_opt_type(engine, self.value_type, other.value_type)
    }

    pub open spec fn is_subst_of(&self, orig: &TyConstantDecl, map: &TypeSubstMap) -> bool {
        &&& self.name == orig.name
        &&& self.type_id == map.apply_spec(orig.type_id)
        &&& self.value_type == subst_opt(map, orig.value_type)
        &&& self.checked == orig.checked
        &&& self.span == orig.span
    }

    pub open spec fn marks_checked(&self, orig: &TyConstantDecl) -> bool {
        *self == (TyConstantDecl { checked: true, ..*orig })
    }

    pub open spec fn finalizes(&self, engine: &TypeEngine) -> bool {
        match self.value_type {
            Some(v) => engine.same_type(v, self.type_id),
            None => true,
        }
    }

    pub fn eq_in(&self, other: &TyConstantDecl, engine: &TypeEngine) -> (r: bool)
        ensures
            r == self.equal_in(other, engine),
    {
        self.name.same_name(&other.name) && engine.eq_types(self.type_id, other.type_id)
            && eq_opt_types(engine, self.value_type, other.value_type)
    }

    pub fn subst(&self, map: &TypeSubstMap) -> (r: TyConstantDecl)
        ensures
            r.is_subst_of(self, map),
    {
        TyConstantDecl {
            name: self.name.clone(),
            type_id: map.apply(self.type_id),
            value_type: subst_opt_type(map, self.value_type),
            checked: self.checked,
            span: self.span,
        }
    }

    /// Runs the deferred checks: a value has the declared type.
    pub fn type_check_finalize(&mut self, handler: &mut Handler, engine: &TypeEngine) -> (r: Result<
        (),
        ErrorEmitted,
    >)
        ensures
            r.is_ok() == old(self).finalizes(engine),
            r.is_ok() ==> final(handler).diagnostics@ == old(handler).diagnostics@,
            r.is_ok() ==> final(self).marks_checked(old(self)),
            r.is_err() ==> *final(self) == *old(self),
            r.is_err() ==> final(handler).diagnostics@.len() == old(handler).diagnostics@.len() + 1,
    {
        match self.value_type {
            Some(v) => {
                if !engine.eq_types(v, self.type_id) {
                    let d = Diagnostic {
                        span: self.span,
                        expected: engine.get(self.type_id),
                        found: engine.get(v),
                    };
                    return Err(handler.emit_err(d));
                }
            },
            None => {},
        }
        self.checked = true;
        Ok(())
    }
}

impl Clone for TyConstantDecl {
    fn clone(&self) -> (r: TyConstantDecl)
        ensures
            r == *self,
    {
        TyConstantDecl {
            name: self.name.clone(),
            type_id: self.type_id,
            value_type: self.value_type,
            checked: self.checked,
            span: self.span,
        }
    }
}

/// An associated type of a trait, with its definition where one is given.
pub struct TyTraitType {
    pub name: Ident,
    pub ty: Option<TypeId>,
    pub span: Span,
}

impl TyTraitType {
    pub open spec fn equal_in(&self, other: &TyTraitType, engine: &TypeEngine) -> bool {
        &&& self.name.text() == other.name.text()
        &&& same_opt_type(engine, self.ty, other.ty)
    }

    pub open spec fn is_subst_of(&self, orig: &TyTraitType, map: &TypeSubstMap) -> bool {
        &&& self.name == orig.name
        &&& self.ty == subst_opt(map, orig.ty)
        &&& self.span == orig.span
    }

    pub fn eq_in(&self, other: &TyTraitType, engine: &TypeEngine) -> (r: bool)
        ensures
            r == self.equal_in(other, engine),
    {
        self.name.same_name(&other.name) && eq_opt_types(engine, self.ty, other.ty)
    }

    pub fn subst(&self, map: &TypeSubstMap) -> (r: TyTraitType)
        ensures
            r.is_subst_of(self, map),
    {
        TyTraitType { name: self.name.clone(), ty: subst_opt_type(map, self.ty), span: self.span }
    }
}

impl Clone for TyTraitType {
    fn clone(&self) -> (r: TyTraitType)
        ensures
            r == *self,
    {
        TyTraitType { name: self.name.clone(), ty: self.ty, span: self.span }
    }
}

} // verus!

verus! {

/// One entry of an arena of the store: the body, and the entry it was
/// instantiated from, where it was.
pub struct Slot<T> {
    pub decl: T,
    pub parent: Option<usize>,
}

/// The identity of an entry of the store, with its kind.
#[derive(Clone, Copy, Debug, PartialEq, Eq, Structural)]
pub enum DeclId {
    Function(usize),
    Constant(usize),
    TraitType(usize),
}

/// A handle to an entry of the store. The name and span are cached for
/// diagnostics; the body is always read through the store.
pub struct DeclRef {
    pub id: usize,
    pub name: Ident,
    pub span: Span,
}

impl DeclRef {
    pub fn new(id: usize, name: Ident, span: Span) -> (r: DeclRef)
        ensures
            r.id == id,
            r.name == name,
            r.span == span,
    {
        DeclRef { id, name, span }
    }

    /// The same name and span, pointing at another entry.
    pub fn replace_id(&mut self, id: usize)
        ensures
            final(self).id == id,
            final(self).name == old(self).name,
            final(self).span == old(self).span,
    {
        self.id = id;
    }
}

impl Clone for DeclRef {
    fn clone(&self) -> (r: DeclRef)
        ensures
            r == *self,
    {
        DeclRef { id: self.id, name: self.name.clone(), span: self.span }
    }
}

/// The arena of declaration bodies. Entries are only ever added or
/// overwritten in place, so a handle stays valid once issued.
pub struct DeclStore {
    pub functions: Vec<Slot<TyFunctionDecl>>,
    pub constants: Vec<Slot<TyConstantDecl>>,
    pub trait_types: Vec<Slot<TyTraitType>>,
}

impl DeclStore {
    pub open spec fn function(&self, id: usize) -> TyFunctionDecl {
        self.functions@[id as int].decl
    }

    pub open spec fn constant(&self, id: usize) -> TyConstantDecl {
        self.constants@[id as int].decl
    }

    pub open spec fn trait_type(&self, id: usize) -> TyTraitType {
        self.trait_types@[id as int].decl
    }

    pub open spec fn has(&self, id: DeclId) -> bool {
        match id {
            DeclId::Function(i) => i < self.functions@.len(),
            DeclId::Constant(i) => i < self.constants@.len(),
            DeclId::TraitType(i) => i < self.trait_types@.len(),
        }
    }

    /// `self` holds every entry of `before` unchanged, and perhaps more.
    pub open spec fn extends(&self, before: &DeclStore) -> bool {
        &&& self.functions@.len() >= before.functions@.len()
        &&& self.constants@.len() >= before.constants@.len()
        &&& self.trait_types@.len() >= before.trait_types@.len()
        &&& forall|i: int|
            0 <= i < before.functions@.len() ==> #[trigger] self.functions@[i]
                == before.functions@[i]
        &&& forall|i: int|
            0 <= i < before.constants@.len() ==> #[trigger] self.constants@[i]
                == before.constants@[i]
        &&& forall|i: int|
            0 <= i < before.trait_types@.len() ==> #[trigger] self.trait_types@[i]
                == before.trait_types@[i]
    }

    /// `self` is `before` with some bodies marked as checked and nothing else
    /// changed.
    pub open spec fn refines_checked(&self, before: &DeclStore) -> bool {
        &&& self.functions@.len() == before.functions@.len()
        &&& self.constants@.len() == before.constants@.len()
        &&& self.trait_types@ == before.trait_types@
        &&& forall|k: int|
            0 <= k < before.functions@.len() ==> (#[trigger] self.functions@[k]).parent
                == before.functions@[k].parent && (self.functions@[k].decl.identical(
                &before.functions@[k].decl,
            ) || self.functions@[k].decl.marks_checked(&before.functions@[k].decl))
        &&& forall|k: int|
            0 <= k < before.constants@.len() ==> (#[trigger] self.constants@[k]).parent
                == before.constants@[k].parent && (self.constants@[k].decl
                == before.constants@[k].decl || self.constants@[k].decl.marks_checked(
                &before.constants@[k].decl,
            ))
    }

    pub fn new() -> (r: DeclStore)
        ensures
            r.functions@.len() == 0,
            r.constants@.len() == 0,
            r.trait_types@.len() == 0,
    {
        DeclStore { functions: Vec::new(), constants: Vec::new(), trait_types: Vec::new() }
    }

    pub fn insert_function(&mut self, decl: TyFunctionDecl) -> (r: usize)
        requires
            old(self).functions@.len() < usize::MAX,
        ensures
            r == old(self).functions@.len(),
            final(self).functions@ == old(self).functions@.push(Slot { decl, parent: None }),
            final(self).constants == old(self).constants,
            final(self).trait_types == old(self).trait_types,
    {
        let r = self.functions.len();
        self.functions.push(Slot { decl, parent: None });
        r
    }

    pub fn insert_constant(&mut self, decl: TyConstantDecl) -> (r: usize)
        requires
            old(self).constants@.len() < usize::MAX,
        ensures
            r == old(self).constants@.len(),
            final(self).constants@ == old(self).constants@.push(Slot { decl, parent: None }),
            final(self).functions == old(self).functions,
            final(self).trait_types == old(self).trait_types,
    {
        let r = self.constants.len();
        self.constants.push(Slot { decl, parent: None });
        r
    }

    pub fn insert_trait_type(&mut self, decl: TyTraitType) -> (r: usize)
        requires
            old(self).trait_types@.len() < usize::MAX,
        ensures
            r == old(self).trait_types@.len(),
            final(self).trait_types@ == old(self).trait_types@.push(Slot { decl, parent: None }),
            final(self).functions == old(self).functions,
            final(self).constants == old(self).constants,
    {
        let r = self.trait_types.len();
        self.trait_types.push(Slot { decl, parent: None });
        r
    }

    pub fn get_function(&self, id: usize) -> (r: TyFunctionDecl)
        requires
            id < self.functions@.len(),
        ensures
            r.identical(&self.function(id)),
    {
        self.functions[id].decl.duplicate()
    }

    pub fn get_constant(&self, id: usize) -> (r: TyConstantDecl)
        requires
            id < self.constants@.len(),
        ensures
            r == self.constant(id),
    {
        self.constants[id].decl.clone()
    }

    pub fn get_trait_type(&self, id: usize) -> (r: TyTraitType)
        requires
            id < self.trait_types@.len(),
        ensures
            r == self.trait_type(id),
    {
        self.trait_types[id].decl.clone()
    }

    /// Overwrites the body at `id`; the handle and its parent stay.
    pub fn replace_function(&mut self, id: usize, decl: TyFunctionDecl)
        requires
            id < old(self).functions@.len(),
        ensures
            final(self).functions@ == old(self).functions@.update(
                id as int,
                Slot { decl, parent: old(self).functions@[id as int].parent },
            ),
            final(self).constants == old(self).constants,
            final(self).trait_types == old(self).trait_types,
    {
        let parent = self.functions[id].parent;
        self.functions.set(id, Slot { decl, parent });
    }

    pub fn replace_constant(&mut self, id: usize, decl: TyConstantDecl)
        requires
            id < old(self).constants@.len(),
        ensures
            final(self).constants@ == old(self).constants@.update(
                id as int,
                Slot { decl, parent: old(self).constants@[id as int].parent },
            ),
            final(self).functions == old(self).functions,
            final(self).trait_types == old(self).trait_types,
    {
        let parent = self.constants[id].parent;
        self.constants.set(id, Slot { decl, parent });
    }

    pub fn replace_trait_type(&mut self, id: usize, decl: TyTraitType)
        requires
            id < old(self).trait_types@.len(),
        ensures
            final(self).trait_types@ == old(self).trait_types@.update(
                id as int,
                Slot { decl, parent: old(self).trait_types@[id as int].parent },
            ),
            final(self).functions == old(self).functions,
            final(self).constants == old(self).constants,
    {
        let parent = self.trait_types[id].parent;
        self.trait_types.set(id, Slot { decl, parent });
    }

    /// Adds a copy of the function at `id` with its types substituted, and
    /// returns the new entry's identity. With `with_parent` the copy records
    /// `id` as the entry it was instantiated from.
    pub fn subst_function_and_insert(&mut self, id: usize, map: &TypeSubstMap, with_parent: bool) -> (r: usize)
        requires
            id < old(self).functions@.len(),
            old(self).functions@.len() < usize::MAX,
        ensures
            r == old(self).functions@.len(),
            final(self).functions@.len() == r + 1,
            final(self).function(r).is_subst_of(&old(self).function(id), map),
            final(self).functions@[r as int].parent == (if with_parent {
                Some(id)
            } else {
                None
            }),
            final(self).functions@.drop_last() == old(self).functions@,
            final(self).extends(old(self)),
            final(self).constants == old(self).constants,
            final(self).trait_types == old(self).trait_types,
    {
        let decl = self.functions[id].decl.subst(map);
        let r = self.functions.len();
        let parent = if with_parent {
            Some(id)
        } else {
            None
        };
        self.functions.push(Slot { decl, parent });
        assert(self.functions@.drop_last() =~= old(self).functions@);
        assert forall|i: int| 0 <= i < old(self).functions@.len() implies #[trigger] self.functions@[i]
            == old(self).functions@[i] by {
            assert(self.functions@.drop_last()[i] == self.functions@[i]);
        }
        r
    }

    pub fn subst_constant_and_insert(&mut self, id: usize, map: &TypeSubstMap, with_parent: bool) -> (r: usize)
        requires
            id < old(self).constants@.len(),
            old(self).constants@.len() < usize::MAX,
        ensures
            r == old(self).constants@.len(),
            final(self).constants@.len() == r + 1,
            final(self).constant(r).is_subst_of(&old(self).constant(id), map),
            final(self).constants@[r as int].parent == (if with_parent {
                Some(id)
            } else {
                None
            }),
            final(self).constants@.drop_last() == old(self).constants@,
            final(self).extends(old(self)),
            final(self).functions == old(self).functions,
            final(self).trait_types == old(self).trait_types,
    {
        let decl = self.constants[id].decl.subst(map);
        let r = self.constants.len();
        let parent = if with_parent {
            Some(id)
        } else {
            None
        };
        self.constants.push(Slot { decl, parent });
        assert(self.constants@.drop_last() =~= old(self).constants@);
        assert forall|i: int| 0 <= i < old(self).constants@.len() implies #[trigger] self.constants@[i]
            == old(self).constants@[i] by {
            assert(self.constants@.drop_last()[i] == self.constants@[i]);
        }
        r
    }

    pub fn subst_trait_type_and_insert(&mut self, id: usize, map: &TypeSubstMap, with_parent: bool) -> (r: usize)
        requires
            id < old(self).trait_types@.len(),
            old(self).trait_types@.len() < usize::MAX,
        ensures
            r == old(self).trait_types@.len(),
            final(self).trait_types@.len() == r + 1,
            final(self).trait_type(r).is_subst_of(&old(self).trait_type(id), map),
            final(self).trait_types@[r as int].parent == (if with_parent {
                Some(id)
            } else {
                None
            }),
            final(self).trait_types@.drop_last() == old(self).trait_types@,
            final(self).extends(old(self)),
            final(self).functions == old(self).functions,
            final(self).constants == old(self).constants,
    {
        let decl = self.trait_types[id].decl.subst(map);
        let r = self.trait_types.len();
        let parent = if with_parent {
            Some(id)
        } else {
            None
        };
        self.trait_types.push(Slot { decl, parent });
        assert(self.trait_types@.drop_last() =~= old(self).trait_types@);
        assert forall|i: int| 0 <= i < old(self).trait_types@.len() implies #[trigger] self.trait_types@[i]
            == old(self).trait_types@[i] by {
            assert(self.trait_types@.drop_last()[i] == self.trait_types@[i]);
        }
        r
    }
}

/// Extension is transitive.
pub proof fn lemma_extends_trans(a: &DeclStore, b: &DeclStore, c: &DeclStore)
    requires
        b.extends(a),
        c.extends(b),
    ensures
        c.extends(a),
{
}

/// Marking as checked composes.
pub proof fn lemma_refines_trans(a: &DeclStore, b: &DeclStore, c: &DeclStore)
    requires
        b.refines_checked(a),
        c.refines_checked(b),
    ensures
        c.refines_checked(a),
{
    assert forall|k: int| 0 <= k < a.functions@.len() implies (#[trigger] c.functions@[k]).parent
        == a.functions@[k].parent && (c.functions@[k].decl.identical(&a.functions@[k].decl)
        || c.functions@[k].decl.marks_checked(&a.functions@[k].decl)) by {
        assert(b.functions@[k].parent == a.functions@[k].parent);
    }
    assert forall|k: int| 0 <= k < a.constants@.len() implies (#[trigger] c.constants@[k]).parent
        == a.constants@[k].parent && (c.constants@[k].decl == a.constants@[k].decl
        || c.constants@[k].decl.marks_checked(&a.constants@[k].decl)) by {
        assert(b.constants@[k].parent == a.constants@[k].parent);
    }
}

/// The old-to-new correspondence of handles built while substituting.
pub struct DeclMapping {
    pub entries: Vec<(DeclId, DeclId)>,
}

impl DeclMapping {
    pub open spec fn has_key(&self, old_id: DeclId) -> bool {
        exists|i: int| 0 <= i < self.entries@.len() && (#[trigger] self.entries@[i]).0 == old_id
    }

    pub fn new() -> (r: DeclMapping)
        ensures
            r.entries@.len() == 0,
    {
        DeclMapping { entries: Vec::new() }
    }

    pub fn insert(&mut self, old_id: DeclId, new_id: DeclId)
        ensures
            final(self).entries@ == old(self).entries@.push((old_id, new_id)),
    {
        self.entries.push((old_id, new_id));
    }

    /// The new identity recorded for `old_id`, the first where there are several.
    pub fn find(&self, old_id: DeclId) -> (r: Option<DeclId>)
        ensures
            r.is_some() == self.has_key(old_id),
            r matches Some(n) ==> exists|i: int|
                0 <= i < self.entries@.len() && #[trigger] self.entries@[i] == (old_id, n) && forall|
                    j: int,
                | 0 <= j < i ==> (#[trigger] self.entries@[j]).0 != old_id,
    {
        let mut i: usize = 0;
        while i < self.entries.len()
            invariant
                0 <= i <= self.entries@.len(),
                forall|j: int| 0 <= j < i ==> (#[trigger] self.entries@[j]).0 != old_id,
            decreases self.entries@.len() - i,
        {
            let (o, n) = self.entries[i];
            if o == old_id {
                assert(self.entries@[i as int] == (old_id, n));
                return Some(n);
            }
            i = i + 1;
        }
        None
    }
}

/// The context that every comparison, hash and substitution is made in.
pub struct Engines {
    pub te: TypeEngine,
    pub de: DeclStore,
}

} // verus!
