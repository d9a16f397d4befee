use vstd::prelude::*;

verus! {

/// Identity of an entry of the type engine.
#[derive(Clone, Copy, Debug, PartialEq, Eq, Structural)]
pub struct TypeId {
    pub index: usize,
}

/// The shape that a type identity resolves to.
#[derive(Clone, Copy, Debug, PartialEq, Eq, Structural)]
pub enum TypeInfo {
    /// Not yet known; also what an identity the engine never issued resolves to.
    Unknown,
    /// A generic type variable, numbered within its compilation unit.
    Generic(u32),
    /// An unsigned integer of the given width in bits.
    UnsignedInteger(u8),
    Boolean,
    Unit,
    B256,
    StringSlice,
}

/// Interns type shapes and hands out identities for them. Distinct
/// identities may resolve to the same shape; comparisons go by the shape.
pub struct TypeEngine {
    pub types: Vec<TypeInfo>,
}

impl TypeEngine {
    pub open spec fn resolve(&self, id: TypeId) -> TypeInfo {
        if id.index < self.types@.len() {
            self.types@[id.index as int]
        } else {
            TypeInfo::Unknown
        }
    }

    /// Two identities denote the same type.
    pub open spec fn same_type(&self, a: TypeId, b: TypeId) -> bool {
        self.resolve(a) == self.resolve(b)
    }

    pub fn new() -> (r: TypeEngine)
        ensures
            r.types@.len() == 0,
    {
        TypeEngine { types: Vec::new() }
    }

    pub fn insert(&mut self, info: TypeInfo) -> (r: TypeId)
        requires
            old(self).types@.len() < usize::MAX,
        ensures
            r.index == old(self).types@.len(),
            final(self).types@ == old(self).types@.push(info),
            final(self).resolve(r) == info,
    {
        let index = self.types.len();
        self.types.push(info);
        TypeId { index }
    }

    pub fn get(&self, id: TypeId) -> (r: TypeInfo)
        ensures
            r == self.resolve(id),
    {
        if id.index < self.types.len() {
            self.types[id.index]
        } else {
            TypeInfo::Unknown
        }
    }

    pub fn eq_types(&self, a: TypeId, b: TypeId) -> (r: bool)
        ensures
            r == self.same_type(a, b),
    {
        self.get(a) == self.get(b)
    }
}

/// A mapping from type-variable identity to the identity that replaces it.
/// Where a key occurs twice, its first entry counts.
pub struct TypeSubstMap {
    pub entries: Vec<(TypeId, TypeId)>,
}

/// What `t` becomes under the entries of a substitution map.
pub open spec fn subst_type(entries: Seq<(TypeId, TypeId)>, t: TypeId) -> TypeId
    decreases entries.len(),
{
    if entries.len() == 0 {
        t
    } else if entries[0].0 == t {
        entries[0].1
    } else {
        subst_type(entries.drop_first(), t)
    }
}

impl TypeSubstMap {
    pub open spec fn view(&self) -> Seq<(TypeId, TypeId)> {
        self.entries@
    }

    pub open spec fn apply_spec(&self, t: TypeId) -> TypeId {
        subst_type(self.entries@, t)
    }

    pub fn new() -> (r: TypeSubstMap)
        ensures
            r.entries@.len() == 0,
    {
        TypeSubstMap { entries: Vec::new() }
    }

    pub fn insert(&mut self, from: TypeId, to: TypeId)
        ensures
            final(self).entries@ == old(self).entries@.push((from, to)),
    {
        self.entries.push((from, to));
    }

    pub fn is_empty(&self) -> (r: bool)
        ensures
            r == (self.entries@.len() == 0),
    {
        self.entries.len() == 0
    }

    pub fn apply(&self, t: TypeId) -> (r: TypeId)
        ensures
            r == self.apply_spec(t),
    {
        let mut i: usize = 0;
        assert(self.entries@.skip(0) =~= self.entries@);
        while i < self.entries.len()
            invariant
                0 <= i <= self.entries@.len(),
                subst_type(self.entries@, t) == subst_type(self.entries@.skip(i as int), t),
            decreases self.entries@.len() - i,
        {
            let (from, to) = self.entries[i];
            assert(self.entries@.skip(i as int).drop_first() =~= self.entries@.skip(i + 1));
            if from == t {
                return to;
            }
            i = i + 1;
        }
        t
    }
}

/// A generic parameter of a declaration: its name and the type variable
/// that stands for it.
pub struct TypeParameter {
    pub name: crate::ident::Ident,
    pub type_id: TypeId,
}

impl TypeParameter {
    /// The parameter with its type variable substituted.
    pub fn subst(&self, map: &TypeSubstMap) -> (r: TypeParameter)
        ensures
            r.name == self.name,
            r.type_id == map.apply_spec(self.type_id),
    {
        TypeParameter { name: self.name.clone(), type_id: map.apply(self.type_id) }
    }

    pub fn eq_in(&self, other: &TypeParameter, engine: &TypeEngine) -> (r: bool)
        ensures
            r == (self.name.text() == other.name.text() && engine.same_type(
                self.type_id,
                other.type_id,
            )),
    {
        self.name.same_name(&other.name) && engine.eq_types(self.type_id, other.type_id)
    }
}

} // verus!
