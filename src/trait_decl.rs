use crate::decl_store::{DeclId, DeclRef, DeclStore, Engines, same_types};
use crate::hashing::{
    HashSink, HashToken, hash_type, lemma_seq_tokens_congruent, lemma_seq_tokens_step, seq_tokens,
    type_tokens,
};
use crate::ident::{Ident, Span};
use crate::type_engine::{TypeEngine, TypeParameter};
use vstd::prelude::*;

verus! {

/// A supertrait as written: a name, not yet resolved to a declaration.
pub struct Supertrait {
    pub name: Ident,
}

#[derive(Clone, Copy, Debug, PartialEq, Eq, Structural)]
pub enum Visibility {
    Private,
    Public,
}

/// An attribute attached to a declaration; presentation only.
pub struct Attribute {
    pub name: Ident,
}

/// A required member of a trait: a function signature, a constant or an
/// associated type, held in the store.
pub enum TyTraitInterfaceItem {
    TraitFn(DeclRef),
    Constant(DeclRef),
    Type(DeclRef),
}

/// A provided member of a trait, with its body, held in the store.
pub enum TyTraitItem {
    Fn(DeclRef),
    Constant(DeclRef),
    Type(DeclRef),
}

/// A trait declaration after type checking.
pub struct TyTraitDecl {
    pub name: Ident,
    pub type_parameters: Vec<TypeParameter>,
    /// The implicit parameter that stands for the implementing type.
    pub self_type: TypeParameter,
    pub interface_surface: Vec<TyTraitInterfaceItem>,
    pub items: Vec<TyTraitItem>,
    pub supertraits: Vec<Supertrait>,
    pub visibility: Visibility,
    pub attributes: Vec<Attribute>,
    pub span: Span,
}

impl TyTraitInterfaceItem {
    pub open spec fn handle(&self) -> DeclRef {
        match self {
            TyTraitInterfaceItem::TraitFn(r) => *r,
            TyTraitInterfaceItem::Constant(r) => *r,
            TyTraitInterfaceItem::Type(r) => *r,
        }
    }

    pub open spec fn decl_id(&self) -> DeclId {
        match self {
            TyTraitInterfaceItem::TraitFn(r) => DeclId::Function(r.id),
            TyTraitInterfaceItem::Constant(r) => DeclId::Constant(r.id),
            TyTraitInterfaceItem::Type(r) => DeclId::TraitType(r.id),
        }
    }

    pub open spec fn valid_in(&self, de: &DeclStore) -> bool {
        de.has(self.decl_id())
    }

    /// The same kind of member, with bodies equal under the engines.
    pub open spec fn equal_in(&self, other: &TyTraitInterfaceItem, engines: &Engines) -> bool {
        match (self, other) {
            (TyTraitInterfaceItem::TraitFn(a), TyTraitInterfaceItem::TraitFn(b)) => engines.de.function(
                a.id,
            ).equal_in(&engines.de.function(b.id), &engines.te),
            (TyTraitInterfaceItem::Constant(a), TyTraitInterfaceItem::Constant(b)) => engines.de.constant(
                a.id,
            ).equal_in(&engines.de.constant(b.id), &engines.te),
            (TyTraitInterfaceItem::Type(a), TyTraitInterfaceItem::Type(b)) => engines.de.trait_type(
                a.id,
            ).equal_in(&engines.de.trait_type(b.id), &engines.te),
            _ => false,
        }
    }

    pub open spec fn tokens(&self, engines: &Engines) -> Seq<HashToken> {
        match self {
            TyTraitInterfaceItem::TraitFn(r) => seq![HashToken::Word(0)] + engines.de.function(
                r.id,
            ).tokens(&engines.te),
            TyTraitInterfaceItem::Constant(r) => seq![HashToken::Word(1)] + engines.de.constant(
                r.id,
            ).tokens(&engines.te),
            TyTraitInterfaceItem::Type(r) => seq![HashToken::Word(2)] + engines.de.trait_type(
                r.id,
            ).tokens(&engines.te),
        }
    }

    pub fn eq(&self, other: &TyTraitInterfaceItem, engines: &Engines) -> (r: bool)
        requires
            self.valid_in(&engines.de),
            other.valid_in(&engines.de),
        ensures
            r == self.equal_in(other, engines),
    {
        match (self, other) {
            (TyTraitInterfaceItem::TraitFn(a), TyTraitInterfaceItem::TraitFn(b)) => {
                engines.de.functions[a.id].decl.eq_in(&engines.de.functions[b.id].decl, &engines.te)
            },
            (TyTraitInterfaceItem::Constant(a), TyTraitInterfaceItem::Constant(b)) => {
                engines.de.constants[a.id].decl.eq_in(&engines.de.constants[b.id].decl, &engines.te)
            },
            (TyTraitInterfaceItem::Type(a), TyTraitInterfaceItem::Type(b)) => {
                engines.de.trait_types[a.id].decl.eq_in(
                    &engines.de.trait_types[b.id].decl,
                    &engines.te,
                )
            },
            _ => false,
        }
    }

    pub fn hash(&self, sink: &mut HashSink, engines: &Engines)
        requires
            self.valid_in(&engines.de),
        ensures
            final(sink).tokens() == old(sink).tokens() + self.tokens(engines),
    {
        match self {
            TyTraitInterfaceItem::TraitFn(r) => {
                sink.write_u64(0);
                engines.de.functions[r.id].decl.hash(sink, &engines.te);
            },
            TyTraitInterfaceItem::Constant(r) => {
                sink.write_u64(1);
                engines.de.constants[r.id].decl.hash(sink, &engines.te);
            },
            TyTraitInterfaceItem::Type(r) => {
                sink.write_u64(2);
                engines.de.trait_types[r.id].decl.hash(sink, &engines.te);
            },
        }
        assert(final(sink).tokens() =~= old(sink).tokens() + self.tokens(engines));
    }

    pub proof fn lemma_hash_consistent(&self, other: &TyTraitInterfaceItem, engines: &Engines)
        requires
            self.equal_in(other, engines),
        ensures
            self.tokens(engines) == other.tokens(engines),
    {
        match (self, other) {
            (TyTraitInterfaceItem::TraitFn(a), TyTraitInterfaceItem::TraitFn(b)) => {
                engines.de.function(a.id).lemma_hash_consistent(
                    &engines.de.function(b.id),
                    &engines.te,
                );
            },
            _ => {},
        }
    }
}

impl TyTraitItem {
    pub open spec fn handle(&self) -> DeclRef {
        match self {
            TyTraitItem::Fn(r) => *r,
            TyTraitItem::Constant(r) => *r,
            TyTraitItem::Type(r) => *r,
        }
    }

    pub open spec fn decl_id(&self) -> DeclId {
        match self {
            TyTraitItem::Fn(r) => DeclId::Function(r.id),
            TyTraitItem::Constant(r) => DeclId::Constant(r.id),
            TyTraitItem::Type(r) => DeclId::TraitType(r.id),
        }
    }

    pub open spec fn valid_in(&self, de: &DeclStore) -> bool {
        de.has(self.decl_id())
    }

    pub open spec fn equal_in(&self, other: &TyTraitItem, engines: &Engines) -> bool {
        match (self, other) {
            (TyTraitItem::Fn(a), TyTraitItem::Fn(b)) => engines.de.function(a.id).equal_in(
                &engines.de.function(b.id),
                &engines.te,
            ),
            (TyTraitItem::Constant(a), TyTraitItem::Constant(b)) => engines.de.constant(
                a.id,
            ).equal_in(&engines.de.constant(b.id), &engines.te),
            (TyTraitItem::Type(a), TyTraitItem::Type(b)) => engines.de.trait_type(a.id).equal_in(
                &engines.de.trait_type(b.id),
                &engines.te,
            ),
            _ => false,
        }
    }

    pub open spec fn tokens(&self, engines: &Engines) -> Seq<HashToken> {
        match self {
            TyTraitItem::Fn(r) => seq![HashToken::Word(0)] + engines.de.function(r.id).tokens(
                &engines.te,
            ),
            TyTraitItem::Constant(r) => seq![HashToken::Word(1)] + engines.de.constant(
                r.id,
            ).tokens(&engines.te),
            TyTraitItem::Type(r) => seq![HashToken::Word(2)] + engines.de.trait_type(r.id).tokens(
                &engines.te,
            ),
        }
    }

    pub fn eq(&self, other: &TyTraitItem, engines: &Engines) -> (r: bool)
        requires
            self.valid_in(&engines.de),
            other.valid_in(&engines.de),
        ensures
            r == self.equal_in(other, engines),
    {
        match (self, other) {
            (TyTraitItem::Fn(a), TyTraitItem::Fn(b)) => {
                engines.de.functions[a.id].decl.eq_in(&engines.de.functions[b.id].decl, &engines.te)
            },
            (TyTraitItem::Constant(a), TyTraitItem::Constant(b)) => {
                engines.de.constants[a.id].decl.eq_in(&engines.de.constants[b.id].decl, &engines.te)
            },
            (TyTraitItem::Type(a), TyTraitItem::Type(b)) => {
                engines.de.trait_types[a.id].decl.eq_in(
                    &engines.de.trait_types[b.id].decl,
                    &engines.te,
                )
            },
            _ => false,
        }
    }

    pub fn hash(&self, sink: &mut HashSink, engines: &Engines)
        requires
            self.valid_in(&engines.de),
        ensures
            final(sink).tokens() == old(sink).tokens() + self.tokens(engines),
    {
        match self {
            TyTraitItem::Fn(r) => {
                sink.write_u64(0);
                engines.de.functions[r.id].decl.hash(sink, &engines.te);
            },
            TyTraitItem::Constant(r) => {
                sink.write_u64(1);
                engines.de.constants[r.id].decl.hash(sink, &engines.te);
            },
            TyTraitItem::Type(r) => {
                sink.write_u64(2);
                engines.de.trait_types[r.id].decl.hash(sink, &engines.te);
            },
        }
        assert(final(sink).tokens() =~= old(sink).tokens() + self.tokens(engines));
    }

    pub proof fn lemma_hash_consistent(&self, other: &TyTraitItem, engines: &Engines)
        requires
            self.equal_in(other, engines),
        ensures
            self.tokens(engines) == other.tokens(engines),
    {
        match (self, other) {
            (TyTraitItem::Fn(a), TyTraitItem::Fn(b)) => {
                engines.de.function(a.id).lemma_hash_consistent(
                    &engines.de.function(b.id),
                    &engines.te,
                );
            },
            _ => {},
        }
    }

    /// The span cached in the handle.
    pub fn span(&self) -> (r: Span)
        ensures
            r == self.handle().span,
    {
        match self {
            TyTraitItem::Fn(r) => r.span,
            TyTraitItem::Constant(r) => r.span,
            TyTraitItem::Type(r) => r.span,
        }
    }
}

} // verus!

verus! {

pub open spec fn param_tokens_of(engine: TypeEngine) -> spec_fn(TypeParameter) -> Seq<HashToken> {
    |p: TypeParameter| seq![HashToken::Text(p.name.text())] + type_tokens(&engine, p.type_id)
}

pub open spec fn surface_tokens_of(engines: Engines) -> spec_fn(TyTraitInterfaceItem) -> Seq<
    HashToken,
> {
    |i: TyTraitInterfaceItem| i.tokens(&engines)
}

pub open spec fn item_tokens_of(engines: Engines) -> spec_fn(TyTraitItem) -> Seq<HashToken> {
    |i: TyTraitItem| i.tokens(&engines)
}

pub open spec fn supertrait_tokens_of() -> spec_fn(Supertrait) -> Seq<HashToken> {
    |s: Supertrait| seq![HashToken::Text(s.name.text())]
}

/// A list's writes: its length, then each element's.
pub open spec fn list_tokens<A>(s: Seq<A>, f: spec_fn(A) -> Seq<HashToken>) -> Seq<HashToken> {
    seq![HashToken::Word(s.len() as u64)] + seq_tokens(s, f)
}

pub open spec fn visibility_word(v: Visibility) -> u64 {
    match v {
        Visibility::Private => 0,
        Visibility::Public => 1,
    }
}

pub open spec fn params_equal(engine: &TypeEngine, a: Seq<TypeParameter>, b: Seq<TypeParameter>) -> bool {
    &&& a.len() == b.len()
    &&& forall|i: int|
        0 <= i < a.len() ==> (#[trigger] a[i]).name.text() == b[i].name.text() && engine.same_type(
            a[i].type_id,
            b[i].type_id,
        )
}

pub open spec fn surfaces_equal(
    engines: &Engines,
    a: Seq<TyTraitInterfaceItem>,
    b: Seq<TyTraitInterfaceItem>,
) -> bool {
    &&& a.len() == b.len()
    &&& forall|i: int| 0 <= i < a.len() ==> (#[trigger] a[i]).equal_in(&b[i], engines)
}

pub open spec fn items_equal(engines: &Engines, a: Seq<TyTraitItem>, b: Seq<TyTraitItem>) -> bool {
    &&& a.len() == b.len()
    &&& forall|i: int| 0 <= i < a.len() ==> (#[trigger] a[i]).equal_in(&b[i], engines)
}

pub open spec fn supertraits_equal(a: Seq<Supertrait>, b: Seq<Supertrait>) -> bool {
    &&& a.len() == b.len()
    &&& forall|i: int| 0 <= i < a.len() ==> (#[trigger] a[i]).name.text() == b[i].name.text()
}

impl TyTraitDecl {
    /// Every handle of the declaration points into `de`.
    pub open spec fn valid_in(&self, de: &DeclStore) -> bool {
        &&& forall|i: int|
            0 <= i < self.interface_surface@.len() ==> (#[trigger] self.interface_surface@[i]).valid_in(
                de,
            )
        &&& forall|i: int| 0 <= i < self.items@.len() ==> (#[trigger] self.items@[i]).valid_in(de)
    }

    /// Equality under the engines. The self parameter is the same implicit
    /// parameter in every trait and plays no part; neither do attributes and
    /// spans.
    pub open spec fn equal_in(&self, other: &TyTraitDecl, engines: &Engines) -> bool {
        &&& self.name.text() == other.name.text()
        &&& params_equal(&engines.te, self.type_parameters@, other.type_parameters@)
        &&& surfaces_equal(engines, self.interface_surface@, other.interface_surface@)
        &&& items_equal(engines, self.items@, other.items@)
        &&& supertraits_equal(self.supertraits@, other.supertraits@)
        &&& self.visibility == other.visibility
    }

    /// The writes that hashing the declaration makes: exactly what equality
    /// looks at.
    pub open spec fn tokens(&self, engines: &Engines) -> Seq<HashToken> {
        seq![HashToken::Text(self.name.text())] + list_tokens(
            self.type_parameters@,
            param_tokens_of(engines.te),
        ) + list_tokens(self.interface_surface@, surface_tokens_of(*engines)) + list_tokens(
            self.items@,
            item_tokens_of(*engines),
        ) + list_tokens(self.supertraits@, supertrait_tokens_of()) + seq![
            HashToken::Word(visibility_word(self.visibility)),
        ]
    }

    pub fn name(&self) -> (r: &Ident)
        ensures
            *r == self.name,
    {
        &self.name
    }

    pub fn span(&self) -> (r: Span)
        ensures
            r == self.span,
    {
        self.span
    }

    pub fn type_parameters(&self) -> (r: &Vec<TypeParameter>)
        ensures
            r@ == self.type_parameters@,
    {
        &self.type_parameters
    }

    /// A trait always has the implicit parameter for its implementing type.
    pub fn has_self_type_param(&self) -> (r: bool)
        ensures
            r,
    {
        true
    }

    pub fn eq(&self, other: &TyTraitDecl, engines: &Engines) -> (r: bool)
        requires
            self.valid_in(&engines.de),
            other.valid_in(&engines.de),
        ensures
            r == self.equal_in(other, engines),
    {
        self.name.same_name(&other.name) && eq_params(
            &self.type_parameters,
            &other.type_parameters,
            &engines.te,
        ) && eq_surfaces(&self.interface_surface, &other.interface_surface, engines)
            && eq_items(&self.items, &other.items, engines) && eq_supertraits(
            &self.supertraits,
            &other.supertraits,
        ) && self.visibility == other.visibility
    }

    pub fn hash(&self, sink: &mut HashSink, engines: &Engines)
        requires
            self.valid_in(&engines.de),
        ensures
            final(sink).tokens() == old(sink).tokens() + self.tokens(engines),
    {
        sink.write_str(&self.name.name);
        hash_params(sink, &self.type_parameters, &engines.te);
        hash_surface(sink, &self.interface_surface, engines);
        hash_items(sink, &self.items, engines);
        hash_supertraits(sink, &self.supertraits);
        let v: u64 = match self.visibility {
            Visibility::Private => 0,
            Visibility::Public => 1,
        };
        sink.write_u64(v);
        assert(final(sink).tokens() =~= old(sink).tokens() + self.tokens(engines));
    }
}

fn eq_params(a: &Vec<TypeParameter>, b: &Vec<TypeParameter>, engine: &TypeEngine) -> (r: bool)
    ensures
        r == params_equal(engine, a@, b@),
{
    if a.len() != b.len() {
        return false;
    }
    let mut i: usize = 0;
    while i < a.len()
        invariant
            a@.len() == b@.len(),
            0 <= i <= a@.len(),
            forall|j: int|
                0 <= j < i ==> (#[trigger] a@[j]).name.text() == b@[j].name.text()
                    && engine.same_type(a@[j].type_id, b@[j].type_id),
        decreases a@.len() - i,
    {
        if !a[i].eq_in(&b[i], engine) {
            return false;
        }
        i = i + 1;
    }
    true
}

fn eq_surfaces(a: &Vec<TyTraitInterfaceItem>, b: &Vec<TyTraitInterfaceItem>, engines: &Engines) -> (r: bool)
    requires
        forall|i: int| 0 <= i < a@.len() ==> (#[trigger] a@[i]).valid_in(&engines.de),
        forall|i: int| 0 <= i < b@.len() ==> (#[trigger] b@[i]).valid_in(&engines.de),
    ensures
        r == surfaces_equal(engines, a@, b@),
{
    if a.len() != b.len() {
        return false;
    }
    let mut i: usize = 0;
    while i < a.len()
        invariant
            a@.len() == b@.len(),
            0 <= i <= a@.len(),
            forall|j: int| 0 <= j < a@.len() ==> (#[trigger] a@[j]).valid_in(&engines.de),
            forall|j: int| 0 <= j < b@.len() ==> (#[trigger] b@[j]).valid_in(&engines.de),
            forall|j: int| 0 <= j < i ==> (#[trigger] a@[j]).equal_in(&b@[j], engines),
        decreases a@.len() - i,
    {
        if !a[i].eq(&b[i], engines) {
            return false;
        }
        i = i + 1;
    }
    true
}

fn eq_items(a: &Vec<TyTraitItem>, b: &Vec<TyTraitItem>, engines: &Engines) -> (r: bool)
    requires
        forall|i: int| 0 <= i < a@.len() ==> (#[trigger] a@[i]).valid_in(&engines.de),
        forall|i: int| 0 <= i < b@.len() ==> (#[trigger] b@[i]).valid_in(&engines.de),
    ensures
        r == items_equal(engines, a@, b@),
{
    if a.len() != b.len() {
        return false;
    }
    let mut i: usize = 0;
    while i < a.len()
        invariant
            a@.len() == b@.len(),
            0 <= i <= a@.len(),
            forall|j: int| 0 <= j < a@.len() ==> (#[trigger] a@[j]).valid_in(&engines.de),
            forall|j: int| 0 <= j < b@.len() ==> (#[trigger] b@[j]).valid_in(&engines.de),
            forall|j: int| 0 <= j < i ==> (#[trigger] a@[j]).equal_in(&b@[j], engines),
        decreases a@.len() - i,
    {
        if !a[i].eq(&b[i], engines) {
            return false;
        }
        i = i + 1;
    }
    true
}

fn eq_supertraits(a: &Vec<Supertrait>, b: &Vec<Supertrait>) -> (r: bool)
    ensures
        r == supertraits_equal(a@, b@),
{
    if a.len() != b.len() {
        return false;
    }
    let mut i: usize = 0;
    while i < a.len()
        invariant
            a@.len() == b@.len(),
            0 <= i <= a@.len(),
            forall|j: int| 0 <= j < i ==> (#[trigger] a@[j]).name.text() == b@[j].name.text(),
        decreases a@.len() - i,
    {
        if !a[i].name.same_name(&b[i].name) {
            return false;
        }
        i = i + 1;
    }
    true
}

fn hash_params(sink: &mut HashSink, s: &Vec<TypeParameter>, engine: &TypeEngine)
    ensures
        final(sink).tokens() == old(sink).tokens() + list_tokens(s@, param_tokens_of(*engine)),
{
    let ghost f = param_tokens_of(*engine);
    sink.write_u64(s.len() as u64);
    let ghost start = sink.tokens();
    let mut i: usize = 0;
    assert(s@.take(0) =~= Seq::<TypeParameter>::empty());
    assert(start =~= start + seq_tokens(s@.take(0), f));
    while i < s.len()
        invariant
            0 <= i <= s@.len(),
            sink.tokens() == start + seq_tokens(s@.take(i as int), f),
            f == param_tokens_of(*engine),
        decreases s@.len() - i,
    {
        sink.write_str(&s[i].name.name);
        hash_type(sink, engine, s[i].type_id);
        proof {
            lemma_seq_tokens_step(s@, i as int, f);
            assert(f(s@[i as int]) == seq![HashToken::Text(s@[i as int].name.text())] + type_tokens(
                engine,
                s@[i as int].type_id,
            ));
        }
        assert(sink.tokens() =~= start + seq_tokens(s@.take(i + 1), f));
        i = i + 1;
    }
    assert(s@.take(s@.len() as int) =~= s@);
    assert(final(sink).tokens() =~= old(sink).tokens() + list_tokens(s@, f));
}

fn hash_surface(sink: &mut HashSink, s: &Vec<TyTraitInterfaceItem>, engines: &Engines)
    requires
        forall|i: int| 0 <= i < s@.len() ==> (#[trigger] s@[i]).valid_in(&engines.de),
    ensures
        final(sink).tokens() == old(sink).tokens() + list_tokens(s@, surface_tokens_of(*engines)),
{
    let ghost f = surface_tokens_of(*engines);
    sink.write_u64(s.len() as u64);
    let ghost start = sink.tokens();
    let mut i: usize = 0;
    assert(s@.take(0) =~= Seq::<TyTraitInterfaceItem>::empty());
    assert(start =~= start + seq_tokens(s@.take(0), f));
    while i < s.len()
        invariant
            0 <= i <= s@.len(),
            forall|j: int| 0 <= j < s@.len() ==> (#[trigger] s@[j]).valid_in(&engines.de),
            sink.tokens() == start + seq_tokens(s@.take(i as int), f),
            f == surface_tokens_of(*engines),
        decreases s@.len() - i,
    {
        s[i].hash(sink, engines);
        proof {
            lemma_seq_tokens_step(s@, i as int, f);
            assert(f(s@[i as int]) == s@[i as int].tokens(engines));
        }
        assert(sink.tokens() =~= start + seq_tokens(s@.take(i + 1), f));
        i = i + 1;
    }
    assert(s@.take(s@.len() as int) =~= s@);
    assert(final(sink).tokens() =~= old(sink).tokens() + list_tokens(s@, f));
}

fn hash_items(sink: &mut HashSink, s: &Vec<TyTraitItem>, engines: &Engines)
    requires
        forall|i: int| 0 <= i < s@.len() ==> (#[trigger] s@[i]).valid_in(&engines.de),
    ensures
        final(sink).tokens() == old(sink).tokens() + list_tokens(s@, item_tokens_of(*engines)),
{
    let ghost f = item_tokens_of(*engines);
    sink.write_u64(s.len() as u64);
    let ghost start = sink.tokens();
    let mut i: usize = 0;
    assert(s@.take(0) =~= Seq::<TyTraitItem>::empty());
    assert(start =~= start + seq_tokens(s@.take(0), f));
    while i < s.len()
        invariant
            0 <= i <= s@.len(),
            forall|j: int| 0 <= j < s@.len() ==> (#[trigger] s@[j]).valid_in(&engines.de),
            sink.tokens() == start + seq_tokens(s@.take(i as int), f),
            f == item_tokens_of(*engines),
        decreases s@.len() - i,
    {
        s[i].hash(sink, engines);
        proof {
            lemma_seq_tokens_step(s@, i as int, f);
            assert(f(s@[i as int]) == s@[i as int].tokens(engines));
        }
        assert(sink.tokens() =~= start + seq_tokens(s@.take(i + 1), f));
        i = i + 1;
    }
    assert(s@.take(s@.len() as int) =~= s@);
    assert(final(sink).tokens() =~= old(sink).tokens() + list_tokens(s@, f));
}

fn hash_supertraits(sink: &mut HashSink, s: &Vec<Supertrait>)
    ensures
        final(sink).tokens() == old(sink).tokens() + list_tokens(s@, supertrait_tokens_of()),
{
    let ghost f = supertrait_tokens_of();
    sink.write_u64(s.len() as u64);
    let ghost start = sink.tokens();
    let mut i: usize = 0;
    assert(s@.take(0) =~= Seq::<Supertrait>::empty());
    assert(start =~= start + seq_tokens(s@.take(0), f));
    while i < s.len()
        invariant
            0 <= i <= s@.len(),
            sink.tokens() == start + seq_tokens(s@.take(i as int), f),
            f == supertrait_tokens_of(),
        decreases s@.len() - i,
    {
        sink.write_str(&s[i].name.name);
        proof {
            lemma_seq_tokens_step(s@, i as int, f);
            assert(f(s@[i as int]) == seq![HashToken::Text(s@[i as int].name.text())]);
        }
        assert(sink.tokens() =~= start + seq_tokens(s@.take(i + 1), f));
        i = i + 1;
    }
    assert(s@.take(s@.len() as int) =~= s@);
    assert(final(sink).tokens() =~= old(sink).tokens() + list_tokens(s@, f));
}

} // verus!

verus! {

/// Declarations that differ only in their spans and attributes are equal.
pub proof fn lemma_equal_ignores_presentation(a: &TyTraitDecl, b: &TyTraitDecl, engines: &Engines)
    requires
        a.name.text() == b.name.text(),
        a.type_parameters@ == b.type_parameters@,
        a.self_type == b.self_type,
        a.interface_surface@ == b.interface_surface@,
        a.items@ == b.items@,
        a.supertraits@ == b.supertraits@,
        a.visibility == b.visibility,
    ensures
        a.equal_in(b, engines),
{
    assert forall|i: int| 0 <= i < a.interface_surface@.len() implies (
    #[trigger] a.interface_surface@[i]).equal_in(&b.interface_surface@[i], engines) by {
        let x = a.interface_surface@[i];
        match x {
            TyTraitInterfaceItem::TraitFn(r) => {
                let f = engines.de.function(r.id);
                assert(same_types(&engines.te, f.parameters@, f.parameters@));
            },
            _ => {},
        }
    }
    assert forall|i: int| 0 <= i < a.items@.len() implies (#[trigger] a.items@[i]).equal_in(
        &b.items@[i],
        engines,
    ) by {
        let x = a.items@[i];
        match x {
            TyTraitItem::Fn(r) => {
                let f = engines.de.function(r.id);
                assert(same_types(&engines.te, f.parameters@, f.parameters@));
            },
            _ => {},
        }
    }
}

/// Swapping two provided items that are not equal to each other makes the
/// declaration unequal to the unswapped one: order is part of identity.
pub proof fn lemma_items_order_matters(
    a: &TyTraitDecl,
    b: &TyTraitDecl,
    engines: &Engines,
    i: int,
    j: int,
)
    requires
        0 <= i < a.items@.len(),
        0 <= j < a.items@.len(),
        i != j,
        b.items@ == a.items@.update(i, a.items@[j]).update(j, a.items@[i]),
        !a.items@[i].equal_in(&a.items@[j], engines),
    ensures
        !a.equal_in(b, engines),
{
    assert(b.items@[i] == a.items@[j]);
}

/// Swapping two members of the interface surface that are not equal to each
/// other makes the declaration unequal to the unswapped one.
pub proof fn lemma_surface_order_matters(
    a: &TyTraitDecl,
    b: &TyTraitDecl,
    engines: &Engines,
    i: int,
    j: int,
)
    requires
        0 <= i < a.interface_surface@.len(),
        0 <= j < a.interface_surface@.len(),
        i != j,
        b.interface_surface@ == a.interface_surface@.update(i, a.interface_surface@[j]).update(
            j,
            a.interface_surface@[i],
        ),
        !a.interface_surface@[i].equal_in(&a.interface_surface@[j], engines),
    ensures
        !a.equal_in(b, engines),
{
    assert(b.interface_surface@[i] == a.interface_surface@[j]);
}

/// Declarations equal under the engines make the same writes when hashed,
/// so they hash alike.
pub proof fn lemma_hash_consistent(a: &TyTraitDecl, b: &TyTraitDecl, engines: &Engines)
    requires
        a.equal_in(b, engines),
    ensures
        a.tokens(engines) == b.tokens(engines),
{
    let fp = param_tokens_of(engines.te);
    assert forall|i: int| 0 <= i < a.type_parameters@.len() implies fp(
        #[trigger] a.type_parameters@[i],
    ) == fp(b.type_parameters@[i]) by {
        assert(engines.te.same_type(a.type_parameters@[i].type_id, b.type_parameters@[i].type_id));
    }
    lemma_seq_tokens_congruent(a.type_parameters@, b.type_parameters@, fp);
    let fs = surface_tokens_of(*engines);
    assert forall|i: int| 0 <= i < a.interface_surface@.len() implies fs(
        #[trigger] a.interface_surface@[i],
    ) == fs(b.interface_surface@[i]) by {
        a.interface_surface@[i].lemma_hash_consistent(&b.interface_surface@[i], engines);
    }
    lemma_seq_tokens_congruent(a.interface_surface@, b.interface_surface@, fs);
    let fi = item_tokens_of(*engines);
    assert forall|i: int| 0 <= i < a.items@.len() implies fi(#[trigger] a.items@[i]) == fi(
        b.items@[i],
    ) by {
        a.items@[i].lemma_hash_consistent(&b.items@[i], engines);
    }
    lemma_seq_tokens_congruent(a.items@, b.items@, fi);
    let ft = supertrait_tokens_of();
    assert forall|i: int| 0 <= i < a.supertraits@.len() implies ft(#[trigger] a.supertraits@[i])
        == ft(b.supertraits@[i]) by {
        assert(a.supertraits@[i].name.text() == b.supertraits@[i].name.text());
    }
    lemma_seq_tokens_congruent(a.supertraits@, b.supertraits@, ft);
}

} // verus!
