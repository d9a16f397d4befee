use crate::decl_store::{TyConstantDecl, TyFunctionDecl, TyTraitType};
use crate::type_engine::{TypeEngine, TypeId, TypeInfo};
use vstd::prelude::*;

verus! {

/// One write into a hash sink, as a value.
pub enum HashToken {
    Word(u64),
    Text(Seq<char>),
}

/// One write into a hash sink.
#[derive(Debug, PartialEq, Eq)]
pub enum HashWrite {
    Word(u64),
    Text(String),
}

impl HashWrite {
    pub open spec fn token(&self) -> HashToken {
        match self {
            HashWrite::Word(w) => HashToken::Word(*w),
            HashWrite::Text(s) => HashToken::Text(s@),
        }
    }
}

/// Receives the writes that hashing a value makes. Whatever hash function is
/// run over it, equal write sequences give equal hashes.
pub struct HashSink {
    pub writes: Vec<HashWrite>,
}

impl HashSink {
    pub open spec fn tokens(&self) -> Seq<HashToken> {
        self.writes@.map_values(|w: HashWrite| w.token())
    }

    pub fn new() -> (r: HashSink)
        ensures
            r.tokens().len() == 0,
    {
        HashSink { writes: Vec::new() }
    }

    pub fn write_u64(&mut self, w: u64)
        ensures
            final(self).tokens() == old(self).tokens().push(HashToken::Word(w)),
    {
        self.writes.push(HashWrite::Word(w));
        assert(self.tokens() =~= old(self).tokens().push(HashToken::Word(w)));
    }

    pub fn write_str(&mut self, s: &String)
        ensures
            final(self).tokens() == old(self).tokens().push(HashToken::Text(s@)),
    {
        self.writes.push(HashWrite::Text(s.clone()));
        assert(self.tokens() =~= old(self).tokens().push(HashToken::Text(s@)));
    }
}

/// The writes for a sequence: the writes for each element, in order.
pub open spec fn seq_tokens<A>(s: Seq<A>, f: spec_fn(A) -> Seq<HashToken>) -> Seq<HashToken>
    decreases s.len(),
{
    if s.len() == 0 {
        Seq::empty()
    } else {
        seq_tokens(s.drop_last(), f) + f(s.last())
    }
}

/// Sequences whose elements hash alike position by position hash alike.
pub proof fn lemma_seq_tokens_congruent<A>(
    a: Seq<A>,
    b: Seq<A>,
    f: spec_fn(A) -> Seq<HashToken>,
)
    requires
        a.len() == b.len(),
        forall|i: int| 0 <= i < a.len() ==> f(#[trigger] a[i]) == f(b[i]),
    ensures
        seq_tokens(a, f) == seq_tokens(b, f),
    decreases a.len(),
{
    if a.len() > 0 {
        assert(f(a[a.len() - 1]) == f(b[b.len() - 1]));
        lemma_seq_tokens_congruent(a.drop_last(), b.drop_last(), f);
    }
}

/// One more element of a prefix adds that element's writes.
pub proof fn lemma_seq_tokens_step<A>(s: Seq<A>, i: int, f: spec_fn(A) -> Seq<HashToken>)
    requires
        0 <= i < s.len(),
    ensures
        seq_tokens(s.take(i + 1), f) == seq_tokens(s.take(i), f) + f(s[i]),
{
    assert(s.take(i + 1).drop_last() =~= s.take(i));
}

pub open spec fn info_tokens(info: TypeInfo) -> Seq<HashToken> {
    match info {
        TypeInfo::Unknown => seq![HashToken::Word(0)],
        TypeInfo::Generic(n) => seq![HashToken::Word(1), HashToken::Word(n as u64)],
        TypeInfo::UnsignedInteger(bits) => seq![HashToken::Word(2), HashToken::Word(bits as u64)],
        TypeInfo::Boolean => seq![HashToken::Word(3)],
        TypeInfo::Unit => seq![HashToken::Word(4)],
        TypeInfo::B256 => seq![HashToken::Word(5)],
        TypeInfo::StringSlice => seq![HashToken::Word(6)],
    }
}

pub open spec fn type_tokens(engine: &TypeEngine, t: TypeId) -> Seq<HashToken> {
    info_tokens(engine.resolve(t))
}

pub open spec fn type_tokens_of(engine: TypeEngine) -> spec_fn(TypeId) -> Seq<HashToken> {
    |t: TypeId| type_tokens(&engine, t)
}

pub open spec fn types_tokens(engine: &TypeEngine, s: Seq<TypeId>) -> Seq<HashToken> {
    seq![HashToken::Word(s.len() as u64)] + seq_tokens(s, type_tokens_of(*engine))
}

pub open spec fn opt_type_tokens(engine: &TypeEngine, t: Option<TypeId>) -> Seq<HashToken> {
    match t {
        Some(x) => seq![HashToken::Word(1)] + type_tokens(engine, x),
        None => seq![HashToken::Word(0)],
    }
}

pub fn hash_type(sink: &mut HashSink, engine: &TypeEngine, t: TypeId)
    ensures
        final(sink).tokens() == old(sink).tokens() + type_tokens(engine, t),
{
    let info = engine.get(t);
    match info {
        TypeInfo::Unknown => sink.write_u64(0),
        TypeInfo::Generic(n) => {
            sink.write_u64(1);
            sink.write_u64(n as u64);
        },
        TypeInfo::UnsignedInteger(bits) => {
            sink.write_u64(2);
            sink.write_u64(bits as u64);
        },
        TypeInfo::Boolean => sink.write_u64(3),
        TypeInfo::Unit => sink.write_u64(4),
        TypeInfo::B256 => sink.write_u64(5),
        TypeInfo::StringSlice => sink.write_u64(6),
    }
    assert(final(sink).tokens() =~= old(sink).tokens() + type_tokens(engine, t));
}

pub fn hash_types(sink: &mut HashSink, engine: &TypeEngine, s: &Vec<TypeId>)
    ensures
        final(sink).tokens() == old(sink).tokens() + types_tokens(engine, s@),
{
    let ghost f = type_tokens_of(*engine);
    sink.write_u64(s.len() as u64);
    let ghost start = sink.tokens();
    let mut i: usize = 0;
    assert(s@.take(0) =~= Seq::<TypeId>::empty());
    assert(start =~= start + seq_tokens(s@.take(0), f));
    while i < s.len()
        invariant
            0 <= i <= s@.len(),
            sink.tokens() == start + seq_tokens(s@.take(i as int), f),
            f == type_tokens_of(*engine),
        decreases s@.len() - i,
    {
        hash_type(sink, engine, s[i]);
        proof {
            lemma_seq_tokens_step(s@, i as int, f);
            assert(f(s@[i as int]) == type_tokens(engine, s@[i as int]));
        }
        assert(sink.tokens() =~= start + seq_tokens(s@.take(i + 1), f));
        i = i + 1;
    }
    assert(s@.take(s@.len() as int) =~= s@);
    assert(final(sink).tokens() =~= old(sink).tokens() + types_tokens(engine, s@));
}

pub fn hash_opt_type(sink: &mut HashSink, engine: &TypeEngine, t: Option<TypeId>)
    ensures
        final(sink).tokens() == old(sink).tokens() + opt_type_tokens(engine, t),
{
    match t {
        Some(x) => {
            sink.write_u64(1);
            hash_type(sink, engine, x);
        },
        None => sink.write_u64(0),
    }
    assert(final(sink).tokens() =~= old(sink).tokens() + opt_type_tokens(engine, t));
}

/// Types that denote the same type position by position hash alike.
pub proof fn lemma_types_tokens(engine: &TypeEngine, a: Seq<TypeId>, b: Seq<TypeId>)
    requires
        a.len() == b.len(),
        forall|i: int| 0 <= i < a.len() ==> engine.same_type(#[trigger] a[i], b[i]),
    ensures
        types_tokens(engine, a) == types_tokens(engine, b),
{
    let f = type_tokens_of(*engine);
    assert forall|i: int| 0 <= i < a.len() implies f(#[trigger] a[i]) == f(b[i]) by {
        assert(engine.same_type(a[i], b[i]));
    }
    lemma_seq_tokens_congruent(a, b, f);
}

impl TyFunctionDecl {
    pub open spec fn tokens(&self, engine: &TypeEngine) -> Seq<HashToken> {
        seq![HashToken::Text(self.name.text())] + types_tokens(engine, self.parameters@)
            + type_tokens(engine, self.return_type) + opt_type_tokens(engine, self.body_type)
    }

    pub fn hash(&self, sink: &mut HashSink, engine: &TypeEngine)
        ensures
            final(sink).tokens() == old(sink).tokens() + self.tokens(engine),
    {
        sink.write_str(&self.name.name);
        hash_types(sink, engine, &self.parameters);
        hash_type(sink, engine, self.return_type);
        hash_opt_type(sink, engine, self.body_type);
        assert(final(sink).tokens() =~= old(sink).tokens() + self.tokens(engine));
    }

    /// Functions equal under the engine hash alike.
    pub proof fn lemma_hash_consistent(&self, other: &TyFunctionDecl, engine: &TypeEngine)
        requires
            self.equal_in(other, engine),
        ensures
            self.tokens(engine) == other.tokens(engine),
    {
        lemma_types_tokens(engine, self.parameters@, other.parameters@);
    }
}

impl TyConstantDecl {
    pub open spec fn tokens(&self, engine: &TypeEngine) -> Seq<HashToken> {
        seq![HashToken::Text(self.name.text())] + type_tokens(engine, self.type_id)
            + opt_type_tokens(engine, self.value_type)
    }

    pub fn hash(&self, sink: &mut HashSink, engine: &TypeEngine)
        ensures
            final(sink).tokens() == old(sink).tokens() + self.tokens(engine),
    {
        sink.write_str(&self.name.name);
        hash_type(sink, engine, self.type_id);
        hash_opt_type(sink, engine, self.value_type);
        assert(final(sink).tokens() =~= old(sink).tokens() + self.tokens(engine));
    }
}

impl TyTraitType {
    pub open spec fn tokens(&self, engine: &TypeEngine) -> Seq<HashToken> {
        seq![HashToken::Text(self.name.text())] + opt_type_tokens(engine, self.ty)
    }

    pub fn hash(&self, sink: &mut HashSink, engine: &TypeEngine)
        ensures
            final(sink).tokens() == old(sink).tokens() + self.tokens(engine),
    {
        sink.write_str(&self.name.name);
        hash_opt_type(sink, engine, self.ty);
        assert(final(sink).tokens() =~= old(sink).tokens() + self.tokens(engine));
    }
}

} // verus!
