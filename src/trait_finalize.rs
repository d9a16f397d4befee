use crate::decl_store::{DeclId, DeclStore, Engines, lemma_refines_trans};
use crate::diagnostics::{ErrorEmitted, Handler};
use crate::trait_decl::{TyTraitDecl, TyTraitItem};
use crate::type_engine::TypeEngine;
use vstd::prelude::*;

verus! {

impl TyTraitItem {
    /// The deferred checks of the body behind the handle pass.
    pub open spec fn finalizes(&self, de: &DeclStore, engine: &TypeEngine) -> bool {
        match self {
            TyTraitItem::Fn(r) => de.function(r.id).finalizes(engine),
            TyTraitItem::Constant(r) => de.constant(r.id).finalizes(engine),
            TyTraitItem::Type(_) => true,
        }
    }

    /// The body behind the handle is marked as checked; an associated type
    /// has nothing to check.
    pub open spec fn checked_in(&self, de: &DeclStore) -> bool {
        match self {
            TyTraitItem::Fn(r) => de.function(r.id).checked,
            TyTraitItem::Constant(r) => de.constant(r.id).checked,
            TyTraitItem::Type(_) => true,
        }
    }

    /// `after` is `before` with the body behind the handle marked as checked
    /// in place, under the same handle.
    pub open spec fn finalized_in(&self, before: &DeclStore, after: &DeclStore) -> bool {
        match self {
            TyTraitItem::Fn(r) => {
                &&& after.functions@.len() == before.functions@.len()
                &&& forall|k: int|
                    0 <= k < before.functions@.len() && k != r.id ==> #[trigger] after.functions@[k]
                        == before.functions@[k]
                &&& after.functions@[r.id as int].parent == before.functions@[r.id as int].parent
                &&& after.function(r.id).marks_checked(&before.function(r.id))
                &&& after.constants == before.constants
                &&& after.trait_types == before.trait_types
            },
            TyTraitItem::Constant(r) => {
                &&& after.constants@.len() == before.constants@.len()
                &&& forall|k: int|
                    0 <= k < before.constants@.len() && k != r.id ==> #[trigger] after.constants@[k]
                        == before.constants@[k]
                &&& after.constants@[r.id as int].parent == before.constants@[r.id as int].parent
                &&& after.constant(r.id).marks_checked(&before.constant(r.id))
                &&& after.functions == before.functions
                &&& after.trait_types == before.trait_types
            },
            TyTraitItem::Type(_) => *after == *before,
        }
    }

    /// Completes the deferred checks of the item: the body is fetched,
    /// finalized and written back under the same handle. On failure one
    /// diagnostic is emitted and the store is left as it was.
    pub fn type_check_finalize(&mut self, handler: &mut Handler, engines: &mut Engines) -> (r: Result<
        (),
        ErrorEmitted,
    >)
        requires
            old(self).valid_in(&old(engines).de),
        ensures
            *final(self) == *old(self),
            final(engines).te == old(engines).te,
            r.is_ok() == old(self).finalizes(&old(engines).de, &old(engines).te),
            r.is_ok() ==> old(self).finalized_in(&old(engines).de, &final(engines).de),
            r.is_ok() ==> final(handler).diagnostics@ == old(handler).diagnostics@,
            r.is_err() ==> final(engines).de == old(engines).de,
            r.is_err() ==> final(handler).diagnostics@.len() == old(handler).diagnostics@.len() + 1,
    {
        match self {
            TyTraitItem::Fn(node) => {
                let mut item_fn = engines.de.get_function(node.id);
                let res = item_fn.type_check_finalize(handler, &engines.te);
                match res {
                    Ok(()) => {},
                    Err(e) => return Err(e),
                }
                engines.de.replace_function(node.id, item_fn);
            },
            TyTraitItem::Constant(node) => {
                let mut item_const = engines.de.get_constant(node.id);
                let res = item_const.type_check_finalize(handler, &engines.te);
                match res {
                    Ok(()) => {},
                    Err(e) => return Err(e),
                }
                engines.de.replace_constant(node.id, item_const);
            },
            TyTraitItem::Type(_node) => {},
        }
        Ok(())
    }
}

/// The number of items whose deferred checks fail.
pub open spec fn failures(items: Seq<TyTraitItem>, de: &DeclStore, engine: &TypeEngine) -> nat
    decreases items.len(),
{
    if items.len() == 0 {
        0
    } else {
        failures(items.drop_last(), de, engine) + if items.last().finalizes(de, engine) {
            0nat
        } else {
            1nat
        }
    }
}

/// Some item of `items` holds the handle `id`.
pub open spec fn references(items: Seq<TyTraitItem>, id: DeclId) -> bool {
    exists|i: int| 0 <= i < items.len() && (#[trigger] items[i]).decl_id() == id
}

pub proof fn lemma_failures_zero(items: Seq<TyTraitItem>, de: &DeclStore, engine: &TypeEngine)
    ensures
        (failures(items, de, engine) == 0) == (forall|i: int|
            0 <= i < items.len() ==> (#[trigger] items[i]).finalizes(de, engine)),
    decreases items.len(),
{
    if items.len() > 0 {
        lemma_failures_zero(items.drop_last(), de, engine);
        if failures(items, de, engine) == 0 {
            assert forall|i: int| 0 <= i < items.len() implies (#[trigger] items[i]).finalizes(
                de,
                engine,
            ) by {
                if i < items.len() - 1 {
                    assert(items.drop_last()[i] == items[i]);
                }
            }
        } else if failures(items.drop_last(), de, engine) > 0 {
            let j = choose|j: int|
                0 <= j < items.drop_last().len() && !(#[trigger] items.drop_last()[j]).finalizes(
                    de,
                    engine,
                );
            assert(items[j] == items.drop_last()[j]);
        }
    }
}

/// Marking bodies as checked leaves what the deferred checks decide as it was.
pub proof fn lemma_finalizes_stable(item: &TyTraitItem, before: &DeclStore, after: &DeclStore, engine: &TypeEngine)
    requires
        after.refines_checked(before),
        item.valid_in(before),
    ensures
        item.finalizes(after, engine) == item.finalizes(before, engine),
{
    match item {
        TyTraitItem::Fn(r) => assert(after.functions@[r.id as int].parent == before.functions@[r.id as int].parent),
        TyTraitItem::Constant(r) => assert(after.constants@[r.id as int].parent == before.constants@[r.id as int].parent),
        TyTraitItem::Type(_) => {},
    }
}

} // verus!

verus! {

impl Clone for TyTraitItem {
    fn clone(&self) -> (r: TyTraitItem)
        ensures
            r == *self,
    {
        match self {
            TyTraitItem::Fn(d) => TyTraitItem::Fn(d.clone()),
            TyTraitItem::Constant(d) => TyTraitItem::Constant(d.clone()),
            TyTraitItem::Type(d) => TyTraitItem::Type(d.clone()),
        }
    }
}

pub proof fn lemma_finalized_refines(item: &TyTraitItem, before: &DeclStore, after: &DeclStore)
    requires
        item.valid_in(before),
        item.finalized_in(before, after),
    ensures
        after.refines_checked(before),
{
    match item {
        TyTraitItem::Fn(r) => {
            assert forall|k: int| 0 <= k < before.functions@.len() implies (
            #[trigger] after.functions@[k]).parent == before.functions@[k].parent && (
            after.functions@[k].decl.identical(&before.functions@[k].decl)
                || after.functions@[k].decl.marks_checked(&before.functions@[k].decl)) by {
                if k != r.id {
                    assert(after.functions@[k] == before.functions@[k]);
                }
            }
        },
        TyTraitItem::Constant(r) => {
            assert forall|k: int| 0 <= k < before.constants@.len() implies (
            #[trigger] after.constants@[k]).parent == before.constants@[k].parent && (
            after.constants@[k].decl == before.constants@[k].decl
                || after.constants@[k].decl.marks_checked(&before.constants@[k].decl)) by {
                if k != r.id {
                    assert(after.constants@[k] == before.constants@[k]);
                }
            }
        },
        TyTraitItem::Type(_) => {},
    }
}

pub proof fn lemma_checked_stable(item: &TyTraitItem, before: &DeclStore, after: &DeclStore)
    requires
        after.refines_checked(before),
        item.valid_in(before),
        item.checked_in(before),
    ensures
        item.checked_in(after),
{
    match item {
        TyTraitItem::Fn(r) => assert(after.functions@[r.id as int].parent == before.functions@[r.id as int].parent),
        TyTraitItem::Constant(r) => assert(after.constants@[r.id as int].parent == before.constants@[r.id as int].parent),
        TyTraitItem::Type(_) => {},
    }
}

impl TyTraitDecl {
    /// Completes the deferred checks of every provided item. A failing item
    /// emits its diagnostic and the pass goes on with the next; the result
    /// is a single error when any item failed.
    #[verifier::spinoff_prover]
    pub fn finalize_items(&self, handler: &mut Handler, engines: &mut Engines) -> (r: Result<
        (),
        ErrorEmitted,
    >)
        requires
            self.valid_in(&old(engines).de),
        ensures
            final(engines).te == old(engines).te,
            final(engines).de.refines_checked(&old(engines).de),
            r.is_ok() == (forall|i: int|
                0 <= i < self.items@.len() ==> (#[trigger] self.items@[i]).finalizes(
                    &old(engines).de,
                    &old(engines).te,
                )),
            final(handler).diagnostics@.len() == old(handler).diagnostics@.len() + failures(
                self.items@,
                &old(engines).de,
                &old(engines).te,
            ),
            forall|i: int|
                0 <= i < self.items@.len() && (#[trigger] self.items@[i]).finalizes(
                    &old(engines).de,
                    &old(engines).te,
                ) ==> self.items@[i].checked_in(&final(engines).de),
            forall|k: int|
                0 <= k < old(engines).de.functions@.len() && !references(
                    self.items@,
                    DeclId::Function(k as usize),
                ) ==> #[trigger] final(engines).de.functions@[k] == old(engines).de.functions@[k],
            forall|k: int|
                0 <= k < old(engines).de.constants@.len() && !references(
                    self.items@,
                    DeclId::Constant(k as usize),
                ) ==> #[trigger] final(engines).de.constants@[k] == old(engines).de.constants@[k],
    {
        let ghost de0 = engines.de;
        let ghost te0 = engines.te;
        let ghost h0 = handler.diagnostics@.len();
        let ghost items = self.items@;
        let mut failed = false;
        let mut i: usize = 0;
        assert(items.take(0) =~= Seq::<TyTraitItem>::empty());
        while i < self.items.len()
            invariant
                items == self.items@,
                0 <= i <= items.len(),
                self.valid_in(&de0),
                engines.te == te0,
                engines.de.refines_checked(&de0),
                handler.diagnostics@.len() == h0 + failures(items.take(i as int), &de0, &te0),
                failed == (failures(items.take(i as int), &de0, &te0) > 0),
                forall|j: int|
                    0 <= j < i && (#[trigger] items[j]).finalizes(&de0, &te0) ==> items[j].checked_in(
                        &engines.de,
                    ),
                forall|k: int|
                    0 <= k < de0.functions@.len() && !references(
                        items.take(i as int),
                        DeclId::Function(k as usize),
                    ) ==> #[trigger] engines.de.functions@[k] == de0.functions@[k],
                forall|k: int|
                    0 <= k < de0.constants@.len() && !references(
                        items.take(i as int),
                        DeclId::Constant(k as usize),
                    ) ==> #[trigger] engines.de.constants@[k] == de0.constants@[k],
            decreases items.len() - i,
        {
            let ghost s = engines.de;
            let ghost hs = handler.diagnostics@.len();
            let mut item = self.items[i].clone();
            proof {
                assert(items[i as int].valid_in(&de0));
                lemma_finalizes_stable(&item, &de0, &s, &te0);
            }
            let res = item.type_check_finalize(handler, engines);
            proof {
                let it = items[i as int];
                if res.is_ok() {
                    lemma_finalized_refines(&it, &s, &engines.de);
                    lemma_refines_trans(&de0, &s, &engines.de);
                    assert forall|j: int|
                        0 <= j < i + 1 && (#[trigger] items[j]).finalizes(&de0, &te0) implies items[j].checked_in(
                        &engines.de,
                    ) by {
                        if j < i {
                            assert(items[j].valid_in(&de0));
                            lemma_checked_stable(&items[j], &s, &engines.de);
                        }
                    }
                }
                assert(items.take(i + 1).drop_last() =~= items.take(i as int));
                assert(items.take(i + 1).last() == it);
                assert forall|k: int|
                    0 <= k < de0.functions@.len() && !references(
                        items.take(i + 1),
                        DeclId::Function(k as usize),
                    ) implies #[trigger] engines.de.functions@[k] == de0.functions@[k] by {
                    assert(items.take(i + 1)[i as int] == it);
                    assert forall|j: int| 0 <= j < i implies (#[trigger] items.take(i as int)[j]).decl_id()
                        != DeclId::Function(k as usize) by {
                        assert(items.take(i + 1)[j] == items.take(i as int)[j]);
                    }
                }
                assert forall|k: int|
                    0 <= k < de0.constants@.len() && !references(
                        items.take(i + 1),
                        DeclId::Constant(k as usize),
                    ) implies #[trigger] engines.de.constants@[k] == de0.constants@[k] by {
                    assert(items.take(i + 1)[i as int] == it);
                    assert forall|j: int| 0 <= j < i implies (#[trigger] items.take(i as int)[j]).decl_id()
                        != DeclId::Constant(k as usize) by {
                        assert(items.take(i + 1)[j] == items.take(i as int)[j]);
                    }
                }
            }
            if res.is_err() {
                failed = true;
            }
            i = i + 1;
        }
        proof {
            assert(items.take(items.len() as int) =~= items);
            lemma_failures_zero(items, &de0, &te0);
        }
        if failed {
            Err(ErrorEmitted)
        } else {
            Ok(())
        }
    }
}

} // verus!

verus! {

/// Finalizing again after a pass in which every provided item passed emits
/// no diagnostic and leaves every body as it was. `s0 -> s1` is the first
/// pass and `s1 -> s2` the second, each as `finalize_items` describes it.
pub proof fn lemma_finalize_idempotent(
    decl: &TyTraitDecl,
    s0: &DeclStore,
    s1: &DeclStore,
    s2: &DeclStore,
    engine: &TypeEngine,
)
    requires
        decl.valid_in(s0),
        forall|i: int| 0 <= i < decl.items@.len() ==> (#[trigger] decl.items@[i]).finalizes(s0, engine),
        s1.refines_checked(s0),
        forall|i: int|
            0 <= i < decl.items@.len() && (#[trigger] decl.items@[i]).finalizes(s0, engine)
                ==> decl.items@[i].checked_in(s1),
        s2.refines_checked(s1),
        forall|k: int|
            0 <= k < s1.functions@.len() && !references(decl.items@, DeclId::Function(k as usize))
                ==> #[trigger] s2.functions@[k] == s1.functions@[k],
        forall|k: int|
            0 <= k < s1.constants@.len() && !references(decl.items@, DeclId::Constant(k as usize))
                ==> #[trigger] s2.constants@[k] == s1.constants@[k],
    ensures
        failures(decl.items@, s1, engine) == 0,
        s2.trait_types@ == s1.trait_types@,
        s2.functions@.len() == s1.functions@.len(),
        forall|k: usize|
            (k as int) < s1.functions@.len() ==> (#[trigger] s2.functions@[k as int]).decl.identical(
                &s1.functions@[k as int].decl,
            ) && s2.functions@[k as int].parent == s1.functions@[k as int].parent,
        forall|k: usize|
            (k as int) < s1.constants@.len() ==> #[trigger] s2.constants@[k as int]
                == s1.constants@[k as int],
{
    assert forall|i: int| 0 <= i < decl.items@.len() implies (#[trigger] decl.items@[i]).finalizes(
        s1,
        engine,
    ) by {
        assert(decl.items@[i].valid_in(s0));
        lemma_finalizes_stable(&decl.items@[i], s0, s1, engine);
    }
    lemma_failures_zero(decl.items@, s1, engine);
    assert forall|k: usize| (k as int) < s1.functions@.len() implies (
    #[trigger] s2.functions@[k as int]).decl.identical(&s1.functions@[k as int].decl)
        && s2.functions@[k as int].parent == s1.functions@[k as int].parent by {
        assert(s2.functions@[k as int].parent == s1.functions@[k as int].parent);
        if references(decl.items@, DeclId::Function(k)) {
            let j = choose|j: int|
                0 <= j < decl.items@.len() && (#[trigger] decl.items@[j]).decl_id()
                    == DeclId::Function(k);
            assert(decl.items@[j].checked_in(s1));
        }
    }
    assert forall|k: usize| (k as int) < s1.constants@.len() implies #[trigger] s2.constants@[k as int]
        == s1.constants@[k as int] by {
        assert(s2.constants@[k as int].parent == s1.constants@[k as int].parent);
        if references(decl.items@, DeclId::Constant(k)) {
            let j = choose|j: int|
                0 <= j < decl.items@.len() && (#[trigger] decl.items@[j]).decl_id()
                    == DeclId::Constant(k);
            assert(decl.items@[j].checked_in(s1));
        } else {
            assert(s2.constants@[k as int] == s1.constants@[k as int]);
        }
    }
}

} // verus!
