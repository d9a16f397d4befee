use crate::decl_store::{
    DeclId, DeclMapping, DeclRef, DeclStore, Engines, Slot, lemma_extends_trans,
};
use crate::trait_decl::{TyTraitDecl, TyTraitInterfaceItem, TyTraitItem};
use crate::type_engine::{TypeId, TypeParameter, TypeSubstMap};
use vstd::prelude::*;

verus! {

impl TyTraitInterfaceItem {
    /// `self` is a fresh instance of `orig` in `after`: the same kind, name
    /// and span, a handle that `before` did not have, and a body that is the
    /// template's with its types substituted. A function signature records
    /// its origin as parent; a constant or an associated type does not.
    pub open spec fn instantiates(
        &self,
        orig: &TyTraitInterfaceItem,
        before: &DeclStore,
        after: &DeclStore,
        map: &TypeSubstMap,
    ) -> bool {
        &&& self.handle().name == orig.handle().name
        &&& self.handle().span == orig.handle().span
        &&& self.valid_in(after)
        &&& !before.has(self.decl_id())
        &&& match (self, orig) {
            (TyTraitInterfaceItem::TraitFn(n), TyTraitInterfaceItem::TraitFn(o)) => {
                &&& after.function(n.id).is_subst_of(&before.function(o.id), map)
                &&& after.functions@[n.id as int].parent == Some(o.id)
            },
            (TyTraitInterfaceItem::Constant(n), TyTraitInterfaceItem::Constant(o)) => {
                &&& after.constant(n.id).is_subst_of(&before.constant(o.id), map)
                &&& after.constants@[n.id as int].parent == None::<usize>
            },
            (TyTraitInterfaceItem::Type(n), TyTraitInterfaceItem::Type(o)) => {
                &&& after.trait_type(n.id).is_subst_of(&before.trait_type(o.id), map)
                &&& after.trait_types@[n.id as int].parent == None::<usize>
            },
            _ => false,
        }
    }

    pub open spec fn is_type(&self) -> bool {
        self is Type
    }

    /// The entry behind the handle is the same in both stores.
    pub open spec fn body_unchanged(&self, before: &DeclStore, after: &DeclStore) -> bool {
        match self {
            TyTraitInterfaceItem::TraitFn(r) => after.functions@[r.id as int] == before.functions@[r.id as int],
            TyTraitInterfaceItem::Constant(r) => after.constants@[r.id as int] == before.constants@[r.id as int],
            TyTraitInterfaceItem::Type(r) => after.trait_types@[r.id as int] == before.trait_types@[r.id as int],
        }
    }
}

impl TyTraitItem {
    pub open spec fn body_unchanged(&self, before: &DeclStore, after: &DeclStore) -> bool {
        match self {
            TyTraitItem::Fn(r) => after.functions@[r.id as int] == before.functions@[r.id as int],
            TyTraitItem::Constant(r) => after.constants@[r.id as int] == before.constants@[r.id as int],
            TyTraitItem::Type(r) => after.trait_types@[r.id as int] == before.trait_types@[r.id as int],
        }
    }

    /// `self` is a fresh instance of `orig` in `after`, recording `orig` as
    /// its parent whatever its kind.
    pub open spec fn instantiates(
        &self,
        orig: &TyTraitItem,
        before: &DeclStore,
        after: &DeclStore,
        map: &TypeSubstMap,
    ) -> bool {
        &&& self.handle().name == orig.handle().name
        &&& self.handle().span == orig.handle().span
        &&& self.valid_in(after)
        &&& !before.has(self.decl_id())
        &&& match (self, orig) {
            (TyTraitItem::Fn(n), TyTraitItem::Fn(o)) => {
                &&& after.function(n.id).is_subst_of(&before.function(o.id), map)
                &&& after.functions@[n.id as int].parent == Some(o.id)
            },
            (TyTraitItem::Constant(n), TyTraitItem::Constant(o)) => {
                &&& after.constant(n.id).is_subst_of(&before.constant(o.id), map)
                &&& after.constants@[n.id as int].parent == Some(o.id)
            },
            (TyTraitItem::Type(n), TyTraitItem::Type(o)) => {
                &&& after.trait_type(n.id).is_subst_of(&before.trait_type(o.id), map)
                &&& after.trait_types@[n.id as int].parent == Some(o.id)
            },
            _ => false,
        }
    }
}

/// Instances stay instances while the store only grows.
pub proof fn lemma_surface_instance_stable(
    n: &TyTraitInterfaceItem,
    o: &TyTraitInterfaceItem,
    before: &DeclStore,
    mid: &DeclStore,
    after: &DeclStore,
    map: &TypeSubstMap,
)
    requires
        n.instantiates(o, before, mid, map),
        after.extends(mid),
    ensures
        n.instantiates(o, before, after, map),
{
    match n {
        TyTraitInterfaceItem::TraitFn(r) => assert(after.functions@[r.id as int] == mid.functions@[r.id as int]),
        TyTraitInterfaceItem::Constant(r) => assert(after.constants@[r.id as int] == mid.constants@[r.id as int]),
        TyTraitInterfaceItem::Type(r) => assert(after.trait_types@[r.id as int] == mid.trait_types@[r.id as int]),
    }
}

pub proof fn lemma_item_instance_stable(
    n: &TyTraitItem,
    o: &TyTraitItem,
    before: &DeclStore,
    mid: &DeclStore,
    after: &DeclStore,
    map: &TypeSubstMap,
)
    requires
        n.instantiates(o, before, mid, map),
        after.extends(mid),
    ensures
        n.instantiates(o, before, after, map),
{
    match n {
        TyTraitItem::Fn(r) => assert(after.functions@[r.id as int] == mid.functions@[r.id as int]),
        TyTraitItem::Constant(r) => assert(after.constants@[r.id as int] == mid.constants@[r.id as int]),
        TyTraitItem::Type(r) => assert(after.trait_types@[r.id as int] == mid.trait_types@[r.id as int]),
    }
}

fn subst_params(params: &mut Vec<TypeParameter>, map: &TypeSubstMap)
    ensures
        final(params)@.len() == old(params)@.len(),
        forall|i: int|
            0 <= i < old(params)@.len() ==> (#[trigger] final(params)@[i]).name == old(params)@[i].name
                && final(params)@[i].type_id == map.apply_spec(old(params)@[i].type_id),
{
    let ghost start_params = params@;
    let mut i: usize = 0;
    while i < params.len()
        invariant
            params@.len() == start_params.len(),
            0 <= i <= start_params.len(),
            forall|j: int| i <= j < start_params.len() ==> #[trigger] params@[j] == start_params[j],
            forall|j: int|
                0 <= j < i ==> (#[trigger] params@[j]).name == start_params[j].name && params@[j].type_id
                    == map.apply_spec(start_params[j].type_id),
        decreases start_params.len() - i,
    {
        let p = params[i].subst(map);
        params.set(i, p);
        i = i + 1;
    }
}

fn subst_surface(
    surface: &mut Vec<TyTraitInterfaceItem>,
    map: &TypeSubstMap,
    engines: &mut Engines,
    mapping: &mut DeclMapping,
)
    requires
        forall|i: int|
            0 <= i < old(surface)@.len() ==> (#[trigger] old(surface)@[i]).valid_in(
                &old(engines).de,
            ),
        old(engines).de.functions@.len() + old(surface)@.len() < usize::MAX,
        old(engines).de.constants@.len() + old(surface)@.len() < usize::MAX,
        old(engines).de.trait_types@.len() + old(surface)@.len() < usize::MAX,
    ensures
        final(engines).te == old(engines).te,
        final(engines).de.extends(&old(engines).de),
        final(engines).de.functions@.len() <= old(engines).de.functions@.len() + old(surface)@.len(),
        final(engines).de.constants@.len() <= old(engines).de.constants@.len() + old(surface)@.len(),
        final(engines).de.trait_types@.len() <= old(engines).de.trait_types@.len() + old(
            surface,
        )@.len(),
        final(surface)@.len() == old(surface)@.len(),
        forall|i: int|
            0 <= i < old(surface)@.len() ==> (#[trigger] final(surface)@[i]).instantiates(
                &old(surface)@[i],
                &old(engines).de,
                &final(engines).de,
                map,
            ),
        final(mapping).entries@.len() >= old(mapping).entries@.len(),
        forall|m: int|
            0 <= m < old(mapping).entries@.len() ==> final(mapping).entries@[m] == #[trigger] old(
                mapping,
            ).entries@[m],
        forall|i: int|
            0 <= i < old(surface)@.len() && !(#[trigger] old(surface)@[i]).is_type() ==> exists|m: int|
                0 <= m < final(mapping).entries@.len() && #[trigger] final(mapping).entries@[m] == (
                old(surface)@[i].decl_id(),
                final(surface)@[i].decl_id(),
            ),
        forall|m: int|
            old(mapping).entries@.len() <= m < final(mapping).entries@.len() ==> !((
            #[trigger] final(mapping).entries@[m]).0 is TraitType),
{
    let ghost s0 = surface@;
    let ghost before = engines.de;
    let ghost te0 = engines.te;
    let ghost e0 = mapping.entries@;
    let ghost mut pos: Seq<int> = Seq::empty();
    let mut i: usize = 0;
    while i < surface.len()
        invariant
            surface@.len() == s0.len(),
            0 <= i <= s0.len(),
            forall|j: int| 0 <= j < s0.len() ==> (#[trigger] s0[j]).valid_in(&before),
            before.functions@.len() + s0.len() < usize::MAX,
            before.constants@.len() + s0.len() < usize::MAX,
            before.trait_types@.len() + s0.len() < usize::MAX,
            engines.te == te0,
            engines.de.extends(&before),
            engines.de.functions@.len() <= before.functions@.len() + i,
            engines.de.constants@.len() <= before.constants@.len() + i,
            engines.de.trait_types@.len() <= before.trait_types@.len() + i,
            forall|j: int| i <= j < s0.len() ==> #[trigger] surface@[j] == s0[j],
            forall|j: int|
                0 <= j < i ==> (#[trigger] surface@[j]).instantiates(&s0[j], &before, &engines.de, map),
            mapping.entries@.len() >= e0.len(),
            forall|m: int| 0 <= m < e0.len() ==> mapping.entries@[m] == #[trigger] e0[m],
            pos.len() == i,
            forall|j: int|
                0 <= j < i && !(#[trigger] s0[j]).is_type() ==> 0 <= pos[j] < mapping.entries@.len()
                    && mapping.entries@[pos[j]] == (s0[j].decl_id(), surface@[j].decl_id()),
            forall|m: int|
                e0.len() <= m < mapping.entries@.len() ==> !((
                #[trigger] mapping.entries@[m]).0 is TraitType),
        decreases s0.len() - i,
    {
        let ghost mid = engines.de;
        let ghost n_entries = mapping.entries@.len();
        let new_item = match &surface[i] {
            TyTraitInterfaceItem::TraitFn(r) => {
                let n = engines.de.subst_function_and_insert(r.id, map, true);
                mapping.insert(DeclId::Function(r.id), DeclId::Function(n));
                TyTraitInterfaceItem::TraitFn(DeclRef { id: n, name: r.name.clone(), span: r.span })
            },
            TyTraitInterfaceItem::Constant(r) => {
                let n = engines.de.subst_constant_and_insert(r.id, map, false);
                mapping.insert(DeclId::Constant(r.id), DeclId::Constant(n));
                TyTraitInterfaceItem::Constant(DeclRef { id: n, name: r.name.clone(), span: r.span })
            },
            TyTraitInterfaceItem::Type(r) => {
                let n = engines.de.subst_trait_type_and_insert(r.id, map, false);
                TyTraitInterfaceItem::Type(DeclRef { id: n, name: r.name.clone(), span: r.span })
            },
        };
        surface.set(i, new_item);
        proof {
            lemma_extends_trans(&before, &mid, &engines.de);
            assert forall|j: int| 0 <= j < i implies (#[trigger] surface@[j]).instantiates(
                &s0[j],
                &before,
                &engines.de,
                map,
            ) by {
                lemma_surface_instance_stable(&surface@[j], &s0[j], &before, &mid, &engines.de, map);
            }
            pos = pos.push(n_entries as int);
        }
        i = i + 1;
    }
    proof {
        assert forall|j: int|
            0 <= j < s0.len() && !(#[trigger] s0[j]).is_type() implies exists|m: int|
                0 <= m < mapping.entries@.len() && #[trigger] mapping.entries@[m] == (
                s0[j].decl_id(),
                surface@[j].decl_id(),
            ) by {
            assert(mapping.entries@[pos[j]] == (s0[j].decl_id(), surface@[j].decl_id()));
        }
    }
}

} // verus!

verus! {

fn subst_items(
    items: &mut Vec<TyTraitItem>,
    map: &TypeSubstMap,
    engines: &mut Engines,
    mapping: &mut DeclMapping,
)
    requires
        forall|i: int|
            0 <= i < old(items)@.len() ==> (#[trigger] old(items)@[i]).valid_in(&old(engines).de),
        old(engines).de.functions@.len() + old(items)@.len() < usize::MAX,
        old(engines).de.constants@.len() + old(items)@.len() < usize::MAX,
        old(engines).de.trait_types@.len() + old(items)@.len() < usize::MAX,
    ensures
        final(engines).te == old(engines).te,
        final(engines).de.extends(&old(engines).de),
        final(items)@.len() == old(items)@.len(),
        forall|i: int|
            0 <= i < old(items)@.len() ==> (#[trigger] final(items)@[i]).instantiates(
                &old(items)@[i],
                &old(engines).de,
                &final(engines).de,
                map,
            ),
        final(mapping).entries@.len() == old(mapping).entries@.len() + old(items)@.len(),
        forall|m: int|
            0 <= m < old(mapping).entries@.len() ==> final(mapping).entries@[m] == #[trigger] old(
                mapping,
            ).entries@[m],
        forall|i: int|
            0 <= i < old(items)@.len() ==> final(mapping).entries@[old(mapping).entries@.len() + i]
                == (#[trigger] old(items)@[i].decl_id(), final(items)@[i].decl_id()),
{
    let ghost s0 = items@;
    let ghost before = engines.de;
    let ghost te0 = engines.te;
    let ghost e0 = mapping.entries@;
    let mut i: usize = 0;
    while i < items.len()
        invariant
            items@.len() == s0.len(),
            0 <= i <= s0.len(),
            forall|j: int| 0 <= j < s0.len() ==> (#[trigger] s0[j]).valid_in(&before),
            before.functions@.len() + s0.len() < usize::MAX,
            before.constants@.len() + s0.len() < usize::MAX,
            before.trait_types@.len() + s0.len() < usize::MAX,
            engines.te == te0,
            engines.de.extends(&before),
            engines.de.functions@.len() <= before.functions@.len() + i,
            engines.de.constants@.len() <= before.constants@.len() + i,
            engines.de.trait_types@.len() <= before.trait_types@.len() + i,
            forall|j: int| i <= j < s0.len() ==> #[trigger] items@[j] == s0[j],
            forall|j: int|
                0 <= j < i ==> (#[trigger] items@[j]).instantiates(&s0[j], &before, &engines.de, map),
            mapping.entries@.len() == e0.len() + i,
            forall|m: int| 0 <= m < e0.len() ==> mapping.entries@[m] == #[trigger] e0[m],
            forall|j: int|
                0 <= j < i ==> mapping.entries@[e0.len() + j] == (
                #[trigger] s0[j].decl_id(),
                items@[j].decl_id(),
            ),
        decreases s0.len() - i,
    {
        let ghost mid = engines.de;
        let new_item = match &items[i] {
            TyTraitItem::Fn(r) => {
                let n = engines.de.subst_function_and_insert(r.id, map, true);
                mapping.insert(DeclId::Function(r.id), DeclId::Function(n));
                TyTraitItem::Fn(DeclRef { id: n, name: r.name.clone(), span: r.span })
            },
            TyTraitItem::Constant(r) => {
                let n = engines.de.subst_constant_and_insert(r.id, map, true);
                mapping.insert(DeclId::Constant(r.id), DeclId::Constant(n));
                TyTraitItem::Constant(DeclRef { id: n, name: r.name.clone(), span: r.span })
            },
            TyTraitItem::Type(r) => {
                let n = engines.de.subst_trait_type_and_insert(r.id, map, true);
                mapping.insert(DeclId::TraitType(r.id), DeclId::TraitType(n));
                TyTraitItem::Type(DeclRef { id: n, name: r.name.clone(), span: r.span })
            },
        };
        items.set(i, new_item);
        proof {
            lemma_extends_trans(&before, &mid, &engines.de);
            assert forall|j: int| 0 <= j < i implies (#[trigger] items@[j]).instantiates(
                &s0[j],
                &before,
                &engines.de,
                map,
            ) by {
                lemma_item_instance_stable(&items@[j], &s0[j], &before, &mid, &engines.de, map);
            }
        }
        i = i + 1;
    }
}

impl TyTraitDecl {
    /// Instantiates the declaration with `type_mapping`. Type parameters are
    /// substituted in place; every member of the interface surface and every
    /// provided item is copied with its types substituted into a new entry of
    /// the store, and the declaration is pointed at the copies. Entries that
    /// were already in the store are left as they were, so the template stays
    /// usable. The returned mapping takes each old handle of a function
    /// signature, constant or provided item to its copy; associated types of
    /// the interface surface are not recorded in it.
    #[verifier::spinoff_prover]
    pub fn subst_inner(&mut self, type_mapping: &TypeSubstMap, engines: &mut Engines) -> (mapping: DeclMapping)
        requires
            old(self).valid_in(&old(engines).de),
            old(engines).de.functions@.len() + old(self).interface_surface@.len() + old(
                self,
            ).items@.len() < usize::MAX,
            old(engines).de.constants@.len() + old(self).interface_surface@.len() + old(
                self,
            ).items@.len() < usize::MAX,
            old(engines).de.trait_types@.len() + old(self).interface_surface@.len() + old(
                self,
            ).items@.len() < usize::MAX,
        ensures
            final(engines).te == old(engines).te,
            final(engines).de.extends(&old(engines).de),
            final(self).valid_in(&final(engines).de),
            final(self).name == old(self).name,
            final(self).self_type == old(self).self_type,
            final(self).supertraits == old(self).supertraits,
            final(self).visibility == old(self).visibility,
            final(self).attributes == old(self).attributes,
            final(self).span == old(self).span,
            final(self).type_parameters@.len() == old(self).type_parameters@.len(),
            forall|i: int|
                0 <= i < old(self).type_parameters@.len() ==> (
                #[trigger] final(self).type_parameters@[i]).name == old(self).type_parameters@[i].name
                    && final(self).type_parameters@[i].type_id == type_mapping.apply_spec(
                    old(self).type_parameters@[i].type_id,
                ),
            final(self).interface_surface@.len() == old(self).interface_surface@.len(),
            forall|i: int|
                0 <= i < old(self).interface_surface@.len() ==> (
                #[trigger] final(self).interface_surface@[i]).instantiates(
                    &old(self).interface_surface@[i],
                    &old(engines).de,
                    &final(engines).de,
                    type_mapping,
                ),
            final(self).items@.len() == old(self).items@.len(),
            forall|i: int|
                0 <= i < old(self).items@.len() ==> (#[trigger] final(self).items@[i]).instantiates(
                    &old(self).items@[i],
                    &old(engines).de,
                    &final(engines).de,
                    type_mapping,
                ),
            forall|i: int|
                0 <= i < old(self).interface_surface@.len() && !(
                #[trigger] old(self).interface_surface@[i]).is_type() ==> exists|m: int|
                    0 <= m < mapping.entries@.len() && #[trigger] mapping.entries@[m] == (
                    old(self).interface_surface@[i].decl_id(),
                    final(self).interface_surface@[i].decl_id(),
                ),
            forall|i: int|
                0 <= i < old(self).items@.len() ==> exists|m: int|
                    0 <= m < mapping.entries@.len() && #[trigger] mapping.entries@[m] == (
                    (#[trigger] old(self).items@[i]).decl_id(),
                    final(self).items@[i].decl_id(),
                ),
            forall|m: int|
                0 <= m < mapping.entries@.len() && (#[trigger] mapping.entries@[m]).0 is TraitType
                    ==> exists|i: int|
                    0 <= i < old(self).items@.len() && (#[trigger] old(self).items@[i]).decl_id()
                        == mapping.entries@[m].0,            forall|i: int|
                0 <= i < old(self).interface_surface@.len() ==> (
                #[trigger] final(self).interface_surface@[i]).decl_id() != old(
                    self,
                ).interface_surface@[i].decl_id(),
            forall|i: int|
                0 <= i < old(self).items@.len() ==> (#[trigger] final(self).items@[i]).decl_id()
                    != old(self).items@[i].decl_id(),
            forall|i: int|
                0 <= i < old(self).interface_surface@.len() ==> (
                #[trigger] old(self).interface_surface@[i]).body_unchanged(
                    &old(engines).de,
                    &final(engines).de,
                ),
            forall|i: int|
                0 <= i < old(self).items@.len() ==> (#[trigger] old(self).items@[i]).body_unchanged(
                    &old(engines).de,
                    &final(engines).de,
                ),
            forall|i: int|
                0 <= i < old(self).interface_surface@.len() && !(
                #[trigger] old(self).interface_surface@[i]).is_type() ==> mapping.has_key(
                    old(self).interface_surface@[i].decl_id(),
                ),
            forall|i: int|
                0 <= i < old(self).interface_surface@.len() && (
                #[trigger] old(self).interface_surface@[i]).is_type() && (forall|j: int|
                    0 <= j < old(self).items@.len() ==> (#[trigger] old(self).items@[j]).decl_id()
                        != old(self).interface_surface@[i].decl_id()) ==> !mapping.has_key(
                    old(self).interface_surface@[i].decl_id(),
                ),
            forall|i: int|
                0 <= i < old(self).items@.len() ==> mapping.has_key(
                    (#[trigger] old(self).items@[i]).decl_id(),
                ),
    {
        let mut decl_mapping = DeclMapping::new();
        subst_params(&mut self.type_parameters, type_mapping);
        let ghost de0 = engines.de;
        subst_surface(&mut self.interface_surface, type_mapping, engines, &mut decl_mapping);
        let ghost de1 = engines.de;
        let ghost e1 = decl_mapping.entries@;
        let ghost n_surface = decl_mapping.entries@.len();
        proof {
            assert forall|i: int| 0 <= i < self.items@.len() implies (
            #[trigger] self.items@[i]).valid_in(&engines.de) by {
                assert(self.items@[i].valid_in(&de0));
            }
        }
        subst_items(&mut self.items, type_mapping, engines, &mut decl_mapping);
        proof {
            lemma_extends_trans(&de0, &de1, &engines.de);
            assert forall|i: int| 0 <= i < self.interface_surface@.len() implies (
            #[trigger] self.interface_surface@[i]).instantiates(
                &old(self).interface_surface@[i],
                &de0,
                &engines.de,
                type_mapping,
            ) by {
                lemma_surface_instance_stable(
                    &self.interface_surface@[i],
                    &old(self).interface_surface@[i],
                    &de0,
                    &de1,
                    &engines.de,
                    type_mapping,
                );
            }
            assert forall|i: int| 0 <= i < self.items@.len() implies (
            #[trigger] self.items@[i]).instantiates(&old(self).items@[i], &de0, &engines.de, type_mapping) by {
                assert(!de1.has(self.items@[i].decl_id()));
            }
            assert forall|i: int| 0 <= i < old(self).items@.len() implies exists|m: int|
                0 <= m < decl_mapping.entries@.len() && #[trigger] decl_mapping.entries@[m] == (
                (#[trigger] old(self).items@[i]).decl_id(),
                self.items@[i].decl_id(),
            ) by {
                assert(decl_mapping.entries@[n_surface + i] == (
                old(self).items@[i].decl_id(), self.items@[i].decl_id()));
            }
            assert forall|m: int|
                0 <= m < decl_mapping.entries@.len() && (
                #[trigger] decl_mapping.entries@[m]).0 is TraitType implies exists|i: int|
                0 <= i < old(self).items@.len() && (#[trigger] old(self).items@[i]).decl_id()
                    == decl_mapping.entries@[m].0 by {
                if m < n_surface {
                    assert(decl_mapping.entries@[m] == e1[m]);
                } else {
                    let i = m - n_surface;
                    assert(decl_mapping.entries@[n_surface + i] == (
                    old(self).items@[i].decl_id(), self.items@[i].decl_id()));
                }
            }
        }
        proof {
            lemma_subst_laws(old(self), self, &decl_mapping, &de0, &engines.de, type_mapping);
        }
        decl_mapping
    }
}

} // verus!

verus! {

/// What a substitution of `template` into `instance` establishes about the
/// handles and the returned mapping: each handle of the instance is new, each
/// handle of the template still reaches the entry it did before, every
/// function signature, constant and provided item of the template is a key
/// of the mapping, and an associated type of the interface surface is not,
/// unless it is also the handle of a provided item.
pub proof fn lemma_subst_laws(
    template: &TyTraitDecl,
    instance: &TyTraitDecl,
    mapping: &DeclMapping,
    before: &DeclStore,
    after: &DeclStore,
    map: &TypeSubstMap,
)
    requires
        template.valid_in(before),
        after.extends(before),
        instance.interface_surface@.len() == template.interface_surface@.len(),
        forall|i: int|
            0 <= i < template.interface_surface@.len() ==> (
            #[trigger] instance.interface_surface@[i]).instantiates(
                &template.interface_surface@[i],
                before,
                after,
                map,
            ),
        instance.items@.len() == template.items@.len(),
        forall|i: int|
            0 <= i < template.items@.len() ==> (#[trigger] instance.items@[i]).instantiates(
                &template.items@[i],
                before,
                after,
                map,
            ),
        forall|i: int|
            0 <= i < template.interface_surface@.len() && !(
            #[trigger] template.interface_surface@[i]).is_type() ==> exists|m: int|
                0 <= m < mapping.entries@.len() && #[trigger] mapping.entries@[m] == (
                template.interface_surface@[i].decl_id(),
                instance.interface_surface@[i].decl_id(),
            ),
        forall|i: int|
            0 <= i < template.items@.len() ==> exists|m: int|
                0 <= m < mapping.entries@.len() && #[trigger] mapping.entries@[m] == (
                (#[trigger] template.items@[i]).decl_id(),
                instance.items@[i].decl_id(),
            ),
        forall|m: int|
            0 <= m < mapping.entries@.len() && (#[trigger] mapping.entries@[m]).0 is TraitType
                ==> exists|i: int|
                0 <= i < template.items@.len() && (#[trigger] template.items@[i]).decl_id()
                    == mapping.entries@[m].0,
    ensures
        forall|i: int|
            0 <= i < template.interface_surface@.len() ==> (
            #[trigger] instance.interface_surface@[i]).decl_id()
                != template.interface_surface@[i].decl_id(),
        forall|i: int|
            0 <= i < template.items@.len() ==> (#[trigger] instance.items@[i]).decl_id()
                != template.items@[i].decl_id(),
        forall|i: int|
            0 <= i < template.interface_surface@.len() ==> (
            #[trigger] template.interface_surface@[i]).body_unchanged(before, after),
        forall|i: int|
            0 <= i < template.items@.len() ==> (#[trigger] template.items@[i]).body_unchanged(
                before,
                after,
            ),
        forall|i: int|
            0 <= i < template.interface_surface@.len() && !(
            #[trigger] template.interface_surface@[i]).is_type() ==> mapping.has_key(
                template.interface_surface@[i].decl_id(),
            ),
        forall|i: int|
            0 <= i < template.interface_surface@.len() && (
            #[trigger] template.interface_surface@[i]).is_type() && (forall|j: int|
                0 <= j < template.items@.len() ==> (#[trigger] template.items@[j]).decl_id()
                    != template.interface_surface@[i].decl_id()) ==> !mapping.has_key(
                template.interface_surface@[i].decl_id(),
            ),
        forall|i: int|
            0 <= i < template.items@.len() ==> mapping.has_key(
                (#[trigger] template.items@[i]).decl_id(),
            ),
{
    assert forall|i: int| 0 <= i < template.interface_surface@.len() implies (
    #[trigger] instance.interface_surface@[i]).decl_id()
        != template.interface_surface@[i].decl_id() by {
        assert(template.interface_surface@[i].valid_in(before));
        assert(instance.interface_surface@[i].instantiates(
            &template.interface_surface@[i],
            before,
            after,
            map,
        ));
    }
    assert forall|i: int| 0 <= i < template.items@.len() implies (
    #[trigger] instance.items@[i]).decl_id() != template.items@[i].decl_id() by {
        assert(template.items@[i].valid_in(before));
        assert(instance.items@[i].instantiates(&template.items@[i], before, after, map));
    }
    assert forall|i: int| 0 <= i < template.interface_surface@.len() implies (
    #[trigger] template.interface_surface@[i]).body_unchanged(before, after) by {
        assert(template.interface_surface@[i].valid_in(before));
    }
    assert forall|i: int| 0 <= i < template.items@.len() implies (
    #[trigger] template.items@[i]).body_unchanged(before, after) by {
        assert(template.items@[i].valid_in(before));
    }
    assert forall|i: int|
        0 <= i < template.interface_surface@.len() && !(
        #[trigger] template.interface_surface@[i]).is_type() implies mapping.has_key(
        template.interface_surface@[i].decl_id(),
    ) by {
        let m = choose|m: int|
            0 <= m < mapping.entries@.len() && #[trigger] mapping.entries@[m] == (
            template.interface_surface@[i].decl_id(),
            instance.interface_surface@[i].decl_id(),
        );
        assert(mapping.entries@[m].0 == template.interface_surface@[i].decl_id());
    }
    assert forall|i: int| 0 <= i < template.items@.len() implies mapping.has_key(
        (#[trigger] template.items@[i]).decl_id(),
    ) by {
        let m = choose|m: int|
            0 <= m < mapping.entries@.len() && #[trigger] mapping.entries@[m] == (
            template.items@[i].decl_id(),
            instance.items@[i].decl_id(),
        );
        assert(mapping.entries@[m].0 == template.items@[i].decl_id());
    }
}

} // verus!

verus! {

impl TyTraitItem {
    /// Substitutes the types of the body behind the handle in place: the
    /// handle keeps reaching the same entry, whose body is replaced.
    pub fn subst_inner(&mut self, type_mapping: &TypeSubstMap, engines: &mut Engines)
        requires
            old(self).valid_in(&old(engines).de),
        ensures
            *final(self) == *old(self),
            final(engines).te == old(engines).te,
            match *old(self) {
                TyTraitItem::Fn(r) => {
                    &&& final(engines).de.functions@.len() == old(engines).de.functions@.len()
                    &&& forall|k: int|
                        0 <= k < old(engines).de.functions@.len() && k != r.id
                            ==> #[trigger] final(engines).de.functions@[k]
                            == old(engines).de.functions@[k]
                    &&& final(engines).de.functions@[r.id as int].parent
                        == old(engines).de.functions@[r.id as int].parent
                    &&& final(engines).de.function(r.id).is_subst_of(
                        &old(engines).de.function(r.id),
                        type_mapping,
                    )
                    &&& final(engines).de.constants == old(engines).de.constants
                    &&& final(engines).de.trait_types == old(engines).de.trait_types
                },
                TyTraitItem::Constant(r) => {
                    &&& final(engines).de.constants@ == old(engines).de.constants@.update(
                        r.id as int,
                        Slot {
                            decl: final(engines).de.constant(r.id),
                            parent: old(engines).de.constants@[r.id as int].parent,
                        },
                    )
                    &&& final(engines).de.constant(r.id).is_subst_of(
                        &old(engines).de.constant(r.id),
                        type_mapping,
                    )
                    &&& final(engines).de.functions == old(engines).de.functions
                    &&& final(engines).de.trait_types == old(engines).de.trait_types
                },
                TyTraitItem::Type(r) => {
                    &&& final(engines).de.trait_types@ == old(engines).de.trait_types@.update(
                        r.id as int,
                        Slot {
                            decl: final(engines).de.trait_type(r.id),
                            parent: old(engines).de.trait_types@[r.id as int].parent,
                        },
                    )
                    &&& final(engines).de.trait_type(r.id).is_subst_of(
                        &old(engines).de.trait_type(r.id),
                        type_mapping,
                    )
                    &&& final(engines).de.functions == old(engines).de.functions
                    &&& final(engines).de.constants == old(engines).de.constants
                },
            },
    {
        match self {
            TyTraitItem::Fn(r) => {
                let decl = engines.de.functions[r.id].decl.subst(type_mapping);
                engines.de.replace_function(r.id, decl);
            },
            TyTraitItem::Constant(r) => {
                let decl = engines.de.constants[r.id].decl.subst(type_mapping);
                engines.de.replace_constant(r.id, decl);
            },
            TyTraitItem::Type(r) => {
                let decl = engines.de.trait_types[r.id].decl.subst(type_mapping);
                engines.de.replace_trait_type(r.id, decl);
            },
        }
    }

    /// Records the implementing type on a provided function; constants and
    /// associated types do not carry one.
    pub fn replace_implementing_type(&mut self, engines: &mut Engines, implementing_type: TypeId)
        requires
            old(self).valid_in(&old(engines).de),
        ensures
            *final(self) == *old(self),
            final(engines).te == old(engines).te,
            match *old(self) {
                TyTraitItem::Fn(r) => {
                    &&& final(engines).de.functions@.len() == old(engines).de.functions@.len()
                    &&& forall|k: int|
                        0 <= k < old(engines).de.functions@.len() && k != r.id
                            ==> #[trigger] final(engines).de.functions@[k]
                            == old(engines).de.functions@[k]
                    &&& final(engines).de.functions@[r.id as int].parent
                        == old(engines).de.functions@[r.id as int].parent
                    &&& final(engines).de.function(r.id).implementing_type == Some(
                        implementing_type,
                    )
                    &&& final(engines).de.function(r.id).name == old(engines).de.function(r.id).name
                    &&& final(engines).de.function(r.id).parameters@ == old(engines).de.function(
                        r.id,
                    ).parameters@
                    &&& final(engines).de.function(r.id).return_type == old(engines).de.function(
                        r.id,
                    ).return_type
                    &&& final(engines).de.function(r.id).body_type == old(engines).de.function(
                        r.id,
                    ).body_type
                    &&& final(engines).de.function(r.id).checked == old(engines).de.function(
                        r.id,
                    ).checked
                    &&& final(engines).de.function(r.id).span == old(engines).de.function(r.id).span
                    &&& final(engines).de.constants == old(engines).de.constants
                    &&& final(engines).de.trait_types == old(engines).de.trait_types
                },
                _ => final(engines).de == old(engines).de,
            },
    {
        match self {
            TyTraitItem::Fn(r) => {
                let mut decl = engines.de.get_function(r.id);
                decl.implementing_type = Some(implementing_type);
                engines.de.replace_function(r.id, decl);
            },
            TyTraitItem::Constant(_r) => {},
            TyTraitItem::Type(_r) => {},
        }
    }
}

} // verus!
