use ty_trait::decl_store::{
    DeclId, DeclRef, DeclStore, Engines, TyConstantDecl, TyFunctionDecl, TyTraitType,
};
use ty_trait::diagnostics::Handler;
use ty_trait::hashing::HashSink;
use ty_trait::ident::{Ident, Span};
use ty_trait::trait_decl::{
    Attribute, Supertrait, TyTraitDecl, TyTraitInterfaceItem, TyTraitItem, Visibility,
};
use ty_trait::type_engine::{TypeEngine, TypeId, TypeInfo, TypeParameter, TypeSubstMap};

fn ident(name: &str, start: usize) -> Ident {
    Ident::new(name.to_string(), Span::new(start, start + name.len()))
}

fn engines() -> Engines {
    Engines { te: TypeEngine::new(), de: DeclStore::new() }
}

fn function(name: &str, params: Vec<TypeId>, ret: TypeId, body: Option<TypeId>) -> TyFunctionDecl {
    TyFunctionDecl {
        name: ident(name, 10),
        parameters: params,
        return_type: ret,
        body_type: body,
        implementing_type: None,
        checked: false,
        span: Span::new(10, 40),
    }
}

fn constant(name: &str, ty: TypeId, value: Option<TypeId>) -> TyConstantDecl {
    TyConstantDecl { name: ident(name, 50), type_id: ty, value_type: value, checked: false, span: Span::new(50, 60) }
}

fn handle(id: usize, name: &str) -> DeclRef {
    DeclRef::new(id, ident(name, 0), Span::new(0, 1))
}

fn trait_decl(
    name: &str,
    params: Vec<TypeParameter>,
    self_ty: TypeId,
    surface: Vec<TyTraitInterfaceItem>,
    items: Vec<TyTraitItem>,
    span: Span,
) -> TyTraitDecl {
    TyTraitDecl {
        name: ident(name, span.start),
        type_parameters: params,
        self_type: TypeParameter { name: ident("Self", 0), type_id: self_ty },
        interface_surface: surface,
        items,
        supertraits: vec![],
        visibility: Visibility::Public,
        attributes: vec![],
        span,
    }
}

struct Show {
    engines: Engines,
    t: TypeId,
    u64_ty: TypeId,
    show_id: usize,
    decl: TyTraitDecl,
}

/// trait Show<T> { fn show(self) -> T; }
fn show_trait() -> Show {
    let mut e = engines();
    let t = e.te.insert(TypeInfo::Generic(0));
    let self_ty = e.te.insert(TypeInfo::Generic(1));
    let u64_ty = e.te.insert(TypeInfo::UnsignedInteger(64));
    let show_id = e.de.insert_function(function("show", vec![self_ty], t, None));
    let decl = trait_decl(
        "Show",
        vec![TypeParameter { name: ident("T", 11), type_id: t }],
        self_ty,
        vec![TyTraitInterfaceItem::TraitFn(handle(show_id, "show"))],
        vec![],
        Span::new(0, 80),
    );
    Show { engines: e, t, u64_ty, show_id, decl }
}

fn surface_id(item: &TyTraitInterfaceItem) -> DeclId {
    match item {
        TyTraitInterfaceItem::TraitFn(r) => DeclId::Function(r.id),
        TyTraitInterfaceItem::Constant(r) => DeclId::Constant(r.id),
        TyTraitInterfaceItem::Type(r) => DeclId::TraitType(r.id),
    }
}

fn item_id(item: &TyTraitItem) -> DeclId {
    match item {
        TyTraitItem::Fn(r) => DeclId::Function(r.id),
        TyTraitItem::Constant(r) => DeclId::Constant(r.id),
        TyTraitItem::Type(r) => DeclId::TraitType(r.id),
    }
}

#[test]
fn show_substituted_with_u64() {
    let mut s = show_trait();
    let mut map = TypeSubstMap::new();
    map.insert(s.t, s.u64_ty);
    let mapping = s.decl.subst_inner(&map, &mut s.engines);
    let new_id = match &s.decl.interface_surface[0] {
        TyTraitInterfaceItem::TraitFn(r) => r.id,
        _ => panic!("show is a function signature"),
    };
    assert_ne!(new_id, s.show_id);
    let new_show = s.engines.de.get_function(new_id);
    assert_eq!(s.engines.te.get(new_show.return_type), TypeInfo::UnsignedInteger(64));
    let old_show = s.engines.de.get_function(s.show_id);
    assert_eq!(s.engines.te.get(old_show.return_type), TypeInfo::Generic(0));
    assert_eq!(s.engines.de.functions[new_id].parent, Some(s.show_id));
    assert_eq!(mapping.find(DeclId::Function(s.show_id)), Some(DeclId::Function(new_id)));
    assert_eq!(s.decl.type_parameters[0].type_id, s.u64_ty);
    assert_eq!(s.decl.name.as_str(), "Show");
}

#[test]
fn equality_ignores_span_and_attributes() {
    let s = show_trait();
    let a = trait_decl(
        "Show",
        vec![TypeParameter { name: ident("T", 11), type_id: s.t }],
        s.decl.self_type.type_id,
        vec![TyTraitInterfaceItem::TraitFn(handle(s.show_id, "show"))],
        vec![],
        Span::new(0, 80),
    );
    let mut b = trait_decl(
        "Show",
        vec![TypeParameter { name: ident("T", 300), type_id: s.t }],
        s.decl.self_type.type_id,
        vec![TyTraitInterfaceItem::TraitFn(handle(s.show_id, "show"))],
        vec![],
        Span::new(200, 290),
    );
    b.attributes.push(Attribute { name: ident("doc", 190) });
    assert!(a.eq(&b, &s.engines));
    assert!(b.eq(&a, &s.engines));
}

#[test]
fn equality_goes_through_the_store() {
    let mut e = engines();
    let u1 = e.te.insert(TypeInfo::UnsignedInteger(64));
    let u2 = e.te.insert(TypeInfo::UnsignedInteger(64));
    let b = e.te.insert(TypeInfo::Boolean);
    let f1 = e.de.insert_function(function("f", vec![], u1, None));
    let f2 = e.de.insert_function(function("f", vec![], u2, None));
    let f3 = e.de.insert_function(function("f", vec![], b, None));
    let x = TyTraitInterfaceItem::TraitFn(handle(f1, "f"));
    let y = TyTraitInterfaceItem::TraitFn(handle(f2, "f"));
    let z = TyTraitInterfaceItem::TraitFn(handle(f3, "f"));
    assert!(x.eq(&y, &e));
    assert!(!x.eq(&z, &e));
}

#[test]
fn equality_is_order_sensitive() {
    let mut e = engines();
    let u = e.te.insert(TypeInfo::UnsignedInteger(64));
    let self_ty = e.te.insert(TypeInfo::Generic(0));
    let f = e.de.insert_function(function("f", vec![], u, Some(u)));
    let g = e.de.insert_function(function("g", vec![], u, Some(u)));
    let a = trait_decl(
        "Tr",
        vec![],
        self_ty,
        vec![],
        vec![TyTraitItem::Fn(handle(f, "f")), TyTraitItem::Fn(handle(g, "g"))],
        Span::new(0, 5),
    );
    let b = trait_decl(
        "Tr",
        vec![],
        self_ty,
        vec![],
        vec![TyTraitItem::Fn(handle(g, "g")), TyTraitItem::Fn(handle(f, "f"))],
        Span::new(0, 5),
    );
    assert!(a.eq(&a, &e));
    assert!(!a.eq(&b, &e));
    let c = trait_decl(
        "Tr",
        vec![],
        self_ty,
        vec![
            TyTraitInterfaceItem::TraitFn(handle(f, "f")),
            TyTraitInterfaceItem::TraitFn(handle(g, "g")),
        ],
        vec![],
        Span::new(0, 5),
    );
    let d = trait_decl(
        "Tr",
        vec![],
        self_ty,
        vec![
            TyTraitInterfaceItem::TraitFn(handle(g, "g")),
            TyTraitInterfaceItem::TraitFn(handle(f, "f")),
        ],
        vec![],
        Span::new(0, 5),
    );
    assert!(!c.eq(&d, &e));
}

#[test]
fn equality_compares_name_visibility_and_supertraits() {
    let s = show_trait();
    let mut other = trait_decl(
        "Display",
        vec![TypeParameter { name: ident("T", 11), type_id: s.t }],
        s.decl.self_type.type_id,
        vec![TyTraitInterfaceItem::TraitFn(handle(s.show_id, "show"))],
        vec![],
        Span::new(0, 80),
    );
    assert!(!s.decl.eq(&other, &s.engines));
    other.name = ident("Show", 0);
    assert!(s.decl.eq(&other, &s.engines));
    other.visibility = Visibility::Private;
    assert!(!s.decl.eq(&other, &s.engines));
    other.visibility = Visibility::Public;
    other.supertraits.push(Supertrait { name: ident("Base", 0) });
    assert!(!s.decl.eq(&other, &s.engines));
}

#[test]
fn equal_declarations_hash_alike() {
    let s = show_trait();
    let mut b = trait_decl(
        "Show",
        vec![TypeParameter { name: ident("T", 99), type_id: s.t }],
        s.decl.self_type.type_id,
        vec![TyTraitInterfaceItem::TraitFn(handle(s.show_id, "show"))],
        vec![],
        Span::new(500, 580),
    );
    b.attributes.push(Attribute { name: ident("inline", 1) });
    assert!(s.decl.eq(&b, &s.engines));
    let mut h1 = HashSink::new();
    let mut h2 = HashSink::new();
    s.decl.hash(&mut h1, &s.engines);
    b.hash(&mut h2, &s.engines);
    assert!(!h1.writes.is_empty());
    assert_eq!(h1.writes, h2.writes);
    b.visibility = Visibility::Private;
    let mut h3 = HashSink::new();
    b.hash(&mut h3, &s.engines);
    assert_ne!(h1.writes, h3.writes);
}

struct Mixed {
    engines: Engines,
    decl: TyTraitDecl,
}

/// A trait with one member of each kind in both lists.
fn mixed_trait() -> Mixed {
    let mut e = engines();
    let t = e.te.insert(TypeInfo::Generic(0));
    let self_ty = e.te.insert(TypeInfo::Generic(1));
    let sig = e.de.insert_function(function("sig", vec![t], t, None));
    let c = e.de.insert_constant(constant("C", t, None));
    let ty = e.de.insert_trait_type(TyTraitType { name: ident("Out", 0), ty: None, span: Span::dummy() });
    let body = e.de.insert_function(function("body", vec![t], t, Some(t)));
    let pc = e.de.insert_constant(constant("D", t, Some(t)));
    let pty = e.de.insert_trait_type(TyTraitType { name: ident("Item", 0), ty: Some(t), span: Span::dummy() });
    let decl = trait_decl(
        "Mixed",
        vec![TypeParameter { name: ident("T", 0), type_id: t }],
        self_ty,
        vec![
            TyTraitInterfaceItem::TraitFn(handle(sig, "sig")),
            TyTraitInterfaceItem::Constant(handle(c, "C")),
            TyTraitInterfaceItem::Type(handle(ty, "Out")),
        ],
        vec![
            TyTraitItem::Fn(handle(body, "body")),
            TyTraitItem::Constant(handle(pc, "D")),
            TyTraitItem::Type(handle(pty, "Item")),
        ],
        Span::new(0, 100),
    );
    Mixed { engines: e, decl }
}

#[test]
fn substitution_gives_new_handles_and_keeps_template() {
    let mut m = mixed_trait();
    let template_surface: Vec<DeclId> = m.decl.interface_surface.iter().map(surface_id).collect();
    let template_items: Vec<DeclId> = m.decl.items.iter().map(item_id).collect();
    let template = trait_decl(
        "Mixed",
        vec![TypeParameter { name: ident("T", 0), type_id: m.decl.type_parameters[0].type_id }],
        m.decl.self_type.type_id,
        vec![
            TyTraitInterfaceItem::TraitFn(handle(0, "sig")),
            TyTraitInterfaceItem::Constant(handle(0, "C")),
            TyTraitInterfaceItem::Type(handle(0, "Out")),
        ],
        vec![
            TyTraitItem::Fn(handle(1, "body")),
            TyTraitItem::Constant(handle(1, "D")),
            TyTraitItem::Type(handle(1, "Item")),
        ],
        Span::new(0, 100),
    );
    let mut before = HashSink::new();
    template.hash(&mut before, &m.engines);
    let b = m.engines.te.insert(TypeInfo::Boolean);
    let mut map = TypeSubstMap::new();
    map.insert(m.decl.type_parameters[0].type_id, b);
    let _ = m.decl.subst_inner(&map, &mut m.engines);
    for (i, item) in m.decl.interface_surface.iter().enumerate() {
        assert_ne!(surface_id(item), template_surface[i]);
    }
    for (i, item) in m.decl.items.iter().enumerate() {
        assert_ne!(item_id(item), template_items[i]);
    }
    let mut after = HashSink::new();
    template.hash(&mut after, &m.engines);
    assert_eq!(before.writes, after.writes);
    assert!(!template.eq(&m.decl, &m.engines));
    let c = m.engines.de.get_constant(0);
    assert_eq!(m.engines.te.get(c.type_id), TypeInfo::Generic(0));
    let new_c = match &m.decl.interface_surface[1] {
        TyTraitInterfaceItem::Constant(r) => r.id,
        _ => panic!("C is a constant"),
    };
    assert_eq!(m.engines.te.get(m.engines.de.get_constant(new_c).type_id), TypeInfo::Boolean);
    assert_eq!(m.engines.de.constants[new_c].parent, None);
}

#[test]
fn mapping_covers_functions_constants_and_items() {
    let mut m = mixed_trait();
    let b = m.engines.te.insert(TypeInfo::Boolean);
    let mut map = TypeSubstMap::new();
    map.insert(m.decl.type_parameters[0].type_id, b);
    let mapping = m.decl.subst_inner(&map, &mut m.engines);
    assert!(mapping.find(DeclId::Function(0)).is_some());
    assert!(mapping.find(DeclId::Constant(0)).is_some());
    assert_eq!(mapping.find(DeclId::TraitType(0)), None);
    assert!(mapping.find(DeclId::Function(1)).is_some());
    assert!(mapping.find(DeclId::Constant(1)).is_some());
    assert!(mapping.find(DeclId::TraitType(1)).is_some());
    assert_eq!(mapping.entries.len(), 5);
    let new_item_type = match &m.decl.items[2] {
        TyTraitItem::Type(r) => r.id,
        _ => panic!("Item is an associated type"),
    };
    assert_eq!(m.engines.de.trait_types[new_item_type].parent, Some(1));
    assert_eq!(mapping.find(DeclId::TraitType(1)), Some(DeclId::TraitType(new_item_type)));
}

#[test]
fn empty_map_still_copies() {
    let mut s = show_trait();
    let map = TypeSubstMap::new();
    assert!(map.is_empty());
    let _ = s.decl.subst_inner(&map, &mut s.engines);
    assert_eq!(s.engines.de.functions.len(), 2);
    let copy = s.engines.de.get_function(1);
    assert_eq!(copy.return_type, s.t);
}

#[test]
fn finalization_is_idempotent() {
    let mut m = mixed_trait();
    let mut handler = Handler::new();
    assert!(m.decl.finalize_items(&mut handler, &mut m.engines).is_ok());
    assert_eq!(handler.len(), 0);
    assert!(m.engines.de.get_function(1).checked);
    assert!(m.engines.de.get_constant(1).checked);
    assert!(!m.engines.de.get_function(0).checked);
    let first = m.engines.de.get_function(1);
    assert!(m.decl.finalize_items(&mut handler, &mut m.engines).is_ok());
    assert_eq!(handler.len(), 0);
    let second = m.engines.de.get_function(1);
    assert!(first.eq_in(&second, &m.engines.te));
    assert!(second.checked);
}

#[test]
fn failing_item_does_not_stop_the_others() {
    let mut e = engines();
    let u = e.te.insert(TypeInfo::UnsignedInteger(64));
    let b = e.te.insert(TypeInfo::Boolean);
    let self_ty = e.te.insert(TypeInfo::Generic(0));
    let f1 = e.de.insert_function(function("first", vec![], u, Some(u)));
    let f2 = e.de.insert_function(function("second", vec![], u, Some(b)));
    let f3 = e.de.insert_function(function("third", vec![], b, Some(b)));
    let decl = trait_decl(
        "Three",
        vec![],
        self_ty,
        vec![],
        vec![
            TyTraitItem::Fn(handle(f1, "first")),
            TyTraitItem::Fn(handle(f2, "second")),
            TyTraitItem::Fn(handle(f3, "third")),
        ],
        Span::new(0, 10),
    );
    let mut handler = Handler::new();
    let r = decl.finalize_items(&mut handler, &mut e);
    assert!(r.is_err());
    assert_eq!(handler.len(), 1);
    assert_eq!(handler.diagnostics[0].expected, TypeInfo::UnsignedInteger(64));
    assert_eq!(handler.diagnostics[0].found, TypeInfo::Boolean);
    assert!(e.de.get_function(f1).checked);
    assert!(!e.de.get_function(f2).checked);
    assert!(e.de.get_function(f3).checked);
}

#[test]
fn constant_with_wrong_value_fails() {
    let mut e = engines();
    let u = e.te.insert(TypeInfo::UnsignedInteger(8));
    let b = e.te.insert(TypeInfo::B256);
    let c = e.de.insert_constant(constant("C", u, Some(b)));
    let mut item = TyTraitItem::Constant(handle(c, "C"));
    let mut handler = Handler::new();
    assert!(item.type_check_finalize(&mut handler, &mut e).is_err());
    assert_eq!(handler.len(), 1);
    assert!(!e.de.get_constant(c).checked);
    let t = e.de.insert_trait_type(TyTraitType { name: ident("A", 0), ty: None, span: Span::dummy() });
    let mut ty_item = TyTraitItem::Type(handle(t, "A"));
    assert!(ty_item.type_check_finalize(&mut handler, &mut e).is_ok());
    assert_eq!(handler.len(), 1);
}

#[test]
fn item_substitution_is_in_place() {
    let mut e = engines();
    let t = e.te.insert(TypeInfo::Generic(0));
    let s = e.te.insert(TypeInfo::StringSlice);
    let f = e.de.insert_function(function("f", vec![t, t], t, Some(t)));
    let mut item = TyTraitItem::Fn(handle(f, "f"));
    let mut map = TypeSubstMap::new();
    map.insert(t, s);
    item.subst_inner(&map, &mut e);
    assert_eq!(e.de.functions.len(), 1);
    let body = e.de.get_function(f);
    assert_eq!(body.parameters, vec![s, s]);
    assert_eq!(body.return_type, s);
    assert_eq!(body.body_type, Some(s));
}

#[test]
fn implementing_type_is_set_on_functions_only() {
    let mut e = engines();
    let u = e.te.insert(TypeInfo::Unit);
    let imp = e.te.insert(TypeInfo::UnsignedInteger(32));
    let f = e.de.insert_function(function("f", vec![], u, None));
    let c = e.de.insert_constant(constant("C", u, None));
    let mut fi = TyTraitItem::Fn(handle(f, "f"));
    fi.replace_implementing_type(&mut e, imp);
    assert_eq!(e.de.get_function(f).implementing_type, Some(imp));
    let mut ci = TyTraitItem::Constant(handle(c, "C"));
    ci.replace_implementing_type(&mut e, imp);
    assert_eq!(e.de.get_constant(c).name.as_str(), "C");
    assert_eq!(ci.span(), Span::new(0, 1));
}

#[test]
fn trait_metadata() {
    let s = show_trait();
    assert!(s.decl.has_self_type_param());
    assert_eq!(s.decl.name().as_str(), "Show");
    assert_eq!(s.decl.span(), Span::new(0, 80));
    assert_eq!(s.decl.type_parameters().len(), 1);
}

#[test]
fn substitution_map_first_entry_wins() {
    let mut te = TypeEngine::new();
    let a = te.insert(TypeInfo::Generic(0));
    let b = te.insert(TypeInfo::Boolean);
    let c = te.insert(TypeInfo::Unit);
    let mut map = TypeSubstMap::new();
    map.insert(a, b);
    map.insert(a, c);
    assert_eq!(map.apply(a), b);
    assert_eq!(map.apply(b), b);
    assert_eq!(te.get(TypeId { index: 99 }), TypeInfo::Unknown);
    assert!(te.eq_types(a, a));
    assert!(!te.eq_types(a, b));
}
