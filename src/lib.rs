pub mod decl_store;
pub mod diagnostics;
pub mod hashing;
pub mod ident;
pub mod trait_decl;
pub mod trait_finalize;
pub mod trait_subst;
pub mod type_engine;
