//! Identity and naming core of an incremental module bundler.
//!
//! An [`ident::AssetIdent`] describes what a build output is: a primary path
//! plus optional query, fragment, nested sub-identities, modifiers, module
//! part and layer. Identities render to a canonical string, hash
//! deterministically, and turn into short, stable, length-bounded output file
//! names. A [`chunk::EcmascriptDevEvaluateChunk`] folds a set of identities
//! into one loadable output artifact: its derived identity, its bootstrap
//! code and its references.

pub mod hash;
pub mod text;
pub mod ident;
pub mod name;
pub mod json;
pub mod chunk;
pub mod laws;
