//! Marshalling core for embedding an analytical SQL engine in a dynamically
//! typed host runtime.
//!
//! The library owns the logic that is worth getting right: the closed model of
//! every value an engine column cell can hold ([`value::SourceValue`]), the
//! total conversion of such values into the host's dynamic value model
//! ([`value::HostValue`]), the projection of whole rows into positional or
//! keyed shapes, the text-keyed prepared-statement cache with its exclusive
//! iteration rule, and the translation of every failure into one reported
//! error shape. The engine itself and the host runtime's object system are
//! external collaborators: an embedding layer drives them and hands this
//! library plain values.

pub mod cache;
pub mod convert;
pub mod digits;
pub mod errors;
pub mod project;
pub mod session;
pub mod value;
