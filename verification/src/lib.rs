//! A safe embedding layer around a reference-counted scripting engine.
//!
//! The crate models the engine's value heap explicitly: every engine-side
//! allocation is tracked in a refcount table, values are marshaled between
//! the host representation ([`value::JsValue`]) and the engine representation
//! ([`raw::RawValue`]), and ownership of engine values is handled through
//! handles that release their cells exactly once.

pub mod callback;
pub mod context;
pub mod engine;
pub mod laws;
pub mod text;
pub mod raw;
pub mod value;
