//! Serialization library built with a combinator design.
//!
//! Serializers are built up from single purpose serializers, like `slice`
//! to write a raw byte slice, or `be_u16` to write a `u16` integer in big
//! endian form. Those small serializers are then assembled by combinators.
pub mod io_compat;
pub mod internal;
pub mod async_bufwriter;
pub mod bytes;
pub mod cftrait;
pub mod combinator;
pub mod combinators;
pub mod functions;
pub mod gen;
pub mod http;
pub mod model;
pub mod multi;
pub mod rewrite;
pub mod sequence;

pub use internal::{
    gen, gen_simple, BackToTheBuffer, GenError, GenResult, Seek, SerializeFn, Skip, WriteContext,
};
