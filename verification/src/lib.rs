//! A schema-driven codec between JSON value trees and protocol messages.
//!
//! A message type is declared by a [`syntax::DeriveInput`]: its attributes name
//! the kind of the type and its policy switches, and the directives on every
//! field name the field's protobuf type, its cardinality and its tag. The
//! declaration is expanded once, by [`deserialize::expand_deserialize`] and
//! [`serialize::expand_serialize`], into tables of per-field strategies. The
//! tables of all types live in a [`catalog::Catalog`], which
//! [`catalog::Catalog::check`] holds to its rules before it is used;
//! [`decode::decode`] and [`encode::encode`] interpret the tables for every
//! message. What holds of the two for every input is stated in [`laws`].

pub mod attr;
pub mod bytes;
pub mod canon;
pub mod catalog;
pub mod context;
pub mod decode;
pub mod deserialize;
pub mod encode;
pub mod gather;
pub mod json;
pub mod laws;
pub mod message;
pub mod number;
pub mod round_trip;
pub mod serialize;
pub mod syntax;
pub mod text;
pub mod util;
pub mod validate;
pub mod written;
