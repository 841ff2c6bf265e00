//! A schema compiler for open recursive trees.
//!
//! A tree schema names a sum type, its generic parameters, its variants and
//! the capabilities wanted of it. One generic slot, the recursive position,
//! stands for a nested occurrence of the whole tree. From the schema the
//! compiler derives one standalone node type per variant, the sum type over
//! them, the conversions between the two, functor maps, failure and absence
//! sequencing, and the trait through which a concrete tree enters the
//! recursion.
//!
//! - [`ty`] and [`schema`] hold the shape of a schema: type expressions,
//!   fields, variants, generic parameters.
//! - [`utils`] holds the visitors that rename and find identifiers and that
//!   collect the generic parameters a variant needs, and the field mapper.
//! - [`entish`] holds the capability requests, the node compiler and the
//!   builder that compiles a whole schema.
//! - [`compile`] says what each capability compiles to, and [`emit`] what
//!   the source text of each item is.
//! - [`tokens`] hands the source text to the lexer.
//! - [`value`] holds the compiled operations over a value that can stand
//!   for a node of any schema, with the laws that hold of them.
//! - [`arithmetic`] is what a schema of sums, products and numbers compiles
//!   to, written by hand, with the laws that hold of it.

pub mod arithmetic;
pub mod compile;
pub mod emit;
pub mod entish;
pub mod schema;
pub mod text;
pub mod tokens;
pub mod ty;
pub mod utils;
pub mod value;
