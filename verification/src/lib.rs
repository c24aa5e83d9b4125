//! Streaming validation of XML documents against RELAX NG schemas.
//!
//! The crate is built around a pool in which every pattern is stored once,
//! and the derivatives of patterns with respect to the events of a document:
//! a run of text, an attribute, a start tag and an end tag. A validator
//! takes the events one by one; the document is valid if none is refused
//! and the pattern that is left matches the empty sequence.
//!
//! The datatypes of XML Schema are compiled from their names and facets and
//! decide which texts a `data` pattern takes. A schema is checked against
//! the restrictions of the RELAX NG specification before it is used.
//!
//! Every executable function states what it computes over values: patterns
//! in a pool that is a sequence, texts that are sequences of characters.
//! Operations that walk patterns take a bound on the depth they may reach.

pub mod compile;
pub mod compiler;
pub mod content;
pub mod datatype;
pub mod decimal;
pub mod deriv_tag;
pub mod deriv_text;
pub mod dump;
pub mod entities;
pub mod facets;
pub mod laws;
pub mod machine;
pub mod model;
pub mod nameclass;
pub mod ncname;
pub mod number;
pub mod pattern;
pub mod pool;
pub mod qname;
pub mod report;
pub mod restrictions;
pub mod settled;
pub mod span;
pub mod stack;
pub mod text;
pub mod token;
pub mod validator;
pub mod xsd;

pub use compiler::{Compiler, XsdDatatypeError};
pub use entities::parse_entities;
pub use facets::{FacetError, LengthFacet, MinMaxFacet};
pub use ncname::{
    is_valid_name, is_valid_ncname, is_valid_nmtoken, is_valid_nmtokens, is_valid_qname_syntax,
};
pub use pattern::PatternFacet;
pub use pool::{Pat, PatId, Schema};
pub use qname::{QNameVal, XsdDatatypeValues};
pub use restrictions::check_restrictions;
pub use text::{is_whitespace_char, is_whitespace_str, normalize_whitespace};
pub use token::ValidatorError;
pub use validator::Validator;
pub use xsd::{StringFacets, XsdDatatypes};
