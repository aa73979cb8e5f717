use vstd::prelude::*;

use crate::pattern::Pattern;
use crate::pattern::PatternError;
use regex_syntax::hir::Class;
use regex_syntax::hir::ClassBytes;
use regex_syntax::hir::ClassUnicode;
use regex_syntax::hir::Hir;
use regex_syntax::hir::HirKind;

verus! {

/// regex-syntax's parsed pattern representation; opaque to verification, it
/// is rebuilt as the library's own `Pattern` before any scoring happens.
#[verifier::external_type_specification]
#[verifier::external_body]
pub struct ExHir(Hir);

/// regex-syntax's character class; split into the library's two class
/// forms by `class_node`.
#[verifier::external_type_specification]
#[verifier::external_body]
pub struct ExClass(Class);

/// regex-syntax's Unicode character class; read only through `uni_ranges`.
#[verifier::external_type_specification]
#[verifier::external_body]
pub struct ExClassUnicode(ClassUnicode);

/// regex-syntax's byte character class; read only through `byte_ranges`.
#[verifier::external_type_specification]
#[verifier::external_body]
pub struct ExClassBytes(ClassBytes);

/// The tree that compiling a pattern text yields, when the text is valid
/// pattern syntax: parsing and the conversion to `Pattern` below are pure
/// functions of the text, so their composed outcome carries one name.
pub uninterp spec fn compiled(pattern: Seq<char>) -> Option<Pattern>;

/// Relies on `ClassUnicode::ranges` and `ClassUnicodeRange::{start, end}`:
/// the class's inclusive scalar-value ranges, in order, as code point pairs.
#[verifier::external_body]
fn uni_ranges(c: &ClassUnicode) -> (r: Vec<(u32, u32)>) {
    c.ranges().iter().map(|q| (q.start() as u32, q.end() as u32)).collect()
}

/// Relies on `ClassBytes::ranges` and `ClassBytesRange::{start, end}`: the
/// class's inclusive byte ranges, in order, widened to code point pairs.
#[verifier::external_body]
fn byte_ranges(c: &ClassBytes) -> (r: Vec<(u32, u32)>) {
    c.ranges().iter().map(|q| (q.start() as u32, q.end() as u32)).collect()
}

/// Relies on the variant pair of `Class`: turns either class form into the
/// library's `Class` node, moving its ranges and setting its flag.
#[verifier::external_body]
fn class_node(c: &Class) -> (n: Pattern) {
    match c {
        Class::Unicode(u) => Pattern::Class { ranges: uni_ranges(u), unicode: true },
        Class::Bytes(b) => Pattern::Class { ranges: byte_ranges(b), unicode: false },
    }
}

/// Relies on `Hir::kind` and the variant set of `HirKind`: rebuilds the
/// compiler's tree as the library's own `Pattern`, one arm per variant,
/// moving fields only; repetition bounds, capture names and assertion
/// subtypes carry no scoring information and are dropped.
#[verifier::external_body]
fn node_of_hir(h: &Hir) -> (n: Pattern) {
    match h.kind() {
        HirKind::Empty => Pattern::Empty,
        HirKind::Literal(l) => Pattern::Literal(l.0.to_vec()),
        HirKind::Class(c) => class_node(c),
        HirKind::Look(_) => Pattern::Look,
        HirKind::Repetition(r) => Pattern::Repetition(Box::new(node_of_hir(&r.sub))),
        HirKind::Capture(c) => Pattern::Capture(Box::new(node_of_hir(&c.sub))),
        HirKind::Concat(cs) => Pattern::Concat(cs.iter().map(node_of_hir).collect()),
        HirKind::Alternation(bs) => Pattern::Alternation(bs.iter().map(node_of_hir).collect()),
    }
}

/// Relies on `regex_syntax::parse`: it deterministically parses the pattern
/// text, succeeding exactly when the text is valid pattern syntax. Composed
/// with the conversion `node_of_hir`, the tree returned is the pure function
/// of the text that `compiled` names; a syntax error becomes the library's
/// own `PatternError::Syntax`.
#[verifier::external_body]
pub(crate) fn parse_pattern(pattern: &str) -> (r: Result<Pattern, PatternError>)
    ensures
        match r {
            Ok(t) => compiled(pattern@) == Some(t),
            Err(e) => compiled(pattern@) is None && e == PatternError::Syntax,
        },
{
    match regex_syntax::parse(pattern) {
        Ok(h) => Ok(node_of_hir(&h)),
        Err(_) => Err(PatternError::Syntax),
    }
}

} // verus!
