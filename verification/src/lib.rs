//! Heuristic specificity scoring: how tightly a pattern constrains a string
//! that it is known to fully match. The score walks an already-parsed
//! pattern tree alongside the target's bytes, favouring early, certain
//! constructs over late, loose ones; callers use it to rank competing
//! patterns that all match one input.

use vstd::prelude::*;

pub mod compile;
pub mod model;
pub mod pattern;
pub mod scorer;
pub mod widths;

use crate::compile::compiled;
use crate::compile::parse_pattern;
use crate::model::WEIGHT;
use crate::model::node_score;
use crate::pattern::Pattern;
use crate::pattern::PatternError;
use crate::scorer::calc_at;
use vstd::string::StrSliceExecFns;
use vstd::string::StringSliceAdditionalSpecFns;
use vstd::utf8::encode_utf8;

verus! {

/// The outcome `get` owes for a target text and a pattern text: the score of
/// the compiled pattern against the target's UTF-8 bytes under the full
/// initial weight, or the syntax error when the pattern does not compile.
pub open spec fn get_spec(target: Seq<char>, pattern: Seq<char>) -> Result<u64, PatternError> {
    match compiled(pattern) {
        Some(t) => Ok(node_score(t, encode_utf8(target), WEIGHT).0),
        None => Err(PatternError::Syntax),
    }
}

/// Scores how specifically `pattern` describes `string`.
///
/// The caller is assumed to know that `string` fully matches `pattern`; for
/// a non-matching pair the number returned has no comparative meaning, but
/// one is still returned. The only error is `PatternError::Syntax`, returned
/// exactly when the pattern text fails to compile. Total: no input panics.
pub fn get(string: &str, pattern: &str) -> (r: Result<u64, PatternError>)
    ensures
        r == get_spec(string@, pattern@),
{
    let tree = match parse_pattern(pattern) {
        Ok(t) => t,
        Err(e) => {
            return Err(e);
        },
    };
    let bytes = string.as_bytes_vec();
    proof {
        assert(bytes@.skip(0) =~= bytes@);
    }
    let scored = calc_at(&tree, &bytes, 0, WEIGHT);
    Ok(scored.0)
}

/// Scores one pattern tree against a byte window under a weight, returning
/// the tree's contribution and the count of bytes it consumed, exactly as
/// `node_score` defines them. Total over every tree and every byte string:
/// no input panics, and the consumed count never exceeds the window.
pub fn calc(node: &Pattern, bytes: &Vec<u8>, weight: u64) -> (r: (u64, usize))
    ensures
        r.0 == node_score(*node, bytes@, weight).0,
        r.1 as int == node_score(*node, bytes@, weight).1,
        r.1 <= bytes@.len(),
{
    proof {
        assert(bytes@.skip(0) =~= bytes@);
    }
    calc_at(node, bytes, 0, weight)
}

/// Determinism: the score is a function of the target and pattern texts
/// alone, so any two outcomes that `get`'s contract admits for identical
/// texts are identical.
pub proof fn lemma_get_deterministic(
    target: Seq<char>,
    pattern: Seq<char>,
    r1: Result<u64, PatternError>,
    r2: Result<u64, PatternError>,
)
    requires
        r1 == get_spec(target, pattern),
        r2 == get_spec(target, pattern),
    ensures
        r1 == r2,
{
}

} // verus!
