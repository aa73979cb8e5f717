use regex_specificity::get;
use regex_specificity::pattern::PatternError;

fn score(target: &str, pattern: &str) -> u64 {
    get(target, pattern).expect("pattern should parse")
}

#[test]
fn determinism_identical_inputs_identical_scores() {
    let a = get("alice@myprovider.com", "alice@myprovider\\.[a-z]+");
    let b = get("alice@myprovider.com", "alice@myprovider\\.[a-z]+");
    assert_eq!(a, b);
    let c = get("abc", ".*");
    let d = get("abc", ".*");
    assert_eq!(c, d);
}

#[test]
fn totality_non_matching_pairs_still_score() {
    // The precondition that the target matches the pattern is not checked:
    // a mismatching pair yields some number, never an error or a panic.
    assert!(get("xyz", "abc").is_ok());
    assert!(get("", "abc").is_ok());
    assert!(get("abc", "").is_ok());
    assert!(get("abc", "x{3,7}").is_ok());
    assert_eq!(get("abc", ""), Ok(0));
    assert_eq!(get("", "a|b"), Ok(0));
}

#[test]
fn syntax_error_is_reported() {
    assert_eq!(get("x", "("), Err(PatternError::Syntax));
    assert_eq!(get("x", "[a-"), Err(PatternError::Syntax));
    assert!(get("x", "(a|b").is_err());
}

#[test]
fn monotonicity_literal_beats_wildcard() {
    assert!(score("abc", "abc") > score("abc", ".*"));
}

#[test]
fn literal_score_is_length_times_weight() {
    // Three bytes, each under the full initial weight of 1 << 16.
    assert_eq!(score("abc", "abc"), 3 * 65536);
    assert_eq!(score("ab", "ab"), 2 * 65536);
}

#[test]
fn degenerate_equality_wildcard_padding() {
    // Bit-exact: the inner literal of ".*a.*" is starved by the greedy
    // leading ".*", so both patterns collapse to the same contribution.
    assert_eq!(score("cat", ".*"), score("cat", ".*a.*"));
}

#[test]
fn branch_penalty_divides_by_declared_count() {
    // The compiler keeps an alternation of multi-byte literals as an
    // alternation; the selected branch's contribution is halved by the two
    // declared branches.
    assert_eq!(score("ab", "(ab|cd)"), score("ab", "ab") / 2);
}

#[test]
fn single_char_alternation_compiles_to_a_class() {
    // The compiler rewrites an alternation of single characters into the
    // class [ab] of size two, so the class rule applies: a two-step shift
    // of the weight rather than the branch division.
    assert_eq!(score("a", "(a|b)"), 65536 >> 2);
}

#[test]
fn branch_penalty_counts_skipped_branches() {
    // The divisor is the declared branch count even when earlier branches
    // are skipped: the anchor branch consumes nothing and is passed over,
    // yet still counts toward the division.
    assert_eq!(score("ab", "^|ab"), score("ab", "ab") / 2);
}

#[test]
fn empty_alternation_branch_selects_and_contributes_zero() {
    // The leading empty branch qualifies by being Empty, consumes nothing,
    // and its zero contribution is still divided by the branch count.
    assert_eq!(score("x", "|x"), 0);
}

#[test]
fn anchors_contribute_a_small_fraction() {
    // Look contributions: 65536 >> 9 = 128 before the literal, and
    // (65536 - 128) >> 9 = 127 after it.
    assert_eq!(score("a", "^a$"), 128 + 65536 + 127);
}

#[test]
fn class_narrowness_beats_wildcard() {
    // [a-z] has 26 symbols (5 shift steps); "." spans nearly all of
    // Unicode and is shifted by the cap of 15.
    assert_eq!(score("a", "[a-z]"), 65536 >> 5);
    assert_eq!(score("a", "."), 65536 >> 15);
    assert!(score("a", "[a-z]") > score("a", "."));
}

#[test]
fn wildcard_steps_over_whole_characters() {
    // "日本": six bytes, two characters. The Unicode wildcard consumes a
    // whole three-byte character per iteration and decays the weight by
    // three steps each time, so only two iterations happen.
    assert_eq!(score("日本", ".*"), (65536 >> 15) + (65152 >> 15));
}

#[test]
fn repetition_decays_weight_per_byte() {
    // Each repeated byte costs 128 weight for the next iteration.
    assert_eq!(score("aaa", "a*"), 65536 + 65408 + 65280);
}

#[test]
fn capture_is_transparent() {
    assert_eq!(score("ab", "(ab)"), score("ab", "ab"));
}

#[test]
fn boundary_empty_target_empty_pattern() {
    assert_eq!(get("", ""), Ok(0));
}

#[test]
fn ranking_scenario_orders_candidates() {
    let target = "alice@myprovider.com";
    let patterns = [
        "alice@myprovider.com",
        "^alice@myprovider.com$",
        "alice@myprovider.co.",
        ".lice@myprovider.com",
        "alice@myprovider\\.[a-z]+",
        "alice@myprovider\\..+",
        ".*",
        "alice@(myprovider|other)\\.com",
        "",
        "^$",
    ];
    let scores: Vec<u64> = patterns.iter().map(|p| score(target, p)).collect();
    let exact = scores[0];
    let anchored = scores[1];
    let wildcard = scores[6];
    let empty = scores[8];
    let anchors_only = scores[9];

    // The dots inside the "exact" candidate are wildcard classes, so its
    // sixteen-byte head earns full weight, each dot earns a shifted sliver,
    // and "com" earns the decayed weight: 16*65536 + 1 + 3*63360.
    assert_eq!(exact, 1238657);

    // The two full-string candidates outrank every looser pattern.
    for (i, s) in scores.iter().enumerate() {
        if i != 0 && i != 1 {
            assert!(exact > *s, "pattern {} not below the exact literal", i);
            assert!(anchored > *s, "pattern {} not below the anchored literal", i);
        }
    }

    // The empty pattern contributes nothing and sits at the very bottom;
    // the bare wildcard stays near the bottom, just above it.
    assert_eq!(empty, 0);
    assert!(wildcard > empty);
    let mut sorted = scores.to_vec();
    sorted.sort();
    assert_eq!(sorted[0], empty);
    assert_eq!(sorted[1], wildcard);
    assert_eq!(sorted[2], anchors_only);
}
