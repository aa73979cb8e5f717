use regex_specificity::model::WEIGHT;
use regex_specificity::pattern::Pattern;

#[test]
fn empty_node_scores_nothing() {
    assert_eq!(regex_specificity::calc(&Pattern::Empty, &vec![], WEIGHT), (0, 0));
    assert_eq!(regex_specificity::calc(&Pattern::Empty, &vec![1, 2, 3], WEIGHT), (0, 0));
}

#[test]
fn literal_truncates_to_window() {
    let lit = Pattern::Literal(vec![b'a', b'b', b'c']);
    assert_eq!(regex_specificity::calc(&lit, &vec![b'a', b'b'], WEIGHT), (2 * 65536, 2));
    assert_eq!(regex_specificity::calc(&lit, &vec![], WEIGHT), (0, 0));
}

#[test]
fn literal_saturates_at_u64_max() {
    let lit = Pattern::Literal(vec![b'a', b'b', b'c']);
    assert_eq!(regex_specificity::calc(&lit, &vec![b'x', b'y', b'z'], u64::MAX), (u64::MAX, 3));
}

#[test]
fn single_symbol_class_keeps_full_weight() {
    let class = Pattern::Class { ranges: vec![(97, 97)], unicode: false };
    assert_eq!(regex_specificity::calc(&class, &vec![b'x', b'y'], WEIGHT), (65536, 1));
}

#[test]
fn inverted_range_counts_as_empty() {
    // An inverted range holds no symbols, so the class size stays at most 1
    // and the full weight is kept.
    let class = Pattern::Class { ranges: vec![(98, 97)], unicode: false };
    assert_eq!(regex_specificity::calc(&class, &vec![b'x'], WEIGHT), (65536, 1));
}

#[test]
fn class_shift_grows_with_size_and_caps() {
    // Two symbols: bit length 2, so the weight is shifted twice.
    let two = Pattern::Class { ranges: vec![(97, 98)], unicode: false };
    assert_eq!(regex_specificity::calc(&two, &vec![b'x'], WEIGHT).0, 65536 >> 2);
    // Range lengths add across ranges: 2 + 2 symbols gives bit length 3.
    let four = Pattern::Class { ranges: vec![(97, 98), (100, 101)], unicode: false };
    assert_eq!(regex_specificity::calc(&four, &vec![b'x'], WEIGHT).0, 65536 >> 3);
    // A huge class is capped at fifteen shift steps.
    let wide = Pattern::Class { ranges: vec![(0, 0xFFFF)], unicode: false };
    assert_eq!(regex_specificity::calc(&wide, &vec![b'x'], WEIGHT).0, 65536 >> 15);
    // The contribution never falls below one, however small the weight.
    assert_eq!(regex_specificity::calc(&wide, &vec![b'x'], 1).0, 1);
}

#[test]
fn assertion_contribution_floors_at_one() {
    assert_eq!(regex_specificity::calc(&Pattern::Look, &vec![], 0), (1, 0));
    assert_eq!(regex_specificity::calc(&Pattern::Look, &vec![b'a'], WEIGHT), (128, 0));
}

#[test]
fn class_on_empty_window_scores_nothing() {
    let class = Pattern::Class { ranges: vec![(97, 122)], unicode: true };
    assert_eq!(regex_specificity::calc(&class, &vec![], WEIGHT), (0, 0));
}

#[test]
fn byte_class_consumes_one_byte_of_multibyte_char() {
    let class = Pattern::Class { ranges: vec![(0, 255)], unicode: false };
    assert_eq!(regex_specificity::calc(&class, &vec![0xC3, 0xA9], WEIGHT).1, 1);
}

#[test]
fn unicode_class_consumes_whole_first_char() {
    let class = Pattern::Class { ranges: vec![(0, 0x10FFFF)], unicode: true };
    // Two-byte character.
    assert_eq!(regex_specificity::calc(&class, &vec![0xC3, 0xA9], WEIGHT).1, 2);
    // Three-byte character.
    assert_eq!(regex_specificity::calc(&class, &vec![0xE4, 0xBD, 0xA0], WEIGHT).1, 3);
    // Four-byte character.
    assert_eq!(regex_specificity::calc(&class, &vec![0xF0, 0x9F, 0x98, 0x80], WEIGHT).1, 4);
    // Plain one-byte character.
    assert_eq!(regex_specificity::calc(&class, &vec![b'a'], WEIGHT).1, 1);
}

#[test]
fn unicode_class_falls_back_on_invalid_windows() {
    let class = Pattern::Class { ranges: vec![(0, 0x10FFFF)], unicode: true };
    // Truncated character.
    assert_eq!(regex_specificity::calc(&class, &vec![0xC3], WEIGHT).1, 1);
    // Valid first character, but the window as a whole is not valid UTF-8,
    // so the fallback width of one byte applies.
    assert_eq!(regex_specificity::calc(&class, &vec![0xC3, 0xA9, 0xFF], WEIGHT).1, 1);
    // Surrogate encoding is rejected.
    assert_eq!(regex_specificity::calc(&class, &vec![0xED, 0xA0, 0x80], WEIGHT).1, 1);
    // Overlong encoding is rejected.
    assert_eq!(regex_specificity::calc(&class, &vec![0xC0, 0x80], WEIGHT).1, 1);
}

#[test]
fn repetition_stops_when_nothing_is_consumed() {
    let rep = Pattern::Repetition(Box::new(Pattern::Look));
    assert_eq!(regex_specificity::calc(&rep, &vec![b'a', b'b'], WEIGHT), (0, 0));
}

#[test]
fn repetition_sums_decaying_iterations() {
    let rep = Pattern::Repetition(Box::new(Pattern::Literal(vec![b'a'])));
    assert_eq!(regex_specificity::calc(&rep, &vec![b'a'; 3], WEIGHT), (65536 + 65408 + 65280, 3));
}

#[test]
fn concat_threads_window_and_weight() {
    let cat = Pattern::Concat(vec![
        Pattern::Literal(vec![b'a']),
        Pattern::Literal(vec![b'b']),
    ]);
    assert_eq!(regex_specificity::calc(&cat, &vec![b'a', b'b'], WEIGHT), (65536 + 65408, 2));
}

#[test]
fn concat_children_past_the_window_see_nothing() {
    let cat = Pattern::Concat(vec![
        Pattern::Literal(vec![b'a', b'b']),
        Pattern::Literal(vec![b'c']),
    ]);
    // The first child exhausts the window; the second contributes nothing.
    assert_eq!(regex_specificity::calc(&cat, &vec![b'a', b'b'], WEIGHT), (2 * 65536, 2));
}

#[test]
fn alternation_selects_first_consuming_branch() {
    let alt = Pattern::Alternation(vec![
        Pattern::Look,
        Pattern::Literal(vec![b'a']),
    ]);
    // The zero-width branch does not qualify; the literal does, and its
    // contribution is divided by the declared branch count of two.
    assert_eq!(regex_specificity::calc(&alt, &vec![b'a'], WEIGHT), (65536 / 2, 1));
}

#[test]
fn alternation_with_no_qualifying_branch_scores_nothing() {
    let alt = Pattern::Alternation(vec![Pattern::Literal(vec![b'a'])]);
    assert_eq!(regex_specificity::calc(&alt, &vec![], WEIGHT), (0, 0));
}

#[test]
fn capture_passes_through() {
    let plain = Pattern::Literal(vec![b'a', b'b']);
    let wrapped = Pattern::Capture(Box::new(Pattern::Literal(vec![b'a', b'b'])));
    let window = vec![b'a', b'b'];
    assert_eq!(regex_specificity::calc(&wrapped, &window, WEIGHT), regex_specificity::calc(&plain, &window, WEIGHT));
}
