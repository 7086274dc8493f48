//! Tokenizer behavior: matches found at short distances, the window cap,
//! and replaying tokens reconstructs the input.
use zipper::lz::tokenize;
use zipper::lz::Token;

fn replay(tokens: &[Token]) -> Vec<u8> {
    let mut out: Vec<u8> = Vec::new();
    for t in tokens {
        match *t {
            Token::Literal(b) => out.push(b),
            Token::Match { len, dist } => {
                for _ in 0..len {
                    let b = out[out.len() - dist as usize];
                    out.push(b);
                }
            },
        }
    }
    out
}

#[test]
fn repeated_byte_matches_at_distance_one() {
    let input = b"AAAAAAAAAA".to_vec();
    let tokens = tokenize(input.clone());
    assert_eq!(tokens[0], Token::Literal(b'A'));
    assert!(tokens.iter().any(|t| matches!(*t, Token::Match { len, dist } if len >= 3 && dist == 1)));
    assert_eq!(replay(&tokens), input);
}

#[test]
fn long_run_reaches_max_match_len() {
    let input = vec![b'B'; 300];
    let tokens = tokenize(input.clone());
    assert!(tokens.iter().any(|t| matches!(*t, Token::Match { len, .. } if len == 258)));
    assert_eq!(replay(&tokens), input);
}

/// 1026 bytes in which every two-byte sequence occurs only once: pairs of a
/// high marker byte and a low counter byte.
fn distinct_pairs() -> Vec<u8> {
    let mut a = Vec::new();
    for i in 0..513usize {
        a.push(128 + (i >> 6) as u8);
        a.push((i & 63) as u8);
    }
    a
}

#[test]
fn repeat_beyond_window_cap_stays_literal() {
    // The only repeats sit exactly 1025 positions apart, one past the
    // window cap, so nothing may be coded as a match.
    let a = distinct_pairs();
    let mut input = a[..1025].to_vec();
    input.extend_from_slice(&a[..10]);
    let tokens = tokenize(input.clone());
    assert!(tokens.iter().all(|t| matches!(*t, Token::Literal(_))));
    assert_eq!(replay(&tokens), input);
}

#[test]
fn repeat_within_window_cap_is_matched() {
    // The same construction one byte shorter puts the repeat at distance
    // 1024, inside the cap, and a match appears.
    let a = distinct_pairs();
    let mut input = a[1..1025].to_vec();
    input.extend_from_slice(&a[1..11]);
    let tokens = tokenize(input.clone());
    assert!(tokens.iter().any(|t| matches!(*t, Token::Match { dist, .. } if dist == 1024)));
    assert_eq!(replay(&tokens), input);
}

#[test]
fn empty_input_gives_no_tokens() {
    let tokens = tokenize(Vec::new());
    assert!(tokens.is_empty());
}

#[test]
fn two_distinct_bytes_stay_literals() {
    let tokens = tokenize(b"xy".to_vec());
    assert_eq!(tokens, vec![Token::Literal(b'x'), Token::Literal(b'y')]);
}
