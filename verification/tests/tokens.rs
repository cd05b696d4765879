use pilot::error::AnalysisError;
use pilot::position::{Position, Range};
use pilot::report::{ClassifiedToken, TokenKind};
use pilot::tokens::{encode_tokens, legend_index, EncodedToken};

fn token(kind: TokenKind, line: u32, from: u32, to: u32) -> ClassifiedToken {
    ClassifiedToken {
        kind,
        range: Range {
            start: Position { line, character: from },
            end: Position { line, character: to },
        },
    }
}

fn sent(delta_line: u32, delta_start: u32, length: u32, token_type: u32) -> EncodedToken {
    EncodedToken { delta_line, delta_start, length, token_type, token_modifiers_bitset: 0 }
}

/// Adds the deltas up, as an editor does.
fn decode(stream: &[EncodedToken]) -> Vec<(u32, u32)> {
    let mut line = 0;
    let mut character = 0;
    let mut starts = Vec::new();
    for token in stream {
        if token.delta_line == 0 {
            character += token.delta_start;
        } else {
            line += token.delta_line;
            character = token.delta_start;
        }
        starts.push((line, character));
    }
    starts
}

#[test]
fn legend_has_four_places() {
    assert_eq!(legend_index(TokenKind::Keyword), Some(0));
    assert_eq!(legend_index(TokenKind::String), Some(1));
    assert_eq!(legend_index(TokenKind::Number), Some(2));
    assert_eq!(legend_index(TokenKind::Filter), Some(3));
    assert_eq!(legend_index(TokenKind::Unrecognized), None);
}

#[test]
fn no_tokens_give_an_empty_stream() {
    assert_eq!(encode_tokens(&Vec::new()), Ok(Vec::new()));
}

#[test]
fn first_token_is_relative_to_the_start_of_the_document() {
    let stream = encode_tokens(&vec![token(TokenKind::Number, 4, 7, 9)]);
    assert_eq!(stream, Ok(vec![sent(4, 7, 2, 2)]));
}

#[test]
fn first_token_on_the_first_line() {
    let stream = encode_tokens(&vec![token(TokenKind::Keyword, 0, 3, 6)]);
    assert_eq!(stream, Ok(vec![sent(0, 3, 3, 0)]));
}

#[test]
fn tokens_on_one_line_are_relative_in_column() {
    let stream = encode_tokens(&vec![
        token(TokenKind::Keyword, 2, 1, 4),
        token(TokenKind::String, 2, 5, 12),
        token(TokenKind::Filter, 2, 20, 21),
    ]);
    assert_eq!(stream, Ok(vec![sent(2, 1, 3, 0), sent(0, 4, 7, 1), sent(0, 15, 1, 3)]));
}

#[test]
fn token_on_a_later_line_has_its_absolute_column() {
    let stream = encode_tokens(&vec![
        token(TokenKind::Keyword, 1, 10, 12),
        token(TokenKind::Number, 3, 2, 5),
    ]);
    assert_eq!(stream, Ok(vec![sent(1, 10, 2, 0), sent(2, 2, 3, 2)]));
}

#[test]
fn unrecognized_token_is_dropped_and_does_not_move_the_cursor() {
    let stream = encode_tokens(&vec![
        token(TokenKind::Keyword, 1, 2, 4),
        token(TokenKind::Unrecognized, 1, 6, 30),
        token(TokenKind::String, 1, 40, 45),
    ]);
    assert_eq!(stream, Ok(vec![sent(1, 2, 2, 0), sent(0, 38, 5, 1)]));
}

#[test]
fn unrecognized_token_out_of_order_is_no_error() {
    let stream = encode_tokens(&vec![
        token(TokenKind::Keyword, 5, 2, 4),
        token(TokenKind::Unrecognized, 1, 9, 3),
        token(TokenKind::String, 6, 0, 1),
    ]);
    assert_eq!(stream, Ok(vec![sent(5, 2, 2, 0), sent(1, 0, 1, 1)]));
}

#[test]
fn only_unrecognized_tokens_give_an_empty_stream() {
    let stream = encode_tokens(&vec![token(TokenKind::Unrecognized, 1, 0, 1)]);
    assert_eq!(stream, Ok(Vec::new()));
}

#[test]
fn tokens_at_the_same_place_are_accepted() {
    let stream = encode_tokens(&vec![
        token(TokenKind::Keyword, 1, 2, 4),
        token(TokenKind::Number, 1, 2, 3),
    ]);
    assert_eq!(stream, Ok(vec![sent(1, 2, 2, 0), sent(0, 0, 1, 2)]));
}

#[test]
fn token_on_an_earlier_line_is_refused() {
    let stream = encode_tokens(&vec![
        token(TokenKind::Keyword, 3, 0, 1),
        token(TokenKind::Keyword, 2, 5, 6),
    ]);
    assert_eq!(stream, Err(AnalysisError::MalformedInput));
}

#[test]
fn token_at_an_earlier_column_is_refused() {
    let stream = encode_tokens(&vec![
        token(TokenKind::Keyword, 3, 8, 9),
        token(TokenKind::Keyword, 3, 7, 9),
    ]);
    assert_eq!(stream, Err(AnalysisError::MalformedInput));
}

#[test]
fn token_that_ends_left_of_its_start_is_refused() {
    let stream = encode_tokens(&vec![token(TokenKind::Keyword, 3, 8, 2)]);
    assert_eq!(stream, Err(AnalysisError::MalformedInput));
}

#[test]
fn empty_token_is_accepted() {
    let stream = encode_tokens(&vec![token(TokenKind::Filter, 0, 0, 0)]);
    assert_eq!(stream, Ok(vec![sent(0, 0, 0, 3)]));
}

#[test]
fn largest_positions_are_encoded() {
    let stream = encode_tokens(&vec![
        token(TokenKind::Keyword, 0, 0, u32::MAX),
        token(TokenKind::String, u32::MAX, u32::MAX, u32::MAX),
    ]);
    assert_eq!(stream, Ok(vec![sent(0, 0, u32::MAX, 0), sent(u32::MAX, u32::MAX, 0, 1)]));
}

#[test]
fn decoding_restores_the_starts_of_sorted_tokens() {
    let tokens = vec![
        token(TokenKind::Keyword, 0, 0, 3),
        token(TokenKind::String, 0, 4, 9),
        token(TokenKind::Unrecognized, 0, 10, 11),
        token(TokenKind::Number, 2, 7, 8),
        token(TokenKind::Filter, 2, 9, 15),
        token(TokenKind::Unrecognized, 3, 0, 1),
        token(TokenKind::Keyword, 9, 1, 2),
    ];
    let stream = encode_tokens(&tokens).unwrap();
    let expected: Vec<(u32, u32)> = tokens
        .iter()
        .filter(|t| t.kind != TokenKind::Unrecognized)
        .map(|t| (t.range.start.line, t.range.start.character))
        .collect();
    assert_eq!(decode(&stream), expected);
    assert_eq!(decode(&stream), vec![(0, 0), (0, 4), (2, 7), (2, 9), (9, 1)]);
}
