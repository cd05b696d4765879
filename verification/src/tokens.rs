//! From tokens at absolute positions to the editor's delta-encoded stream.
//!
//! The editor protocol sends each token relative to the one before it: how
//! many lines further down it starts, and how many columns further right
//! where it starts on the same line. The first token is relative to the
//! start of the document. Tokens whose kind is outside the legend are left
//! out, and the tokens that follow are relative to the last token that was
//! sent.

use crate::error::AnalysisError;
use crate::position::Position;
use crate::report::{ClassifiedToken, TokenKind};
use vstd::prelude::*;

verus! {

/// One token of the delta-encoded stream.
#[derive(Clone, Copy, Debug, PartialEq, Eq, Structural)]
pub struct EncodedToken {
    pub delta_line: u32,
    pub delta_start: u32,
    pub length: u32,
    pub token_type: u32,
    pub token_modifiers_bitset: u32,
}

/// The place of a kind in the token legend, for the kinds that have one.
pub open spec fn legend_place(kind: TokenKind) -> Option<u32> {
    match kind {
        TokenKind::Keyword => Some(0u32),
        TokenKind::String => Some(1u32),
        TokenKind::Number => Some(2u32),
        TokenKind::Filter => Some(3u32),
        TokenKind::Unrecognized => None,
    }
}

/// The tokens that are sent: those whose kind has a place in the legend, in
/// their order.
pub open spec fn emitted(tokens: Seq<ClassifiedToken>) -> Seq<ClassifiedToken> {
    tokens.filter(|token: ClassifiedToken| legend_place(token.kind) is Some)
}

/// The position that the token at place `i` of the sent tokens is relative
/// to: the start of the one before it, or the start of the document.
pub open spec fn reference_point(sent: Seq<ClassifiedToken>, i: int) -> Position {
    if i <= 0 {
        Position::origin()
    } else {
        sent[i - 1].range.start
    }
}

/// Whether the tokens that are sent start in ascending order of line and
/// column: none starts before the one sent before it.
pub open spec fn in_order(sent: Seq<ClassifiedToken>) -> bool {
    forall|i: int|
        0 <= i < sent.len() ==> reference_point(sent, i).at_or_before(
            (#[trigger] sent[i]).range.start,
        )
}

/// Whether a list of tokens starts in ascending order of line and column.
pub open spec fn sorted_by_start(tokens: Seq<ClassifiedToken>) -> bool {
    forall|i: int, j: int|
        0 <= i < j < tokens.len() ==> (#[trigger] tokens[i]).range.start.at_or_before(
            (#[trigger] tokens[j]).range.start,
        )
}

/// Whether a token can be sent relative to `previous`: it starts no earlier,
/// and it does not end left of where it starts.
pub open spec fn fits_after(previous: Position, token: ClassifiedToken) -> bool {
    previous.at_or_before(token.range.start) && token.range.start.character
        <= token.range.end.character
}

/// Whether a list of tokens can be encoded: the tokens that are sent are in
/// order, and none of them ends left of where it starts.
pub open spec fn encodable(tokens: Seq<ClassifiedToken>) -> bool {
    let sent = emitted(tokens);
    forall|i: int| 0 <= i < sent.len() ==> fits_after(reference_point(sent, i), #[trigger] sent[i])
}

/// A token relative to `previous`.
pub open spec fn encoded_after(previous: Position, token: ClassifiedToken) -> EncodedToken {
    EncodedToken {
        delta_line: (token.range.start.line - previous.line) as u32,
        delta_start: if token.range.start.line == previous.line {
            (token.range.start.character - previous.character) as u32
        } else {
            token.range.start.character
        },
        length: (token.range.end.character - token.range.start.character) as u32,
        token_type: legend_place(token.kind)->0,
        token_modifiers_bitset: 0,
    }
}

/// The delta-encoded stream of a list of tokens: each token that is sent,
/// relative to the one sent before it.
pub open spec fn encoded(tokens: Seq<ClassifiedToken>) -> Seq<EncodedToken> {
    let sent = emitted(tokens);
    Seq::new(sent.len(), |i: int| encoded_after(reference_point(sent, i), sent[i]))
}

/// The line and column that a token of the stream starts at, when the one
/// before it starts at `previous`.
pub open spec fn advanced(previous: (int, int), token: EncodedToken) -> (int, int) {
    (
        previous.0 + token.delta_line,
        if token.delta_line == 0 {
            previous.1 + token.delta_start
        } else {
            token.delta_start as int
        },
    )
}

/// The lines and columns that the tokens of a stream start at, as an editor
/// works them out: by adding up the deltas from the start of the document.
pub open spec fn absolute_starts(stream: Seq<EncodedToken>) -> Seq<(int, int)>
    decreases stream.len(),
{
    if stream.len() == 0 {
        Seq::empty()
    } else {
        let before = absolute_starts(stream.drop_last());
        let previous = if before.len() == 0 {
            (0int, 0int)
        } else {
            before.last()
        };
        before.push(advanced(previous, stream.last()))
    }
}

/// The lines and columns that a list of tokens start at.
pub open spec fn starts(tokens: Seq<ClassifiedToken>) -> Seq<(int, int)> {
    Seq::new(
        tokens.len(),
        |i: int| (tokens[i].range.start.line as int, tokens[i].range.start.character as int),
    )
}

/// What is sent of a list with one more token at its end.
proof fn lemma_emitted_push(tokens: Seq<ClassifiedToken>, token: ClassifiedToken)
    ensures
        emitted(tokens.push(token)) == if legend_place(token.kind) is Some {
            emitted(tokens).push(token)
        } else {
            emitted(tokens)
        },
{
    reveal(Seq::filter);
    assert(tokens.push(token).drop_last() =~= tokens);
}

/// What is sent of the first tokens of a list leads what is sent of the
/// whole list.
proof fn lemma_emitted_prefix(tokens: Seq<ClassifiedToken>, n: int)
    requires
        0 <= n <= tokens.len(),
    ensures
        emitted(tokens.take(n)).len() <= emitted(tokens).len(),
        emitted(tokens.take(n)) == emitted(tokens).take(emitted(tokens.take(n)).len() as int),
{
    let pred = |token: ClassifiedToken| legend_place(token.kind) is Some;
    assert(tokens.take(n) + tokens.skip(n) =~= tokens);
    Seq::filter_distributes_over_add(tokens.take(n), tokens.skip(n), pred);
    assert(emitted(tokens) == emitted(tokens.take(n)) + emitted(tokens.skip(n)));
    assert(emitted(tokens.take(n)) =~= emitted(tokens).take(emitted(tokens.take(n)).len() as int));
}

/// Adding up the deltas of the first `n` tokens of an encoded stream gives
/// the starts of the first `n` tokens that were sent.
proof fn lemma_starts_restored_up_to(tokens: Seq<ClassifiedToken>, n: int)
    requires
        in_order(emitted(tokens)),
        0 <= n <= emitted(tokens).len(),
    ensures
        absolute_starts(encoded(tokens).take(n)) == starts(emitted(tokens)).take(n),
    decreases n,
{
    let sent = emitted(tokens);
    let stream = encoded(tokens);
    if n == 0 {
        assert(absolute_starts(stream.take(0)) =~= starts(sent).take(0));
    } else {
        lemma_starts_restored_up_to(tokens, n - 1);
        assert(stream.take(n).drop_last() =~= stream.take(n - 1));
        assert(stream.take(n).last() == stream[n - 1]);
        assert(reference_point(sent, n - 1).at_or_before(sent[n - 1].range.start));
        if n > 1 {
            assert(starts(sent).take(n - 1).last() == starts(sent)[n - 2]);
        }
        assert(absolute_starts(stream.take(n)) =~= starts(sent).take(n));
    }
}

/// Decoding restores the positions: where the tokens that are sent are in
/// order, adding up the deltas of the stream from the start of the document
/// gives, token by token, the line and column at which each of them starts.
pub proof fn lemma_decoding_restores_starts(tokens: Seq<ClassifiedToken>)
    requires
        in_order(emitted(tokens)),
    ensures
        absolute_starts(encoded(tokens)) == starts(emitted(tokens)),
{
    let n = emitted(tokens).len() as int;
    lemma_starts_restored_up_to(tokens, n);
    assert(encoded(tokens).take(n) =~= encoded(tokens));
    assert(starts(emitted(tokens)).take(n) =~= starts(emitted(tokens)));
}

/// Every token that is sent is a token of the list. The result is a place
/// at which the list holds it.
pub proof fn lemma_emitted_from(tokens: Seq<ClassifiedToken>, k: int) -> (j: int)
    requires
        0 <= k < emitted(tokens).len(),
    ensures
        0 <= j < tokens.len(),
        tokens[j] == emitted(tokens)[k],
    decreases tokens.len(),
{
    let before = tokens.drop_last();
    assert(before.push(tokens.last()) =~= tokens);
    lemma_emitted_push(before, tokens.last());
    if k < emitted(before).len() {
        lemma_emitted_from(before, k)
    } else {
        tokens.len() - 1
    }
}

/// In a list that is sorted by start, the tokens that are sent are in
/// order, whatever is left out between them.
pub proof fn lemma_sorted_tokens_are_sent_in_order(tokens: Seq<ClassifiedToken>)
    requires
        sorted_by_start(tokens),
    ensures
        in_order(emitted(tokens)),
    decreases tokens.len(),
{
    if tokens.len() == 0 {
        reveal(Seq::filter);
    } else {
        let before = tokens.drop_last();
        let last = tokens.last();
        assert(before.push(last) =~= tokens);
        lemma_emitted_push(before, last);
        assert(sorted_by_start(before)) by {
            assert forall|i: int, j: int| 0 <= i < j < before.len() implies (
            #[trigger] before[i]).range.start.at_or_before((#[trigger] before[j]).range.start) by {
                assert(before[i] == tokens[i] && before[j] == tokens[j]);
            }
        }
        lemma_sorted_tokens_are_sent_in_order(before);
        let sent = emitted(tokens);
        let at = emitted(before).len() as int;
        assert forall|i: int| 0 <= i < sent.len() implies reference_point(sent, i).at_or_before(
            (#[trigger] sent[i]).range.start,
        ) by {
            if i < at {
                assert(sent[i] == emitted(before)[i]);
                assert(reference_point(sent, i) == reference_point(emitted(before), i));
            } else if at > 0 {
                let j = lemma_emitted_from(before, at - 1);
                assert(tokens[j] == before[j]);
                assert(tokens[j].range.start.at_or_before(tokens[tokens.len() - 1].range.start));
            }
        }
    }
}

/// Decoding restores the positions of every sorted list of tokens: adding
/// up the deltas of its stream from the start of the document gives, token
/// by token, the line and column at which each token that was sent starts.
pub proof fn lemma_decoding_restores_sorted_starts(tokens: Seq<ClassifiedToken>)
    requires
        sorted_by_start(tokens),
    ensures
        absolute_starts(encoded(tokens)) == starts(emitted(tokens)),
{
    lemma_sorted_tokens_are_sent_in_order(tokens);
    lemma_decoding_restores_starts(tokens);
}

/// The place of a kind in the token legend.
pub fn legend_index(kind: TokenKind) -> (place: Option<u32>)
    ensures
        place == legend_place(kind),
{
    match kind {
        TokenKind::Keyword => Some(0),
        TokenKind::String => Some(1),
        TokenKind::Number => Some(2),
        TokenKind::Filter => Some(3),
        TokenKind::Unrecognized => None,
    }
}

/// Encodes a list of tokens as the editor's delta stream. Tokens of an
/// unrecognized kind are left out. The list is refused where the tokens
/// that are sent do not start in ascending order, or where one of them ends
/// left of its start.
pub fn encode_tokens(tokens: &Vec<ClassifiedToken>) -> (stream: Result<Vec<EncodedToken>, AnalysisError>)
    ensures
        match stream {
            Ok(stream) => encodable(tokens@) && stream@ == encoded(tokens@),
            Err(error) => !encodable(tokens@) && error == AnalysisError::MalformedInput,
        },
{
    let mut stream: Vec<EncodedToken> = Vec::new();
    let mut previous = Position { line: 0, character: 0 };
    let mut i: usize = 0;
    proof {
        assert(tokens@.take(0) =~= Seq::<ClassifiedToken>::empty());
        reveal(Seq::filter);
    }
    while i < tokens.len()
        invariant
            i <= tokens.len(),
            stream@.len() == emitted(tokens@.take(i as int)).len(),
            previous == reference_point(emitted(tokens@.take(i as int)), stream@.len() as int),
            encodable(tokens@.take(i as int)),
            stream@ == encoded(tokens@.take(i as int)),
        decreases tokens.len() - i,
    {
        let token = tokens[i];
        let ghost before = tokens@.take(i as int);
        proof {
            assert(tokens@.take(i + 1) =~= before.push(token));
            lemma_emitted_push(before, token);
        }
        if let Some(token_type) = legend_index(token.kind) {
            let start = token.range.start;
            let ghost sent = emitted(before).push(token);
            let ghost at = emitted(before).len() as int;
            if start.line < previous.line || (start.line == previous.line && start.character
                < previous.character) || token.range.end.character < start.character {
                proof {
                    lemma_emitted_prefix(tokens@, i + 1);
                    assert(emitted(tokens@.take(i + 1)) == sent);
                    assert(emitted(tokens@).take(sent.len() as int)[at] == token);
                    if at > 0 {
                        assert(emitted(tokens@).take(sent.len() as int)[at - 1] == sent[at - 1]);
                    }
                    assert(reference_point(emitted(tokens@), at) == previous);
                    assert(!fits_after(previous, token));
                }
                return Err(AnalysisError::MalformedInput);
            }
            stream.push(
                EncodedToken {
                    delta_line: start.line - previous.line,
                    delta_start: if start.line == previous.line {
                        start.character - previous.character
                    } else {
                        start.character
                    },
                    length: token.range.end.character - start.character,
                    token_type,
                    token_modifiers_bitset: 0,
                },
            );
            proof {
                assert forall|k: int| 0 <= k < sent.len() implies fits_after(
                    reference_point(sent, k),
                    #[trigger] sent[k],
                ) by {
                    if k < at {
                        assert(sent[k] == emitted(before)[k]);
                        assert(reference_point(sent, k) == reference_point(emitted(before), k));
                    }
                }
                assert(stream@ =~= encoded(before.push(token))) by {
                    assert forall|k: int| 0 <= k < sent.len() implies stream@[k] == encoded_after(
                        reference_point(sent, k),
                        sent[k],
                    ) by {
                        if k < at {
                            assert(stream@[k] == encoded(before)[k]);
                            assert(reference_point(sent, k) == reference_point(emitted(before), k));
                        }
                    }
                }
            }
            previous = start;
        }
        i += 1;
    }
    proof {
        assert(tokens@.take(i as int) =~= tokens@);
    }
    Ok(stream)
}

} // verus!
