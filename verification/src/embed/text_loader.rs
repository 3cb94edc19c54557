//! What a text goes through before it is handed to the splitter.

use crate::embed::Ratio;
use vstd::prelude::*;

verus! {

/// The text with every occurrence of `from` replaced by `to`, the
/// occurrences taken from the left and not overlapping.
pub open spec fn replaced(s: Seq<char>, from: Seq<char>, to: Seq<char>) -> Seq<char>
    recommends
        from.len() > 0,
    decreases s.len(),
{
    if from.len() == 0 || s.len() < from.len() {
        s
    } else if s.take(from.len() as int) == from {
        to + replaced(s.skip(from.len() as int), from, to)
    } else {
        seq![s[0]] + replaced(s.drop_first(), from, to)
    }
}

/// `str::replace` of std with a pattern that is not empty: every match of
/// the pattern, found from the left without overlap, is replaced.
#[verifier::external_body]
fn replace(text: &str, from: &str, to: &str) -> (result: String)
    requires
        from@.len() > 0,
    ensures
        result@ == replaced(text@, from@, to@),
{
    text.replace(from, to)
}

/// The mark that stands in for a paragraph break while the single line
/// feeds are replaced.
pub const PARAGRAPH_MARK: &'static str = "{{DOUBLE_NEWLINE}}";

/// A text with its single line feeds turned into spaces and its paragraph
/// breaks kept.
pub open spec fn unwrapped(text: Seq<char>) -> Seq<char> {
    replaced(replaced(replaced(text, "\n\n"@, PARAGRAPH_MARK@), "\n"@, " "@), PARAGRAPH_MARK@, "\n\n"@)
}

/// The settings of the splitter, and what a text goes through before it
/// is handed to it.
#[derive(Debug)]
pub struct TextLoader {
    /// The size of a chunk, in tokens.
    pub chunk_size: usize,
    /// The number of tokens that a chunk shares with the chunk before it.
    pub overlap: usize,
}

/// The overlap for a chunk size and a ratio: the chunk size times the
/// whole part of the ratio.
pub open spec fn overlap_of(chunk_size: usize, ratio: Ratio) -> int {
    chunk_size * (ratio.numerator as int / ratio.denominator as int)
}

impl TextLoader {
    /// The settings for chunks of the given size. The overlap is the chunk
    /// size times the whole part of the ratio, so a ratio below one gives
    /// none. A ratio without a denominator is refused, and so is an overlap
    /// that is not smaller than a chunk.
    pub fn new(chunk_size: usize, overlap_ratio: Ratio) -> (loader: Option<Self>)
        ensures
            loader is Some <==> overlap_ratio.denominator > 0 && overlap_of(chunk_size, overlap_ratio)
                < chunk_size,
            loader is Some ==> loader->0.chunk_size == chunk_size && loader->0.overlap == overlap_of(
                chunk_size,
                overlap_ratio,
            ),
    {
        if overlap_ratio.denominator == 0 {
            return None;
        }
        let whole = overlap_ratio.numerator / overlap_ratio.denominator;
        if whole == 0 {
            if chunk_size > 0 {
                assert(chunk_size * 0 == 0) by (nonlinear_arith);
                Some(TextLoader { chunk_size, overlap: 0 })
            } else {
                assert(chunk_size * 0 == 0) by (nonlinear_arith);
                None
            }
        } else {
            assert(chunk_size * (whole as int) >= chunk_size) by (nonlinear_arith)
                requires
                    whole >= 1,
            ;
            None
        }
    }

    /// The text that is handed to the splitter: single line feeds become
    /// spaces, paragraph breaks stay. An empty text is not split at all.
    pub fn split_into_chunks(text: &str) -> (prepared: Option<String>)
        ensures
            text@.len() == 0 <==> prepared is None,
            prepared is Some ==> prepared->0@ == unwrapped(text@),
    {
        if text.is_empty() {
            return None;
        }
        proof {
            reveal_strlit("\n\n");
            reveal_strlit("\n");
            reveal_strlit("{{DOUBLE_NEWLINE}}");
        }
        let marked = replace(text, "\n\n", PARAGRAPH_MARK);
        let spaced = replace(marked.as_str(), "\n", " ");
        Some(replace(spaced.as_str(), PARAGRAPH_MARK, "\n\n"))
    }
}

} // verus!
