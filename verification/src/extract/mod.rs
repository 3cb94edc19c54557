//! Text extraction: which extractor a file goes to, and how the text that
//! comes back is cleaned before it is cut into chunks.

pub mod docx;
pub mod pdf;

use crate::embed::{EmbedSettings, Ratio, SplittingStrategy, TextEmbedConfig, DEFAULT_CHUNK_SIZE};
use crate::errors::{AidenErrors, AppResult};
use crate::text::{trim_end, trim_start};
use vstd::prelude::*;

verus! {

/// The message for a file that does not exist.
pub const NOT_FOUND: &'static str = "文件找不到";

/// The message for a file of a format that no extractor reads.
pub const UNSUPPORTED: &'static str = "其他文件格式未实现";

/// The extractors, by the format they read.
#[derive(Clone, Copy, Debug, PartialEq, Eq, Structural)]
pub enum FileKind {
    Pdf,
    Markdown,
    Text,
    Docx,
}

/// The extractor for files with the given extension, if there is one.
pub open spec fn kind_of_extension(extension: Seq<char>) -> Option<FileKind> {
    if extension == "pdf"@ {
        Some(FileKind::Pdf)
    } else if extension == "md"@ {
        Some(FileKind::Markdown)
    } else if extension == "txt"@ {
        Some(FileKind::Text)
    } else if extension == "docx"@ {
        Some(FileKind::Docx)
    } else {
        None
    }
}

/// Finds the extractor for files with the given extension.
pub fn file_kind(extension: &str) -> (kind: Option<FileKind>)
    ensures
        kind == kind_of_extension(extension@),
{
    let extension = String::from_str(extension);
    if extension == String::from_str("pdf") {
        Some(FileKind::Pdf)
    } else if extension == String::from_str("md") {
        Some(FileKind::Markdown)
    } else if extension == String::from_str("txt") {
        Some(FileKind::Text)
    } else if extension == String::from_str("docx") {
        Some(FileKind::Docx)
    } else {
        None
    }
}

/// Decides how the text of a file is extracted: by the extractor for its
/// extension. A file that does not exist, and a file without an extension
/// or with one that no extractor reads, is refused.
pub fn extract_text(exists: bool, extension: Option<&str>) -> (kind: AppResult<FileKind>)
    ensures
        !exists ==> kind is Err && kind->Err_0 is Str && kind->Err_0->Str_0@ == NOT_FOUND@,
        exists && (extension is None || kind_of_extension(extension->0@) is None) ==> kind is Err
            && kind->Err_0 is Str && kind->Err_0->Str_0@ == UNSUPPORTED@,
        exists && extension is Some && kind_of_extension(extension->0@) is Some ==> kind == Ok::<
            FileKind,
            AidenErrors,
        >(kind_of_extension(extension->0@)->0),
{
    if !exists {
        return Err(AidenErrors::Str(NOT_FOUND));
    }
    match extension {
        None => Err(AidenErrors::Str(UNSUPPORTED)),
        Some(e) => match file_kind(e) {
            Some(kind) => Ok(kind),
            None => Err(AidenErrors::Str(UNSUPPORTED)),
        },
    }
}

/// A text in which every run of line feeds is one line feed.
pub open spec fn without_empty_lines(s: Seq<char>) -> Seq<char>
    decreases s.len(),
{
    if s.len() == 0 {
        s
    } else if s.len() >= 2 && s[s.len() - 2] == '\n' && s.last() == '\n' {
        without_empty_lines(s.drop_last())
    } else {
        without_empty_lines(s.drop_last()).push(s.last())
    }
}

/// `Clean::remove_leading_spaces` of text_cleaner: the text without the
/// white space at its beginning.
#[verifier::external_body]
fn remove_leading_spaces(text: &String) -> (cleaned: String)
    ensures
        cleaned@ == trim_start(text@),
{
    text_cleaner::clean::Clean::remove_leading_spaces(text)
}

/// `Clean::remove_trailing_spaces` of text_cleaner: the text without the
/// white space at its end.
#[verifier::external_body]
fn remove_trailing_spaces(text: &String) -> (cleaned: String)
    ensures
        cleaned@ == trim_end(text@),
{
    text_cleaner::clean::Clean::remove_trailing_spaces(text)
}

/// `Clean::remove_empty_lines` of text_cleaner: every run of two or more
/// line feeds becomes one line feed.
#[verifier::external_body]
fn remove_empty_lines(text: &String) -> (cleaned: String)
    ensures
        cleaned@ == without_empty_lines(text@),
{
    text_cleaner::clean::Clean::remove_empty_lines(text)
}

/// Cleans a text that an extractor gave: the white space at its beginning
/// and at its end is removed, then its empty lines.
pub fn clean_text(text: &String) -> (cleaned: String)
    ensures
        cleaned@ == without_empty_lines(trim_end(trim_start(text@))),
{
    let text = remove_leading_spaces(text);
    let text = remove_trailing_spaces(&text);
    remove_empty_lines(&text)
}

/// What an embedder embeds.
#[derive(Clone, Copy, Debug, PartialEq, Eq, Structural)]
pub enum EmbedderKind {
    Text,
    Vision,
}

/// How a file is embedded.
#[derive(Clone, Copy, Debug)]
pub enum EmbedPlan {
    /// Its text is extracted, cleaned, cut into chunks under the settings
    /// and embedded chunk by chunk.
    Text(EmbedSettings),
    /// It is embedded whole, as an image.
    Image,
}

/// Decides how a file is embedded: by a text embedder under the settings
/// that the configuration and the defaults give, by a vision embedder as
/// an image.
pub fn embed_file(embedder: EmbedderKind, config: Option<&TextEmbedConfig>) -> (plan: EmbedPlan)
    ensures
        embedder == EmbedderKind::Vision <==> plan is Image,
        embedder == EmbedderKind::Text ==> plan is Text && plan->Text_0.chunk_size == match config {
            Some(c) if c.chunk_size is Some => c.chunk_size->0,
            _ => DEFAULT_CHUNK_SIZE,
        } && plan->Text_0.overlap_ratio == match config {
            Some(c) if c.overlap_ratio is Some => c.overlap_ratio->0,
            _ => Ratio { numerator: 2, denominator: 10 },
        } && plan->Text_0.batch_size == match config {
            Some(c) => c.batch_size,
            None => None,
        } && plan->Text_0.splitting_strategy == match config {
            Some(c) if c.splitting_strategy is Some => c.splitting_strategy->0,
            _ => SplittingStrategy::Sentence,
        },
{
    match embedder {
        EmbedderKind::Text => EmbedPlan::Text(TextEmbedConfig::resolve(config)),
        EmbedderKind::Vision => EmbedPlan::Image,
    }
}

} // verus!
