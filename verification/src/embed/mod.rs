//! What the embedding capability is given and gives back: its settings,
//! the files under a path, and the chunks gathered from them.

pub mod job;
pub mod text_loader;

use crate::seqs::{lemma_filter_empty, lemma_filter_step};
use crate::storage::file_contents::texts_of;
use vstd::prelude::*;

verus! {

/// The vectors computed for one chunk. Each component is the bit pattern
/// of a single-precision number.
#[derive(Debug)]
pub enum EmbeddingResult {
    DenseVector(Vec<u32>),
    MultiVector(Vec<Vec<u32>>),
}

/// One chunk of a document with its embedding.
#[derive(Debug)]
pub struct EmbedData {
    pub embedding: EmbeddingResult,
    pub text: Option<String>,
    pub metadata: Option<Vec<(String, String)>>,
}

impl EmbeddingResult {
    /// The vector that is stored for the chunk: the dense vector, or the
    /// first of several, or none of its components where there is none.
    pub open spec fn vector(self) -> Seq<u32> {
        match self {
            EmbeddingResult::DenseVector(d) => d@,
            EmbeddingResult::MultiVector(m) => if m@.len() == 0 {
                Seq::empty()
            } else {
                m@[0]@
            },
        }
    }

    /// Returns the vector that is stored for the chunk.
    pub fn to_vector(&self) -> (vector: Vec<u32>)
        ensures
            vector@ == self.vector(),
    {
        match self {
            EmbeddingResult::DenseVector(d) => d.clone(),
            EmbeddingResult::MultiVector(m) => if m.len() == 0 {
                Vec::new()
            } else {
                m[0].clone()
            },
        }
    }
}

impl EmbedData {
    /// A chunk with its embedding, its text and what else is known of it.
    pub fn new(
        embedding: EmbeddingResult,
        text: Option<String>,
        metadata: Option<Vec<(String, String)>>,
    ) -> (data: Self)
        ensures
            data.embedding == embedding,
            data.text == text,
            data.metadata == metadata,
    {
        EmbedData { embedding, text, metadata }
    }

    /// Whether the chunk has a text that is not empty.
    pub open spec fn has_text(self) -> bool {
        self.text is Some && self.text->0@.len() > 0
    }
}

/// How a text is cut into chunks.
#[derive(Clone, Copy, Debug, PartialEq, Eq, Structural)]
pub enum SplittingStrategy {
    Sentence,
    Semantic,
}

/// A ratio of two whole numbers.
#[derive(Clone, Copy, Debug, PartialEq, Eq, Structural)]
pub struct Ratio {
    pub numerator: u32,
    pub denominator: u32,
}

/// The settings of an embedding run, each of which may be left open.
#[derive(Clone, Copy, Debug)]
pub struct TextEmbedConfig {
    /// The size of a chunk, in tokens.
    pub chunk_size: Option<usize>,
    /// The part of a chunk that it shares with the chunk before it.
    pub overlap_ratio: Option<Ratio>,
    /// The number of chunks that one call of the model takes.
    pub batch_size: Option<usize>,
    /// The number of chunks that are held before they are handed on.
    pub buffer_size: Option<usize>,
    pub splitting_strategy: Option<SplittingStrategy>,
}

/// The settings of an embedding run with every open one filled in.
#[derive(Clone, Copy, Debug)]
pub struct EmbedSettings {
    pub chunk_size: usize,
    pub overlap_ratio: Ratio,
    pub batch_size: Option<usize>,
    pub splitting_strategy: SplittingStrategy,
}

/// The size of a chunk where none is set.
pub const DEFAULT_CHUNK_SIZE: usize = 256;

impl TextEmbedConfig {
    /// The settings with which files are indexed: chunks of 256 tokens cut
    /// by sentences, three tenths shared between neighbours, 32 chunks in a
    /// batch and in the buffer.
    pub fn indexing() -> (config: Self)
        ensures
            config.chunk_size == Some(256usize),
            config.overlap_ratio == Some(Ratio { numerator: 3, denominator: 10 }),
            config.batch_size == Some(32usize),
            config.buffer_size == Some(32usize),
            config.splitting_strategy == Some(SplittingStrategy::Sentence),
    {
        TextEmbedConfig {
            chunk_size: Some(256),
            overlap_ratio: Some(Ratio { numerator: 3, denominator: 10 }),
            batch_size: Some(32),
            buffer_size: Some(32),
            splitting_strategy: Some(SplittingStrategy::Sentence),
        }
    }

    /// Fills in what the configuration leaves open: chunks of 256 tokens,
    /// two tenths shared between neighbours, cut by sentences. Without a
    /// configuration everything is open, and the batch size stays so.
    pub fn resolve(config: Option<&TextEmbedConfig>) -> (settings: EmbedSettings)
        ensures
            settings.chunk_size == match config {
                Some(c) if c.chunk_size is Some => c.chunk_size->0,
                _ => DEFAULT_CHUNK_SIZE,
            },
            settings.overlap_ratio == match config {
                Some(c) if c.overlap_ratio is Some => c.overlap_ratio->0,
                _ => Ratio { numerator: 2, denominator: 10 },
            },
            settings.batch_size == match config {
                Some(c) => c.batch_size,
                None => None,
            },
            settings.splitting_strategy == match config {
                Some(c) if c.splitting_strategy is Some => c.splitting_strategy->0,
                _ => SplittingStrategy::Sentence,
            },
    {
        let open = TextEmbedConfig {
            chunk_size: None,
            overlap_ratio: None,
            batch_size: None,
            buffer_size: None,
            splitting_strategy: None,
        };
        let config = match config {
            Some(c) => *c,
            None => open,
        };
        EmbedSettings {
            chunk_size: match config.chunk_size {
                Some(n) => n,
                None => DEFAULT_CHUNK_SIZE,
            },
            overlap_ratio: match config.overlap_ratio {
                Some(r) => r,
                None => Ratio { numerator: 2, denominator: 10 },
            },
            batch_size: config.batch_size,
            splitting_strategy: match config.splitting_strategy {
                Some(s) => s,
                None => SplittingStrategy::Sentence,
            },
        }
    }
}

/// The chunks of several files, one file after the other; a file whose
/// embedding failed gives none.
pub open spec fn gathered(results: Seq<Option<Vec<EmbedData>>>) -> Seq<EmbedData>
    decreases results.len(),
{
    if results.len() == 0 {
        Seq::empty()
    } else {
        gathered(results.drop_last()) + match results.last() {
            Some(chunks) => chunks@,
            None => Seq::empty(),
        }
    }
}

/// What a directory holds under one name.
#[derive(Clone, Copy, Debug, PartialEq, Eq, Structural)]
pub enum EntryKind {
    Directory,
    File,
    Other,
}

/// One entry of a directory.
#[derive(Debug)]
pub struct DirEntry {
    pub path: String,
    pub kind: EntryKind,
}

/// The paths of the entries of the given kind, in their order.
pub open spec fn paths_of_kind(entries: Seq<DirEntry>, kind: EntryKind) -> Seq<Seq<char>> {
    entries.filter(|e: DirEntry| e.kind == kind).map_values(|e: DirEntry| e.path@)
}

/// A walk through the files under a directory, one directory at a time:
/// the directories that are still to be read, and the files found so far.
#[derive(Debug)]
pub struct DirWalk {
    pub pending: Vec<String>,
    pub files: Vec<String>,
}

impl DirWalk {
    /// The walk that begins at a directory.
    pub fn new(root: String) -> (walk: Self)
        ensures
            texts_of(walk.pending@) == seq![root@],
            walk.files@.len() == 0,
    {
        let mut pending: Vec<String> = Vec::new();
        pending.push(root);
        assert(texts_of(pending@) =~= seq![root@]);
        DirWalk { pending, files: Vec::new() }
    }

    /// Takes the directory that is read next: the one that was found
    /// last. There is none when the walk is over.
    pub fn next_directory(&mut self) -> (directory: Option<String>)
        ensures
            final(self).files == old(self).files,
            old(self).pending@.len() == 0 ==> directory is None && final(self).pending@ == old(self).pending@,
            old(self).pending@.len() > 0 ==> directory == Some(old(self).pending@.last())
                && final(self).pending@ == old(self).pending@.drop_last(),
    {
        self.pending.pop()
    }

    /// Takes in the entries of the directory that was read: its files are
    /// found, its directories are still to be read, and everything else is
    /// passed over.
    pub fn visit(&mut self, entries: Vec<DirEntry>)
        ensures
            texts_of(final(self).files@) == texts_of(old(self).files@) + paths_of_kind(entries@, EntryKind::File),
            texts_of(final(self).pending@) == texts_of(old(self).pending@) + paths_of_kind(
                entries@,
                EntryKind::Directory,
            ),
    {
        let ghost is_file = |e: DirEntry| e.kind == EntryKind::File;
        let ghost is_dir = |e: DirEntry| e.kind == EntryKind::Directory;
        let mut i: usize = 0;
        proof {
            lemma_filter_empty(entries@.take(0), is_file);
            lemma_filter_empty(entries@.take(0), is_dir);
            assert(texts_of(self.files@) =~= texts_of(old(self).files@) + paths_of_kind(
                entries@.take(0),
                EntryKind::File,
            ));
            assert(texts_of(self.pending@) =~= texts_of(old(self).pending@) + paths_of_kind(
                entries@.take(0),
                EntryKind::Directory,
            ));
        }
        while i < entries.len()
            invariant
                i <= entries.len(),
                is_file == (|e: DirEntry| e.kind == EntryKind::File),
                is_dir == (|e: DirEntry| e.kind == EntryKind::Directory),
                texts_of(self.files@) == texts_of(old(self).files@) + paths_of_kind(
                    entries@.take(i as int),
                    EntryKind::File,
                ),
                texts_of(self.pending@) == texts_of(old(self).pending@) + paths_of_kind(
                    entries@.take(i as int),
                    EntryKind::Directory,
                ),
            decreases entries.len() - i,
        {
            proof {
                lemma_filter_step(entries@, is_file, i as int);
                lemma_filter_step(entries@, is_dir, i as int);
            }
            let ghost files_before = self.files@;
            let ghost pending_before = self.pending@;
            match entries[i].kind {
                EntryKind::File => {
                    self.files.push(entries[i].path.clone());
                    assert(texts_of(self.files@) =~= texts_of(files_before).push(entries@[i as int].path@));
                },
                EntryKind::Directory => {
                    self.pending.push(entries[i].path.clone());
                    assert(texts_of(self.pending@) =~= texts_of(pending_before).push(entries@[i as int].path@));
                },
                EntryKind::Other => {},
            }
            i = i + 1;
            assert(texts_of(self.files@) =~= texts_of(old(self).files@) + paths_of_kind(
                entries@.take(i as int),
                EntryKind::File,
            ));
            assert(texts_of(self.pending@) =~= texts_of(old(self).pending@) + paths_of_kind(
                entries@.take(i as int),
                EntryKind::Directory,
            ));
        }
        assert(entries@.take(i as int) =~= entries@);
    }
}

/// The embedding capability as the scheduler sees it.
#[derive(Debug)]
pub struct AidenTextEmbedder;

impl AidenTextEmbedder {
    /// The settings with which files are indexed.
    pub fn config() -> (config: TextEmbedConfig)
        ensures
            config.chunk_size == Some(256usize),
            config.overlap_ratio == Some(Ratio { numerator: 3, denominator: 10 }),
            config.batch_size == Some(32usize),
            config.buffer_size == Some(32usize),
            config.splitting_strategy == Some(SplittingStrategy::Sentence),
    {
        TextEmbedConfig::indexing()
    }

    /// The files that are embedded for a path: the path itself where it is
    /// no directory, and otherwise the files that a walk from it finds.
    pub fn files_to_embed(path: String, is_dir: bool, walked: Vec<String>) -> (files: Vec<String>)
        ensures
            is_dir ==> files == walked,
            !is_dir ==> texts_of(files@) == seq![path@],
    {
        if is_dir {
            walked
        } else {
            let mut files: Vec<String> = Vec::new();
            files.push(path);
            assert(texts_of(files@) =~= seq![path@]);
            files
        }
    }

    /// Gathers the chunks of the files of one path, in the order of the
    /// files. A file whose embedding failed adds nothing.
    pub fn embedding(results: Vec<Option<Vec<EmbedData>>>) -> (data: Vec<EmbedData>)
        ensures
            data@ == gathered(results@),
    {
        let mut results = results;
        let ghost all = results@;
        let mut data: Vec<EmbedData> = Vec::new();
        let mut i: usize = 0;
        assert(data@ =~= gathered(all.take(0)));
        while i < results.len()
            invariant
                i <= results.len(),
                results@.len() == all.len(),
                forall|k: int| i <= k < all.len() ==> results@[k] == all[k],
                data@ == gathered(all.take(i as int)),
            decreases results.len() - i,
        {
            let mut taken: Option<Vec<EmbedData>> = None;
            std::mem::swap(&mut taken, &mut results[i]);
            match taken {
                Some(mut chunks) => {
                    data.append(&mut chunks);
                },
                None => {},
            }
            i = i + 1;
            proof {
                assert(all.take(i as int).drop_last() =~= all.take(i as int - 1));
                assert(data@ =~= gathered(all.take(i as int)));
            }
        }
        assert(all.take(i as int) =~= all);
        data
    }
}

} // verus!
