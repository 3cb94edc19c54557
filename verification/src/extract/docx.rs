//! Word documents: the text of a document is the text of its runs, read
//! through its paragraphs and, cell by cell, through its tables. The
//! document comes as the tree that the reader of Word files gave.

use crate::errors::{AidenErrors, AppResult};
use vstd::prelude::*;

verus! {

/// What stands inside a run.
#[derive(Debug)]
pub enum RunPart {
    Text(String),
    Other,
}

/// What stands inside a paragraph.
#[derive(Debug)]
pub enum ParagraphPart {
    Run(Vec<RunPart>),
    Other,
}

/// A paragraph.
#[derive(Debug)]
pub struct ParagraphNode {
    pub children: Vec<ParagraphPart>,
}

/// What stands in the body of a document or in a cell of a table.
#[derive(Debug)]
pub enum Block {
    Paragraph(ParagraphNode),
    Table(TableNode),
    Other,
}

/// A cell of a table.
#[derive(Debug)]
pub struct CellNode {
    pub children: Vec<Block>,
}

/// A row of a table.
#[derive(Debug)]
pub struct RowNode {
    pub cells: Vec<CellNode>,
}

/// A table.
#[derive(Debug)]
pub struct TableNode {
    pub rows: Vec<RowNode>,
}

/// The text of a run: its texts, one after the other.
pub open spec fn run_text(children: Seq<RunPart>) -> Seq<char>
    decreases children.len(),
{
    if children.len() == 0 {
        Seq::empty()
    } else {
        run_text(children.drop_last()) + match children.last() {
            RunPart::Text(t) => t@,
            RunPart::Other => Seq::empty(),
        }
    }
}

/// The text of what stands inside a paragraph: the texts of its runs, one
/// after the other.
pub open spec fn runs_text(children: Seq<ParagraphPart>) -> Seq<char>
    decreases children.len(),
{
    if children.len() == 0 {
        Seq::empty()
    } else {
        runs_text(children.drop_last()) + match children.last() {
            ParagraphPart::Run(r) => run_text(r@),
            ParagraphPart::Other => Seq::empty(),
        }
    }
}

/// The text of a paragraph.
pub open spec fn paragraph_text(paragraph: ParagraphNode) -> Seq<char> {
    runs_text(paragraph.children@)
}

/// The text of a block: that of a paragraph, or of a table, or nothing.
pub open spec fn block_text(block: Block) -> Seq<char>
    decreases block, 0nat,
{
    match block {
        Block::Paragraph(p) => paragraph_text(p),
        Block::Table(t) => rows_text(t.rows@, t.rows@.len()),
        Block::Other => Seq::empty(),
    }
}

/// The text of the first `upto` blocks, one after the other.
pub open spec fn blocks_text(blocks: Seq<Block>, upto: nat) -> Seq<char>
    decreases blocks, upto,
{
    if upto == 0 || upto > blocks.len() {
        Seq::empty()
    } else {
        blocks_text(blocks, (upto - 1) as nat) + block_text(blocks[upto - 1])
    }
}

/// The text of the first `upto` cells, one after the other.
pub open spec fn cells_text(cells: Seq<CellNode>, upto: nat) -> Seq<char>
    decreases cells, upto,
{
    if upto == 0 || upto > cells.len() {
        Seq::empty()
    } else {
        cells_text(cells, (upto - 1) as nat) + blocks_text(
            cells[upto - 1].children@,
            cells[upto - 1].children@.len(),
        )
    }
}

/// The text of the first `upto` rows, one after the other.
pub open spec fn rows_text(rows: Seq<RowNode>, upto: nat) -> Seq<char>
    decreases rows, upto,
{
    if upto == 0 || upto > rows.len() {
        Seq::empty()
    } else {
        rows_text(rows, (upto - 1) as nat) + cells_text(rows[upto - 1].cells@, rows[upto - 1].cells@.len())
    }
}

/// The text of a table: the texts of its cells, row by row.
pub open spec fn table_text(table: TableNode) -> Seq<char> {
    rows_text(table.rows@, table.rows@.len())
}

/// The text of a document.
pub open spec fn body_text(body: Seq<Block>) -> Seq<char> {
    blocks_text(body, body.len())
}

/// Appends the text of a paragraph.
pub fn parse_paragraph(s: &ParagraphNode, text: &mut String)
    ensures
        final(text)@ == old(text)@ + paragraph_text(*s),
{
    let mut i: usize = 0;
    assert(text@ =~= old(text)@ + runs_text(s.children@.take(0)));
    while i < s.children.len()
        invariant
            i <= s.children.len(),
            text@ == old(text)@ + runs_text(s.children@.take(i as int)),
        decreases s.children.len() - i,
    {
        let ghost before = text@;
        match &s.children[i] {
            ParagraphPart::Run(run) => {
                let mut k: usize = 0;
                assert(text@ =~= before + run_text(run@.take(0)));
                while k < run.len()
                    invariant
                        k <= run.len(),
                        text@ == before + run_text(run@.take(k as int)),
                    decreases run.len() - k,
                {
                    match &run[k] {
                        RunPart::Text(t) => {
                            text.append(t.as_str());
                        },
                        RunPart::Other => {},
                    }
                    k = k + 1;
                    proof {
                        assert(run@.take(k as int).drop_last() =~= run@.take(k as int - 1));
                        assert(text@ =~= before + run_text(run@.take(k as int)));
                    }
                }
                assert(run@.take(k as int) =~= run@);
            },
            ParagraphPart::Other => {},
        }
        i = i + 1;
        proof {
            assert(s.children@.take(i as int).drop_last() =~= s.children@.take(i as int - 1));
            assert(text@ =~= old(text)@ + runs_text(s.children@.take(i as int)));
        }
    }
    assert(s.children@.take(i as int) =~= s.children@);
}

/// Appends the text of the blocks of a cell or of a body.
fn parse_blocks(blocks: &Vec<Block>, text: &mut String)
    ensures
        final(text)@ == old(text)@ + blocks_text(blocks@, blocks@.len()),
    decreases blocks,
{
    let mut i: usize = 0;
    assert(text@ =~= old(text)@ + blocks_text(blocks@, 0));
    while i < blocks.len()
        invariant
            i <= blocks.len(),
            text@ == old(text)@ + blocks_text(blocks@, i as nat),
        decreases blocks.len() - i,
    {
        let ghost before = text@;
        match &blocks[i] {
            Block::Paragraph(p) => {
                parse_paragraph(p, text);
            },
            Block::Table(t) => {
                parse_table(t, text);
            },
            Block::Other => {},
        }
        assert(text@ == before + block_text(blocks@[i as int]));
        i = i + 1;
        assert(text@ =~= old(text)@ + blocks_text(blocks@, i as nat));
    }
}

/// Appends the text of a table: the texts of its cells, row by row, with
/// the tables inside its cells read in the same way.
pub fn parse_table(s: &TableNode, text: &mut String)
    ensures
        final(text)@ == old(text)@ + table_text(*s),
    decreases s,
{
    let mut i: usize = 0;
    assert(text@ =~= old(text)@ + rows_text(s.rows@, 0));
    while i < s.rows.len()
        invariant
            i <= s.rows.len(),
            text@ == old(text)@ + rows_text(s.rows@, i as nat),
        decreases s.rows.len() - i,
    {
        let row = &s.rows[i];
        let ghost before = text@;
        let mut k: usize = 0;
        assert(text@ =~= before + cells_text(row.cells@, 0));
        while k < row.cells.len()
            invariant
                k <= row.cells.len(),
                i < s.rows.len(),
                *row == s.rows@[i as int],
                text@ == before + cells_text(row.cells@, k as nat),
            decreases row.cells.len() - k,
        {
            let ghost inner = text@;
            parse_blocks(&row.cells[k].children, text);
            k = k + 1;
            assert(text@ =~= before + cells_text(row.cells@, k as nat));
        }
        i = i + 1;
        assert(text@ =~= old(text)@ + rows_text(s.rows@, i as nat));
    }
}

/// Reads the text of Word documents.
#[derive(Debug)]
pub struct DocxRsProcessor;

impl DocxRsProcessor {
    /// The text of the body of a document.
    pub fn text_of(body: &Vec<Block>) -> (text: String)
        ensures
            text@ == body_text(body@),
    {
        let mut text = String::new();
        parse_blocks(body, &mut text);
        assert(text@ =~= body_text(body@));
        text
    }

    /// Extracts the text from what the reader of Word files gave: the text
    /// of the body that it read, or its failure, with the text of the
    /// failure as it is.
    pub fn extract_text(read: Result<Vec<Block>, String>) -> (text: AppResult<String>)
        ensures
            match read {
                Ok(body) => text is Ok && text->Ok_0@ == body_text(body@),
                Err(message) => text is Err && text->Err_0 is DocxError && text->Err_0->DocxError_0@
                    == message@,
            },
    {
        match read {
            Ok(body) => Ok(DocxRsProcessor::text_of(&body)),
            Err(message) => Err(AidenErrors::DocxError(message)),
        }
    }
}

} // verus!
