//! How a file becomes a labelled fenced block, and what the block costs.
//!
//! The content is trimmed once. The size that is held against the budget and
//! the text that is appended are both made from that trimmed content.

use vstd::prelude::*;
use vstd::string::*;

use crate::text::{lemma_unit_len_ascii, lemma_unit_len_concat, unit_len, unit_length};
use crate::trim::{lemma_trimmed_idempotent, trim, trimmed};

verus! {

/// The units of the markers and separators of a block: the colon and the line
/// break after the path, the opening fence and the closing fence.
pub const FIXED_OVERHEAD: u64 = 12;

/// One file, ready to be appended.
#[derive(Debug, PartialEq, Eq)]
pub struct FormattedBlock {
    /// The line that names the file.
    pub header: String,
    /// The fenced, trimmed content.
    pub body: String,
    /// What the block adds to the consumed budget.
    pub size: u64,
}

/// A [`FormattedBlock`] with its texts as character sequences.
pub struct BlockModel {
    pub header: Seq<char>,
    pub body: Seq<char>,
    pub size: nat,
}

impl BlockModel {
    /// What the block adds to the output: the header, then the body.
    pub open spec fn text(self) -> Seq<char> {
        self.header + self.body
    }
}

impl View for FormattedBlock {
    type V = BlockModel;

    open spec fn view(&self) -> BlockModel {
        BlockModel { header: self.header@, body: self.body@, size: self.size as nat }
    }
}

/// The header line for the file at `path`.
pub open spec fn header_line(path: Seq<char>) -> Seq<char> {
    path + ":\n"@
}

/// `content` between the opening and the closing fence.
pub open spec fn fenced(content: Seq<char>) -> Seq<char> {
    "```\n"@ + content + "\n```\n\n"@
}

/// What a block is charged: the units of the path, those of the content, and
/// the fixed overhead.
pub open spec fn charge(path: Seq<char>, content: Seq<char>) -> nat {
    unit_len(path) + unit_len(content) + FIXED_OVERHEAD as nat
}

/// The block for the file at `path` whose content, trimmed already, is
/// `content`.
pub open spec fn block_around(path: Seq<char>, content: Seq<char>) -> BlockModel {
    BlockModel { header: header_line(path), body: fenced(content), size: charge(path, content) }
}

/// The block for the file at `path` with the given raw content: the block
/// around the trimmed content.
pub open spec fn block_of(path: Seq<char>, raw_content: Seq<char>) -> BlockModel {
    block_around(path, trimmed(raw_content))
}

/// The text of a section that carries captured command output under `label`:
/// what was captured from the error stream comes first.
pub open spec fn section_text(label: Seq<char>, errors: Seq<char>, output: Seq<char>) -> Seq<
    char,
> {
    label + ":\n"@ + "```\n"@ + errors + output + "```\n\n"@
}

/// The units of the trimmed content of a file.
pub open spec fn content_units(raw_content: Seq<char>) -> nat {
    unit_len(trimmed(raw_content))
}

/// Wraps content that is trimmed already: the header line, the fenced content
/// and the size. `None` where the size is more than a `u64` holds; such a
/// block fits no budget.
pub fn format_trimmed(path: &str, content: &str) -> (block: Option<FormattedBlock>)
    ensures
        charge(path@, content@) <= u64::MAX ==> block is Some && block->Some_0@ == block_around(
            path@,
            content@,
        ),
        charge(path@, content@) > u64::MAX ==> block is None,
{
    let path_units = unit_length(path) as u64;
    let content_units = unit_length(content) as u64;
    let size = match path_units.checked_add(content_units) {
        Some(sum) => sum.checked_add(FIXED_OVERHEAD),
        None => None,
    };
    match size {
        Some(size) => {
            let mut header = String::from_str(path);
            header.append(":\n");
            let mut body = String::from_str("```\n");
            body.append(content);
            body.append("\n```\n\n");
            Some(FormattedBlock { header, body, size })
        },
        None => None,
    }
}

/// Formats the file at `path`: trims the raw content, once, and wraps it.
/// `None` where the size is more than a `u64` holds.
pub fn format_block(path: &str, raw_content: &str) -> (block: Option<FormattedBlock>)
    ensures
        block_of(path@, raw_content@).size <= u64::MAX ==> block is Some && block->Some_0@
            == block_of(path@, raw_content@),
        block_of(path@, raw_content@).size > u64::MAX ==> block is None,
{
    format_trimmed(path, trim(raw_content))
}

impl FormattedBlock {
    /// Appends the block to `output`: the header, then the body.
    pub fn append_to(&self, output: &mut String)
        ensures
            final(output)@ == old(output)@ + self@.text(),
    {
        let ghost before = output@;
        output.append(self.header.as_str());
        output.append(self.body.as_str());
        assert(output@ =~= before + self@.text());
    }
}

/// Appends a fenced section that carries captured command output under
/// `label`. It reads and changes the output text alone.
pub fn append_section(output: &mut String, label: &str, errors: &str, captured: &str)
    ensures
        final(output)@ == old(output)@ + section_text(label@, errors@, captured@),
{
    let ghost before = output@;
    output.append(label);
    output.append(":\n");
    output.append("```\n");
    output.append(errors);
    output.append(captured);
    output.append("```\n\n");
    assert(output@ =~= before + section_text(label@, errors@, captured@));
}

/// Appends what a build printed, as a section of its own.
pub fn append_build_output(output: &mut String, errors: &str, captured: &str)
    ensures
        final(output)@ == old(output)@ + section_text("Build Output"@, errors@, captured@),
{
    append_section(output, "Build Output", errors, captured);
}

/// Appends what a test run printed, as a section of its own.
pub fn append_test_output(output: &mut String, errors: &str, captured: &str)
    ensures
        final(output)@ == old(output)@ + section_text("Test Output"@, errors@, captured@),
{
    append_section(output, "Test Output", errors, captured);
}

/// Adds the units of the trimmed `raw_content` to `units`. `None` where the
/// sum is more than a `u64` holds.
pub fn add_content_units(units: u64, raw_content: &str) -> (sum: Option<u64>)
    ensures
        units + content_units(raw_content@) <= u64::MAX ==> sum == Some(
            (units + content_units(raw_content@)) as u64,
        ),
        units + content_units(raw_content@) > u64::MAX ==> sum is None,
{
    units.checked_add(unit_length(trim(raw_content)) as u64)
}

/// Formatting is idempotent: content that was trimmed before gives the block
/// that the raw content gives.
pub proof fn lemma_format_idempotent(path: Seq<char>, raw_content: Seq<char>)
    ensures
        block_of(path, trimmed(raw_content)) == block_of(path, raw_content),
{
    lemma_trimmed_idempotent(raw_content);
}

/// A block is charged more than nothing, whatever the file.
pub proof fn lemma_charge_positive(path: Seq<char>, content: Seq<char>)
    ensures
        charge(path, content) >= FIXED_OVERHEAD,
        charge(path, content) > 0,
{
}

/// A block is charged what it adds to the output: the units of its text are
/// its size.
pub proof fn lemma_block_text_units(path: Seq<char>, content: Seq<char>)
    ensures
        unit_len(block_around(path, content).text()) == charge(path, content),
{
    reveal_strlit(":\n");
    reveal_strlit("```\n");
    reveal_strlit("\n```\n\n");
    lemma_unit_len_ascii(":\n"@);
    lemma_unit_len_ascii("```\n"@);
    lemma_unit_len_ascii("\n```\n\n"@);
    lemma_unit_len_concat(path, ":\n"@);
    lemma_unit_len_concat("```\n"@, content);
    lemma_unit_len_concat("```\n"@ + content, "\n```\n\n"@);
    lemma_unit_len_concat(header_line(path), fenced(content));
}

} // verus!
