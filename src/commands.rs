//! The computing part of the `stats` and `strip` subcommands.
use crate::container::{corruption_of, lemma_section_sizes, layout, sections_of, Corruption, FileContents};
use vstd::prelude::*;

verus! {

/// Section sizes of a container, in bytes.
#[derive(Clone, Copy, Debug, PartialEq, Eq, Structural)]
pub struct ContainerStats {
    /// The packed project.
    pub archive_size: usize,
    /// The target identifier with its length field.
    pub target_size: usize,
    /// The embedded executable; 0 when there is none.
    pub binary_size: usize,
    /// The whole container.
    pub total_size: usize,
}

/// The section sizes of `contents`.
pub fn stats(contents: &FileContents) -> (r: ContainerStats)
    requires
        contents.wf(),
    ensures
        r.archive_size == contents.archive().len(),
        r.target_size == 8 + contents.target().len(),
        r.binary_size == contents.executable().len(),
        r.total_size == contents.bytes().len(),
{
    let total_size = contents.as_bytes().len();
    proof {
        lemma_section_sizes(contents);
    }
    let archive_size = contents.zipped_contents().len();
    let target_size = 8 + contents.target_bytes().len();
    let binary_size = contents.bin_contents().len();
    ContainerStats { archive_size, target_size, binary_size, total_size }
}

/// Reads a container from its bytes and drops its executable.
pub fn strip(bytes: Vec<u8>) -> (r: Result<FileContents, Corruption>)
    ensures
        match r {
            Ok(c) => {
                let (archive, target, _) = sections_of(bytes@);
                &&& c.wf()
                &&& c.archive() == archive
                &&& c.target() == target
                &&& c.executable() == Seq::<u8>::empty()
                &&& c.bytes() == layout(archive, target, Seq::empty())
            },
            Err(e) => corruption_of(bytes@) == Some(e),
        },
        corruption_of(bytes@) is None <==> r is Ok,
{
    let mut c = FileContents::from_bytes(bytes)?;
    c.remove_binary();
    Ok(c)
}

} // verus!
