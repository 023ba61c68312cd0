//! The container codec: one byte buffer that holds a packed project, the target the
//! embedded executable was built for, and the executable itself.
//!
//! Layout, with both lengths little-endian:
//! `[u64 archive length][archive][u64 target length][target][executable]`.
use vstd::bytes::{
    lemma_auto_spec_u64_to_from_le_bytes, spec_u64_from_le_bytes, spec_u64_to_le_bytes,
    u64_from_le_bytes, u64_to_le_bytes,
};
use vstd::prelude::*;
use vstd::slice::slice_subrange;
use vstd::string::StringSliceAdditionalSpecFns;
use vstd::utf8::{decode_utf8, encode_utf8_decode_utf8, encode_utf8_valid_utf8, valid_utf8};

verus! {

/// The little-endian encoding of a length.
pub open spec fn length_field(n: nat) -> Seq<u8> {
    spec_u64_to_le_bytes(n as u64)
}

/// The length stored at `at` in `b`.
pub open spec fn read_length(b: Seq<u8>, at: int) -> nat {
    spec_u64_from_le_bytes(b.subrange(at, at + 8)) as nat
}

/// The bytes of a container made of these three sections.
pub open spec fn layout(archive: Seq<u8>, target: Seq<u8>, executable: Seq<u8>) -> Seq<u8> {
    length_field(archive.len()) + archive + length_field(target.len()) + target + executable
}

/// Why a byte buffer is not a container: the first check that fails.
#[derive(Clone, Copy, Debug, PartialEq, Eq, Structural)]
pub enum Corruption {
    /// Fewer bytes than the archive length field.
    TooShort,
    /// The archive length leaves no room for the target length field.
    ArchiveLength,
    /// The target length claims more bytes than remain.
    TargetLength,
}

impl Corruption {
    /// The stable code under which this failure is reported.
    pub fn code(&self) -> (r: String)
        ensures
            r@ == corruption_code(*self),
    {
        proof {
            reveal_strlit("E1");
            reveal_strlit("E2");
            reveal_strlit("E46");
        }
        match self {
            Corruption::TooShort => String::from_str("E1"),
            Corruption::ArchiveLength => String::from_str("E2"),
            Corruption::TargetLength => String::from_str("E46"),
        }
    }
}

pub open spec fn corruption_code(c: Corruption) -> Seq<char> {
    match c {
        Corruption::TooShort => seq!['E', '1'],
        Corruption::ArchiveLength => seq!['E', '2'],
        Corruption::TargetLength => seq!['E', '4', '6'],
    }
}

/// The first validation stage that `b` fails, if any.
pub open spec fn corruption_of(b: Seq<u8>) -> Option<Corruption> {
    if b.len() < 8 {
        Some(Corruption::TooShort)
    } else if read_length(b, 0) + 16 > b.len() {
        Some(Corruption::ArchiveLength)
    } else if read_length(b, 8 + read_length(b, 0) as int) + read_length(b, 0) + 16 > b.len() {
        Some(Corruption::TargetLength)
    } else {
        None
    }
}

/// The archive, target and executable sections of a buffer that passes validation.
pub open spec fn sections_of(b: Seq<u8>) -> (Seq<u8>, Seq<u8>, Seq<u8>) {
    let a = read_length(b, 0) as int;
    let t = read_length(b, 8 + a) as int;
    (b.subrange(8, 8 + a), b.subrange(16 + a, 16 + a + t), b.subrange(16 + a + t, b.len() as int))
}

/// A container held in memory as its exact on-disk bytes.
pub struct FileContents {
    contents: Vec<u8>,
    triple_length: usize,
    zip_length: usize,
}

impl FileContents {
    /// The container's bytes.
    pub closed spec fn bytes(&self) -> Seq<u8> {
        self.contents@
    }

    pub closed spec fn archive(&self) -> Seq<u8> {
        self.contents@.subrange(8, 8 + self.zip_length)
    }

    pub closed spec fn target(&self) -> Seq<u8> {
        self.contents@.subrange(
            16 + self.zip_length,
            16 + self.zip_length + self.triple_length,
        )
    }

    pub closed spec fn executable(&self) -> Seq<u8> {
        self.contents@.subrange(
            16 + self.zip_length + self.triple_length,
            self.contents@.len() as int,
        )
    }

    /// The length fields agree with the recorded section sizes and fit in the buffer.
    pub closed spec fn wf(&self) -> bool {
        &&& 16 + self.zip_length + self.triple_length <= self.contents@.len() <= usize::MAX
        &&& self.contents@.subrange(0, 8) == length_field(self.zip_length as nat)
        &&& self.contents@.subrange(8 + self.zip_length, 16 + self.zip_length) == length_field(
            self.triple_length as nat,
        )
    }

    /// Builds a container from its three sections.
    pub fn new(zipped_contents: Vec<u8>, binary_contents: Vec<u8>, triple: &str) -> (r: Self)
        requires
            16 + zipped_contents@.len() + triple.spec_bytes().len() + binary_contents@.len()
                <= usize::MAX,
        ensures
            r.wf(),
            r.archive() == zipped_contents@,
            r.target() == triple.spec_bytes(),
            r.executable() == binary_contents@,
            r.bytes() == layout(zipped_contents@, triple.spec_bytes(), binary_contents@),
    {
        let triple_bytes = triple.as_bytes();
        let mut contents: Vec<u8> = Vec::new();
        let zip_field = u64_to_le_bytes(zipped_contents.len() as u64);
        contents.extend_from_slice(zip_field.as_slice());
        contents.extend_from_slice(zipped_contents.as_slice());
        let triple_field = u64_to_le_bytes(triple_bytes.len() as u64);
        contents.extend_from_slice(triple_field.as_slice());
        contents.extend_from_slice(triple_bytes);
        contents.extend_from_slice(binary_contents.as_slice());
        let r = FileContents {
            contents,
            triple_length: triple_bytes.len(),
            zip_length: zipped_contents.len(),
        };
        proof {
            let l = layout(zipped_contents@, triple.spec_bytes(), binary_contents@);
            assert(r.contents@ =~= l);
            assert(r.contents@.subrange(0, 8) =~= zip_field@);
            assert(r.contents@.subrange(8 + r.zip_length, 16 + r.zip_length) =~= triple_field@);
            assert(r.archive() =~= zipped_contents@);
            assert(r.target() =~= triple.spec_bytes());
            assert(r.executable() =~= binary_contents@);
        }
        r
    }

    /// Reads a container from its bytes, checking that each length field fits.
    pub fn from_bytes(contents: Vec<u8>) -> (r: Result<Self, Corruption>)
        ensures
            corruption_of(contents@) is None <==> r is Ok,
            match r {
                Ok(c) => {
                    &&& c.wf()
                    &&& c.bytes() == contents@
                    &&& (c.archive(), c.target(), c.executable()) == sections_of(contents@)
                },
                Err(e) => corruption_of(contents@) == Some(e),
            },
    {
        let len = contents.len();
        if len < 8 {
            return Err(Corruption::TooShort);
        }
        let zip_length = u64_from_le_bytes(slice_subrange(contents.as_slice(), 0, 8));
        if len < 16 || zip_length > (len - 16) as u64 {
            return Err(Corruption::ArchiveLength);
        }
        let zip_length = zip_length as usize;
        let triple_length = u64_from_le_bytes(
            slice_subrange(contents.as_slice(), 8 + zip_length, 16 + zip_length),
        );
        if triple_length > (len - 16 - zip_length) as u64 {
            return Err(Corruption::TargetLength);
        }
        let triple_length = triple_length as usize;
        let r = FileContents { contents, triple_length, zip_length };
        proof {
            lemma_auto_spec_u64_to_from_le_bytes();
            assert(r.archive() =~= sections_of(contents@).0);
        }
        Ok(r)
    }

    /// The packed project.
    pub fn zipped_contents(&self) -> (r: &[u8])
        requires
            self.wf(),
        ensures
            r@ == self.archive(),
    {
        slice_subrange(self.contents.as_slice(), 8, 8 + self.zip_length)
    }

    /// The raw bytes of the target identifier.
    pub fn target_bytes(&self) -> (r: &[u8])
        requires
            self.wf(),
        ensures
            r@ == self.target(),
    {
        slice_subrange(
            self.contents.as_slice(),
            16 + self.zip_length,
            16 + self.zip_length + self.triple_length,
        )
    }

    /// The target identifier as text; bytes that are not UTF-8 are replaced.
    pub fn target_triple(&self) -> (r: String)
        requires
            self.wf(),
        ensures
            r@ == lossy_text(self.target()),
            valid_utf8(self.target()) ==> r@ == decode_utf8(self.target()),
    {
        text_of_bytes(self.target_bytes())
    }

    /// The embedded executable; empty when none is embedded.
    pub fn bin_contents(&self) -> (r: &[u8])
        requires
            self.wf(),
        ensures
            r@ == self.executable(),
    {
        slice_subrange(
            self.contents.as_slice(),
            16 + self.zip_length + self.triple_length,
            self.contents.len(),
        )
    }

    /// The whole container, as it is written to disk.
    pub fn as_bytes(&self) -> (r: &[u8])
        ensures
            r@ == self.bytes(),
    {
        self.contents.as_slice()
    }

    /// Drops the embedded executable, keeping the archive and the target.
    pub fn remove_binary(&mut self)
        requires
            old(self).wf(),
        ensures
            removes_binary(*old(self), *final(self)),
    {
        proof {
            lemma_wf_layout(self);
            lemma_auto_spec_u64_to_from_le_bytes();
        }
        let end = 16 + self.zip_length + self.triple_length;
        self.contents.truncate(end);
        proof {
            assert(self.bytes() =~= layout(old(self).archive(), old(self).target(), Seq::empty()));
            assert(self.executable() =~= Seq::<u8>::empty());
            assert(self.archive() =~= old(self).archive());
            assert(self.target() =~= old(self).target());
            assert(self.contents@.subrange(0, 8) =~= old(self).contents@.subrange(0, 8));
            assert(self.contents@.subrange(8 + self.zip_length, 16 + self.zip_length)
                =~= old(self).contents@.subrange(8 + self.zip_length, 16 + self.zip_length));
        }
    }

    /// Replaces the target and the executable, keeping the archive.
    pub fn replace_binary(&mut self, triple: &str, binary: &[u8])
        requires
            old(self).wf(),
            16 + old(self).archive().len() + triple.spec_bytes().len() + binary@.len()
                <= usize::MAX,
        ensures
            replaces_binary(*old(self), *final(self), triple.spec_bytes(), binary@),
    {
        proof {
            lemma_wf_layout(self);
            lemma_auto_spec_u64_to_from_le_bytes();
        }
        let triple_bytes = triple.as_bytes();
        self.contents.truncate(8 + self.zip_length);
        let triple_field = u64_to_le_bytes(triple_bytes.len() as u64);
        self.contents.extend_from_slice(triple_field.as_slice());
        self.contents.extend_from_slice(triple_bytes);
        self.contents.extend_from_slice(binary);
        self.triple_length = triple_bytes.len();
        proof {
            let l = layout(old(self).archive(), triple.spec_bytes(), binary@);
            assert(self.contents@ =~= l);
            assert(self.contents@.subrange(0, 8) =~= old(self).contents@.subrange(0, 8));
            assert(self.contents@.subrange(8 + self.zip_length, 16 + self.zip_length)
                =~= triple_field@);
            assert(self.archive() =~= old(self).archive());
            assert(self.target() =~= triple.spec_bytes());
            assert(self.executable() =~= binary@);
        }
    }
}

/// A well-formed container is exactly the layout of its three sections.
pub proof fn lemma_wf_layout(c: &FileContents)
    requires
        c.wf(),
    ensures
        c.bytes() == layout(c.archive(), c.target(), c.executable()),
{
    assert(c.bytes() =~= layout(c.archive(), c.target(), c.executable()));
}

/// The sections and the two length fields make up the whole container.
pub proof fn lemma_section_sizes(c: &FileContents)
    requires
        c.wf(),
    ensures
        16 + c.archive().len() + c.target().len() + c.executable().len() == c.bytes().len(),
{
}

/// The two length fields of a layout read back as the section lengths.
proof fn lemma_layout_fields(archive: Seq<u8>, target: Seq<u8>, executable: Seq<u8>, b: Seq<u8>)
    requires
        archive.len() <= u64::MAX,
        target.len() <= u64::MAX,
        b.len() >= 8 ==> b.subrange(0, 8) == layout(archive, target, executable).subrange(0, 8),
        b.len() >= 16 + archive.len() ==> b.subrange(8 + archive.len() as int, 16 + archive.len() as int)
            == layout(archive, target, executable).subrange(
            8 + archive.len() as int,
            16 + archive.len() as int,
        ),
    ensures
        b.len() >= 8 ==> read_length(b, 0) == archive.len(),
        b.len() >= 16 + archive.len() ==> read_length(b, 8 + archive.len() as int) == target.len(),
{
    lemma_auto_spec_u64_to_from_le_bytes();
    let l = layout(archive, target, executable);
    let a = archive.len() as int;
    assert(l.subrange(0, 8) =~= length_field(archive.len()));
    assert(l.subrange(8 + a, 16 + a) =~= length_field(target.len()));
}

/// Decoding the bytes of a container built from three sections gives back those sections.
pub proof fn law_decode_after_encode(archive: Seq<u8>, target: Seq<u8>, executable: Seq<u8>)
    requires
        archive.len() <= u64::MAX,
        target.len() <= u64::MAX,
    ensures
        corruption_of(layout(archive, target, executable)) is None,
        sections_of(layout(archive, target, executable)) == (archive, target, executable),
{
    lemma_auto_spec_u64_to_from_le_bytes();
    let l = layout(archive, target, executable);
    lemma_layout_fields(archive, target, executable, l);
    let a = archive.len() as int;
    let t = target.len() as int;
    assert(l.subrange(8, 8 + a) =~= archive);
    assert(l.subrange(16 + a, 16 + a + t) =~= target);
    assert(l.subrange(16 + a + t, l.len() as int) =~= executable);
}

/// A target identifier given as text reads back as the same text.
pub proof fn law_target_text_round_trip(triple: &str)
    ensures
        valid_utf8(triple.spec_bytes()),
        decode_utf8(triple.spec_bytes()) == triple@,
{
    encode_utf8_valid_utf8(triple@);
    encode_utf8_decode_utf8(triple@);
}

/// A container cut short before the end of its target section never decodes; one cut inside
/// its executable decodes to the same archive and target and the executable's kept prefix.
/// So a container without an executable fails to decode at every shorter length.
pub proof fn law_truncation_detected(
    archive: Seq<u8>,
    target: Seq<u8>,
    executable: Seq<u8>,
    cut: int,
)
    requires
        archive.len() <= u64::MAX,
        target.len() <= u64::MAX,
        0 <= cut < layout(archive, target, executable).len(),
    ensures
        ({
            let b = layout(archive, target, executable).subrange(0, cut);
            let end_of_target = 16 + archive.len() + target.len();
            if cut < end_of_target {
                corruption_of(b) is Some
            } else {
                &&& corruption_of(b) is None
                &&& sections_of(b) == (archive, target, executable.subrange(
                    0,
                    cut - end_of_target,
                ))
            }
        }),
{
    lemma_auto_spec_u64_to_from_le_bytes();
    let l = layout(archive, target, executable);
    let b = l.subrange(0, cut);
    let a = archive.len() as int;
    let t = target.len() as int;
    if b.len() >= 8 {
        assert(b.subrange(0, 8) =~= l.subrange(0, 8));
    }
    if b.len() >= 16 + a {
        assert(b.subrange(8 + a, 16 + a) =~= l.subrange(8 + a, 16 + a));
    }
    lemma_layout_fields(archive, target, executable, b);
    if cut >= 16 + a + t {
        assert(b.subrange(8, 8 + a) =~= archive);
        assert(b.subrange(16 + a, 16 + a + t) =~= target);
        assert(b.subrange(16 + a + t, b.len() as int) =~= executable.subrange(0, cut - (16 + a + t)));
    }
}

/// Removing the executable from a container that has none leaves its bytes as they are.
pub proof fn law_remove_binary_idempotent(
    start: FileContents,
    once: FileContents,
    twice: FileContents,
)
    requires
        start.wf(),
        removes_binary(start, once),
        removes_binary(once, twice),
    ensures
        twice.bytes() == once.bytes(),
{
}

/// Replacing the target and executable never changes the archive, nor the bytes of the
/// archive length field and the archive.
pub proof fn law_replace_keeps_archive(
    before: FileContents,
    after: FileContents,
    triple: Seq<u8>,
    binary: Seq<u8>,
)
    requires
        before.wf(),
        replaces_binary(before, after, triple, binary),
    ensures
        after.archive() == before.archive(),
        after.bytes().subrange(0, 8 + before.archive().len() as int) == before.bytes().subrange(
            0,
            8 + before.archive().len() as int,
        ),
{
    lemma_auto_spec_u64_to_from_le_bytes();
    lemma_wf_layout(&before);
    let a = before.archive();
    let n = 8 + a.len();
    assert(layout(a, triple, binary).subrange(0, n as int) =~= length_field(a.len()) + a);
    assert(layout(a, before.target(), before.executable()).subrange(0, n as int) =~= length_field(
        a.len(),
    ) + a);
}

/// `after` is `before` with its executable removed.
pub open spec fn removes_binary(before: FileContents, after: FileContents) -> bool {
    &&& after.wf()
    &&& after.archive() == before.archive()
    &&& after.target() == before.target()
    &&& after.executable() == Seq::<u8>::empty()
    &&& after.bytes() == layout(before.archive(), before.target(), Seq::empty())
}

/// `after` is `before` with its target and executable replaced by `triple` and `binary`.
pub open spec fn replaces_binary(
    before: FileContents,
    after: FileContents,
    triple: Seq<u8>,
    binary: Seq<u8>,
) -> bool {
    &&& after.wf()
    &&& after.archive() == before.archive()
    &&& after.target() == triple
    &&& after.executable() == binary
    &&& after.bytes() == layout(before.archive(), triple, binary)
}

/// What `String::from_utf8_lossy` makes of a byte sequence.
pub uninterp spec fn lossy_text(b: Seq<u8>) -> Seq<char>;

/// Relies on `String::from_utf8_lossy`: the text depends on the bytes alone, and bytes that
/// are valid UTF-8 come back as the characters they encode.
#[verifier::external_body]
fn text_of_bytes(b: &[u8]) -> (r: String)
    ensures
        r@ == lossy_text(b@),
        valid_utf8(b@) ==> r@ == decode_utf8(b@),
{
    String::from_utf8_lossy(b).into_owned()
}

} // verus!
