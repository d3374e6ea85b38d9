//! A minimal DOCX package that holds one native Office Math formula, for
//! pasting into WPS Office and Word.
use vstd::prelude::*;
use vstd::string::StringSliceAdditionalSpecFns;
use std::io::{Cursor, Write};
use zip::write::SimpleFileOptions;
use zip::{CompressionMethod, ZipWriter};
use crate::xml_source::{is_omml_text, is_valid_omml};

verus! {

/// The answer to a fragment that is not one valid Office Math formula.
pub const INVALID_OMML: &'static str = "无效的 OMML 公式";

pub const CONTENT_TYPES_PART: &'static str = "[Content_Types].xml";

pub const RELATIONSHIPS_PART: &'static str = "_rels/.rels";

pub const DOCUMENT_PART: &'static str = "word/document.xml";

pub const CONTENT_TYPES_XML: &'static str = "<?xml version=\"1.0\" encoding=\"UTF-8\" standalone=\"yes\"?>\n<Types xmlns=\"http://schemas.openxmlformats.org/package/2006/content-types\"><Default Extension=\"rels\" ContentType=\"application/vnd.openxmlformats-package.relationships+xml\"/><Default Extension=\"xml\" ContentType=\"application/xml\"/><Override PartName=\"/word/document.xml\" ContentType=\"application/vnd.openxmlformats-officedocument.wordprocessingml.document.main+xml\"/></Types>";

pub const RELATIONSHIPS_XML: &'static str = "<?xml version=\"1.0\" encoding=\"UTF-8\" standalone=\"yes\"?>\n<Relationships xmlns=\"http://schemas.openxmlformats.org/package/2006/relationships\"><Relationship Id=\"rId1\" Type=\"http://schemas.openxmlformats.org/officeDocument/2006/relationships/officeDocument\" Target=\"word/document.xml\"/></Relationships>";

/// The main document up to the formula: one paragraph opens here.
pub const DOCUMENT_HEAD: &'static str = "<?xml version=\"1.0\" encoding=\"UTF-8\" standalone=\"yes\"?>\n<w:document xmlns:w=\"http://schemas.openxmlformats.org/wordprocessingml/2006/main\"><w:body><w:p>";

/// The main document after the formula.
pub const DOCUMENT_TAIL: &'static str = "</w:p><w:sectPr/></w:body></w:document>";

/// The main document part: the formula as the only content of one paragraph.
pub open spec fn document_text(omml: Seq<char>) -> Seq<char> {
    DOCUMENT_HEAD@ + omml + DOCUMENT_TAIL@
}

/// The parts of the package, in the order they are written: each with its
/// name and the UTF-8 bytes of its content, written in one piece.
pub open spec fn docx_parts(omml: Seq<char>) -> Seq<(Seq<char>, Seq<Seq<u8>>)> {
    seq![
        (CONTENT_TYPES_PART@, seq![CONTENT_TYPES_XML.spec_bytes()]),
        (RELATIONSHIPS_PART@, seq![RELATIONSHIPS_XML.spec_bytes()]),
        (DOCUMENT_PART@, seq![encode_utf8_of(document_text(omml))]),
    ]
}

pub open spec fn encode_utf8_of(text: Seq<char>) -> Seq<u8> {
    vstd::utf8::encode_utf8(text)
}

pub fn document_xml(omml: &str) -> (document: String)
    ensures
        document@ == document_text(omml@),
{
    let mut document = String::from_str(DOCUMENT_HEAD);
    document.append(omml);
    document.append(DOCUMENT_TAIL);
    document
}

// ---------------------------------------------------------------------------
// The archive
// ---------------------------------------------------------------------------

/// The system an entry is recorded as made on. The `zip` crate picks it from
/// the platform it was built for, DOS on Windows and Unix elsewhere, and the
/// external attributes of the entry follow from it.
#[derive(Clone, Copy, Debug, PartialEq, Eq, Structural)]
pub enum HostSystem {
    Dos,
    Unix,
}

/// An in-memory ZIP archive being written.
#[verifier::external_body]
pub struct ArchiveWriter {
    writer: ZipWriter<Cursor<Vec<u8>>>,
}

/// What the archive holds so far: its entries in the order they were started,
/// each with its name and the pieces of content written to it, in order.
pub uninterp spec fn archive_entries(archive: ArchiveWriter) -> Seq<(Seq<char>, Seq<Seq<u8>>)>;

/// Every call on the archive so far has succeeded.
pub uninterp spec fn archive_intact(archive: ArchiveWriter) -> bool;

/// The bytes that `ZipWriter::finish` produces for an archive written into an
/// empty in-memory buffer, whose entries were started with deflate compression
/// and otherwise default options, recorded as made on `system`, and received
/// these pieces of content. (The crate is built without its `time` feature, so
/// entries carry the fixed default modification time.)
pub uninterp spec fn zip_archive_bytes(
    system: HostSystem,
    entries: Seq<(Seq<char>, Seq<Seq<u8>>)>,
) -> Seq<u8>;

/// The number of bytes that the `zip` crate's deflate encoder writes for an
/// entry whose content arrived in these pieces: the compressed size the entry
/// is recorded with.
pub uninterp spec fn deflated_len(pieces: Seq<Seq<u8>>) -> nat;

/// The total length of the pieces.
pub open spec fn pieces_len(pieces: Seq<Seq<u8>>) -> nat
    decreases pieces.len(),
{
    if pieces.len() == 0 {
        0
    } else {
        pieces_len(pieces.drop_last()) + pieces.last().len()
    }
}

/// The largest size, `u32::MAX` excluded, that an entry may have without the
/// ZIP64 extension, which the entries are written without.
pub open spec fn zip32_limit() -> nat {
    0xFFFF_FFFF
}

/// An entry within the `zip` crate's limits: its content and its compressed
/// form each stay under 4 GiB, and its name is short enough for a local
/// header under 64 KiB (a character takes at most four bytes).
pub open spec fn entry_fits(entry: (Seq<char>, Seq<Seq<u8>>)) -> bool {
    &&& pieces_len(entry.1) < zip32_limit()
    &&& deflated_len(entry.1) < zip32_limit()
    &&& entry.0.len() <= 16_000
}

/// A bound on the bytes the archive takes in memory: each entry's compressed
/// content, its name twice (local and central header) at four bytes a
/// character, and an allowance for its headers, plus one for the end records.
pub open spec fn archive_footprint(entries: Seq<(Seq<char>, Seq<Seq<u8>>)>) -> nat
    decreases entries.len(),
{
    if entries.len() == 0 {
        256
    } else {
        archive_footprint(entries.drop_last()) + 256 + 8 * entries.last().0.len() + deflated_len(
            entries.last().1,
        )
    }
}

/// The in-memory buffer can hold the archive and still double its capacity
/// without passing `isize::MAX`, the largest size of a `Vec`.
pub open spec fn memory_fits(footprint: nat) -> bool {
    footprint <= isize::MAX / 4
}

/// Every entry is within the `zip` crate's limits and the archive fits in memory.
pub open spec fn archive_fits(entries: Seq<(Seq<char>, Seq<Seq<u8>>)>) -> bool {
    &&& forall|i: int| 0 <= i < entries.len() ==> entry_fits(#[trigger] entries[i])
    &&& memory_fits(archive_footprint(entries))
}

/// Some entry already has this name.
pub open spec fn has_entry_named(entries: Seq<(Seq<char>, Seq<Seq<u8>>)>, name: Seq<char>) -> bool {
    exists|i: int| 0 <= i < entries.len() && (#[trigger] entries[i]).0 == name
}

/// `ZipWriter::new` over an empty `Cursor<Vec<u8>>`: an archive with no entries.
#[verifier::external_body]
fn new_archive() -> (archive: ArchiveWriter)
    ensures
        archive_entries(archive) == Seq::<(Seq<char>, Seq<Seq<u8>>)>::empty(),
        archive_intact(archive),
{
    ArchiveWriter { writer: ZipWriter::new(Cursor::new(Vec::new())) }
}

/// `ZipWriter::start_file` with deflate compression and otherwise default
/// options: on success a new, empty entry with this name follows the others.
/// Starting finishes the entry before, which fails when its content or its
/// compressed form reached 4 GiB; the new entry fails for a name already in
/// the archive or a local header of 64 KiB or more. An intact archive whose
/// last entry fits, with room in memory for the new header, takes a new name of
/// at most 16 000 characters. On failure nothing is stated of the entries.
#[verifier::external_body]
fn start_entry(archive: &mut ArchiveWriter, name: &str) -> (r: Result<(), String>)
    ensures
        r is Ok ==> archive_entries(*final(archive)) == archive_entries(*old(archive)).push(
            (name@, Seq::<Seq<u8>>::empty()),
        ),
        r is Ok ==> archive_intact(*final(archive)) == archive_intact(*old(archive)),
        archive_intact(*old(archive)) && !has_entry_named(archive_entries(*old(archive)), name@)
            && name@.len() <= 16_000 && (archive_entries(*old(archive)).len() > 0 ==> (pieces_len(
            archive_entries(*old(archive)).last().1,
        ) < zip32_limit() && deflated_len(archive_entries(*old(archive)).last().1)
            < zip32_limit())) && memory_fits(archive_footprint(archive_entries(*old(archive))) + 256 + 8 * name@.len())
            ==> r is Ok,
{
    let options = SimpleFileOptions::default().compression_method(CompressionMethod::Deflated);
    archive.writer.start_file(name, options).map_err(|error| error.to_string())
}

/// `Write::write_all` on the archive: on success the bytes become the next
/// piece of content of the entry started last. Writing into the in-memory
/// buffer fails only once the entry's content reaches 4 GiB (it is written
/// without the large-file option), so an intact archive whose entry stays
/// under that and which fits in memory afterwards succeeds. On failure nothing
/// is stated of the entries.
#[verifier::external_body]
fn write_entry(archive: &mut ArchiveWriter, bytes: &[u8]) -> (r: Result<(), String>)
    requires
        archive_entries(*old(archive)).len() > 0,
    ensures
        r is Ok ==> archive_entries(*final(archive)) == archive_entries(*old(archive)).update(
            archive_entries(*old(archive)).len() - 1,
            (
                archive_entries(*old(archive)).last().0,
                archive_entries(*old(archive)).last().1.push(bytes@),
            ),
        ),
        r is Ok ==> archive_intact(*final(archive)) == archive_intact(*old(archive)),
        archive_intact(*old(archive)) && pieces_len(
            archive_entries(*old(archive)).last().1.push(bytes@),
        ) < zip32_limit() && memory_fits(
            archive_footprint(
                archive_entries(*old(archive)).update(
                    archive_entries(*old(archive)).len() - 1,
                    (
                        archive_entries(*old(archive)).last().0,
                        archive_entries(*old(archive)).last().1.push(bytes@),
                    ),
                ),
            ),
        ) ==> r is Ok,
{
    archive.writer.write_all(bytes).map_err(|error| error.to_string())
}

/// `ZipWriter::finish` followed by `Cursor::into_inner`: on success the bytes
/// of the finished archive, its entries recorded as made on DOS or on Unix as
/// the platform decides. Over an in-memory buffer it fails only when an earlier
/// call failed or the last entry's content or compressed form reached 4 GiB
/// (the directory switches to ZIP64 by itself), so an intact archive that fits
/// succeeds.
#[verifier::external_body]
fn finish_archive(archive: ArchiveWriter) -> (r: Result<Vec<u8>, String>)
    ensures
        r matches Ok(bytes) ==> bytes@ == zip_archive_bytes(
            HostSystem::Dos,
            archive_entries(archive),
        ) || bytes@ == zip_archive_bytes(HostSystem::Unix, archive_entries(archive)),
        archive_intact(archive) && archive_fits(archive_entries(archive)) ==> r is Ok,
{
    archive.writer.finish().map(|cursor| cursor.into_inner()).map_err(|error| error.to_string())
}

/// An archive with these entries takes one more entry: the name is new and
/// short enough, the last entry (finished when the new one starts) and the new
/// entry are within the `zip` crate's limits, and the archive fits in memory.
pub open spec fn takes_entry(
    entries: Seq<(Seq<char>, Seq<Seq<u8>>)>,
    entry: (Seq<char>, Seq<Seq<u8>>),
) -> bool {
    &&& !has_entry_named(entries, entry.0)
    &&& entries.len() > 0 ==> entry_fits(entries.last())
    &&& entry_fits(entry)
    &&& memory_fits(archive_footprint(entries.push(entry)))
}

/// Adds one entry with the UTF-8 bytes of `contents`. An intact archive that
/// takes the new entry gets it.
pub fn write_part(archive: &mut ArchiveWriter, name: &str, contents: &str) -> (r: Result<
    (),
    String,
>)
    ensures
        r is Ok ==> archive_entries(*final(archive)) == archive_entries(*old(archive)).push(
            (name@, seq![contents.spec_bytes()]),
        ),
        r is Ok ==> archive_intact(*final(archive)) == archive_intact(*old(archive)),
        archive_intact(*old(archive)) && takes_entry(
            archive_entries(*old(archive)),
            (name@, seq![contents.spec_bytes()]),
        ) ==> r is Ok,
{
    let ghost before = archive_entries(*archive);
    proof {
        let grown = before.push((name@, seq![contents.spec_bytes()]));
        assert(grown.drop_last() =~= before);
        assert(seq![contents.spec_bytes()].drop_last() =~= Seq::<Seq<u8>>::empty());
        assert(Seq::<Seq<u8>>::empty().push(contents.spec_bytes()) =~= seq![
            contents.spec_bytes(),
        ]);
    }
    start_entry(archive, name)?;
    let ghost started = archive_entries(*archive);
    proof {
        assert(started.update(
            started.len() - 1,
            (started.last().0, started.last().1.push(contents.spec_bytes())),
        ) =~= before.push((name@, seq![contents.spec_bytes()])));
    }
    write_entry(archive, contents.as_bytes())
}

/// The package of a fragment is within the `zip` crate's limits and fits in
/// memory.
pub open spec fn docx_fits(omml: Seq<char>) -> bool {
    archive_fits(docx_parts(omml))
}

/// The package for a fragment whose validity has been decided: the answer
/// `INVALID_OMML` when it is not valid, and otherwise the archive of the three
/// parts, which is always produced when the package is within the `zip`
/// crate's limits.
pub fn document_for_verdict(omml: &str, valid: bool) -> (r: Result<Vec<u8>, String>)
    ensures
        !valid ==> (r matches Err(message) && message@ == INVALID_OMML@),
        valid && docx_fits(omml@) ==> r is Ok,
        r matches Ok(bytes) ==> valid && (bytes@ == zip_archive_bytes(
            HostSystem::Dos,
            docx_parts(omml@),
        ) || bytes@ == zip_archive_bytes(HostSystem::Unix, docx_parts(omml@))),
{
    if !valid {
        return Err(String::from_str(INVALID_OMML));
    }
    let document = document_xml(omml);
    let mut archive = new_archive();
    let ghost parts = docx_parts(omml@);
    proof {
        reveal_strlit("[Content_Types].xml");
        reveal_strlit("_rels/.rels");
        reveal_strlit("word/document.xml");
        assert(parts.take(3) =~= parts);
        assert(parts.take(3).drop_last() =~= parts.take(2));
        assert(parts.take(2).drop_last() =~= parts.take(1));
        assert(parts.take(1).drop_last() =~= Seq::<(Seq<char>, Seq<Seq<u8>>)>::empty());
        assert(archive_footprint(parts.take(1)) <= archive_footprint(parts.take(2)));
        assert(archive_footprint(parts.take(2)) <= archive_footprint(parts));
        assert(Seq::<(Seq<char>, Seq<Seq<u8>>)>::empty().push(parts[0]) =~= parts.take(1));
        assert(parts.take(1).push(parts[1]) =~= parts.take(2));
        assert(parts.take(2).push(parts[2]) =~= parts);
        if docx_fits(omml@) {
            assert(entry_fits(parts[0]));
            assert(entry_fits(parts[1]));
            assert(entry_fits(parts[2]));
            assert(parts.take(1).last() == parts[0]);
            assert(parts.take(2).last() == parts[1]);
            assert(!has_entry_named(Seq::<(Seq<char>, Seq<Seq<u8>>)>::empty(), parts[0].0));
            assert(!has_entry_named(parts.take(1), parts[1].0));
            assert(!has_entry_named(parts.take(2), parts[2].0));
        }
    }
    write_part(&mut archive, CONTENT_TYPES_PART, CONTENT_TYPES_XML)?;
    proof {
        assert(archive_entries(archive) =~= parts.take(1));
    }
    write_part(&mut archive, RELATIONSHIPS_PART, RELATIONSHIPS_XML)?;
    proof {
        assert(archive_entries(archive) =~= parts.take(2));
    }
    write_part(&mut archive, DOCUMENT_PART, document.as_str())?;
    proof {
        assert(archive_entries(archive) =~= parts);
    }
    finish_archive(archive)
}

/// Builds a minimal in-memory DOCX package containing one native OMML formula,
/// its entries recorded as made on DOS or on Unix as the platform decides
/// (DOS on Windows, Unix elsewhere). A fragment that is not one valid formula
/// gets the answer `INVALID_OMML`; a valid one gets its package whenever the
/// package is within the `zip` crate's limits.
pub fn document_from_omml(omml: &str) -> (r: Result<Vec<u8>, String>)
    ensures
        !is_omml_text(omml@) ==> (r matches Err(message) && message@ == INVALID_OMML@),
        is_omml_text(omml@) && docx_fits(omml@) ==> r is Ok,
        r matches Ok(bytes) ==> is_omml_text(omml@) && (bytes@ == zip_archive_bytes(
            HostSystem::Dos,
            docx_parts(omml@),
        ) || bytes@ == zip_archive_bytes(HostSystem::Unix, docx_parts(omml@))),
{
    let valid = is_valid_omml(omml);
    document_for_verdict(omml, valid)
}

/// Law: the package has exactly the parts `[Content_Types].xml`,
/// `_rels/.rels` and `word/document.xml`, each written in one piece; the first
/// two do not depend on the formula, and the main document holds the formula
/// verbatim, as the only content of one paragraph, so different formulas give
/// different documents.
pub proof fn law_docx_package(omml: Seq<char>, other: Seq<char>)
    ensures
        docx_parts(omml).len() == 3,
        docx_parts(omml)[0].0 == "[Content_Types].xml"@,
        docx_parts(omml)[1].0 == "_rels/.rels"@,
        docx_parts(omml)[2].0 == "word/document.xml"@,
        docx_parts(omml)[0] == docx_parts(other)[0],
        docx_parts(omml)[1] == docx_parts(other)[1],
        docx_parts(omml)[2].1 == seq![
            vstd::utf8::encode_utf8(DOCUMENT_HEAD@ + omml + DOCUMENT_TAIL@),
        ],
        document_text(omml) == DOCUMENT_HEAD@ + omml + DOCUMENT_TAIL@,
        document_text(omml).subrange(
            DOCUMENT_HEAD@.len() as int,
            (DOCUMENT_HEAD@.len() + omml.len()) as int,
        ) == omml,
        document_text(omml) == document_text(other) ==> omml == other,
{
    let n = DOCUMENT_HEAD@.len() as int;
    assert(document_text(omml).subrange(n, n + omml.len()) =~= omml);
    if document_text(omml) == document_text(other) {
        assert(document_text(other).subrange(n, n + other.len()) =~= other);
    }
}

} // verus!
