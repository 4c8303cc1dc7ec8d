//! Reading a downloaded zip archive held in memory.

use vstd::prelude::*;

use crate::error::InstallError;
use crate::extract::{plan_skipped, plan_writes, ExtractPlan};

verus! {

#[verifier::external_type_specification]
#[verifier::external_body]
#[verifier::reject_recursive_types(R)]
pub struct ExZipArchive<R>(zip::ZipArchive<R>);

#[verifier::external_type_specification]
#[verifier::external_body]
pub struct ExZipError(zip::result::ZipError);

#[verifier::external_type_specification]
#[verifier::external_body]
#[verifier::reject_recursive_types(T)]
pub struct ExCursor<T>(std::io::Cursor<T>);

/// The entries of an opened archive, in central-directory order: each one's
/// name and its decompressed content.
pub uninterp spec fn archive_entries(a: zip::ZipArchive<std::io::Cursor<Vec<u8>>>) -> Seq<
    (Seq<char>, Seq<u8>),
>;

/// The entries that the zip reader finds in a buffer of bytes.
pub uninterp spec fn zip_contents(bytes: Seq<u8>) -> Seq<(Seq<char>, Seq<u8>)>;

/// The bytes that an opened archive reads its entries from.
pub uninterp spec fn archive_bytes(a: zip::ZipArchive<std::io::Cursor<Vec<u8>>>) -> Seq<u8>;

/// The zip reader finds a central directory in `bytes` and opens them.
pub uninterp spec fn zip_opens(bytes: Seq<u8>) -> bool;

/// The zip reader reads entry `i` of the archive in `bytes`: its name
/// decodes and its content decompresses and passes its checksum.
pub uninterp spec fn entry_readable(bytes: Seq<u8>, i: nat) -> bool;

/// The zip reader opens `bytes` and reads every entry.
pub open spec fn zip_readable(bytes: Seq<u8>) -> bool {
    &&& zip_opens(bytes)
    &&& forall|i: nat| i < zip_contents(bytes).len() ==> #[trigger] entry_readable(bytes, i)
}

/// Relies on `zip::ZipArchive::new` over an in-memory cursor: it reads the
/// central directory of `bytes`, which alone decides whether it opens and
/// the entries found.
#[verifier::external_body]
fn open_archive(bytes: Vec<u8>) -> (r: Result<
    zip::ZipArchive<std::io::Cursor<Vec<u8>>>,
    zip::result::ZipError,
>)
    ensures
        r is Ok <==> zip_opens(bytes@),
        r is Ok ==> archive_entries(r->Ok_0) == zip_contents(bytes@) && archive_bytes(r->Ok_0)
            == bytes@,
{
    zip::ZipArchive::new(std::io::Cursor::new(bytes))
}

/// Relies on `zip::ZipArchive::len`: the number of entries in the central
/// directory.
#[verifier::external_body]
fn entry_count(a: &zip::ZipArchive<std::io::Cursor<Vec<u8>>>) -> (r: usize)
    ensures
        r == archive_entries(*a).len(),
{
    a.len()
}

/// Relies on `zip::ZipArchive::by_index`, `zip::read::ZipFile::name` and
/// `std::io::Read::read_to_end` on the entry: the name and the decompressed
/// content of entry `i`, which the bytes alone decide. Reading moves the
/// cursor only; the entries and the bytes stay.
#[verifier::external_body]
fn read_entry(a: &mut zip::ZipArchive<std::io::Cursor<Vec<u8>>>, i: usize) -> (r: Result<
    (String, Vec<u8>),
    zip::result::ZipError,
>)
    requires
        i < archive_entries(*old(a)).len(),
    ensures
        archive_entries(*final(a)) == archive_entries(*old(a)),
        archive_bytes(*final(a)) == archive_bytes(*old(a)),
        r is Ok <==> entry_readable(archive_bytes(*old(a)), i as nat),
        r is Ok ==> r->Ok_0.0@ == archive_entries(*old(a))[i as int].0 && r->Ok_0.1@
            == archive_entries(*old(a))[i as int].1,
{
    let mut file = a.by_index(i)?;
    let name = file.name()?.into_owned();
    let mut data: Vec<u8> = Vec::new();
    std::io::Read::read_to_end(&mut file, &mut data)?;
    Ok((name, data))
}

/// Reads every entry of the archive in `bytes` and decides, for an archive
/// whose extraction root is `root`, which files to write and which entries to
/// refuse. Fails with `ArchiveFormatError` exactly when the container or an
/// entry cannot be read.
pub fn plan_archive(bytes: Vec<u8>, root: &str) -> (r: Result<ExtractPlan, InstallError>)
    ensures
        r is Ok <==> zip_readable(bytes@),
        r is Ok ==> r->Ok_0.model() == (
            plan_writes(root@, zip_contents(bytes@)),
            plan_skipped(zip_contents(bytes@)),
        ),
        r is Err ==> r == Err::<ExtractPlan, InstallError>(InstallError::ArchiveFormatError),
{
    let ghost es = zip_contents(bytes@);
    let ghost bs = bytes@;
    let mut archive = match open_archive(bytes) {
        Ok(a) => a,
        Err(_) => return Err(InstallError::ArchiveFormatError),
    };
    let n = entry_count(&archive);
    let mut plan = ExtractPlan::new();
    let mut i: usize = 0;
    assert(es.subrange(0, 0) =~= Seq::<(Seq<char>, Seq<u8>)>::empty());
    while i < n
        invariant
            i <= n,
            n == es.len(),
            archive_entries(archive) == es,
            archive_bytes(archive) == bs,
            bs == bytes@,
            es == zip_contents(bs),
            zip_opens(bs),
            forall|j: nat| j < i ==> #[trigger] entry_readable(bs, j),
            plan.model() == (
                plan_writes(root@, es.subrange(0, i as int)),
                plan_skipped(es.subrange(0, i as int)),
            ),
        decreases n - i,
    {
        match read_entry(&mut archive, i) {
            Ok((name, data)) => {
                assert(es.subrange(0, i + 1).drop_last() =~= es.subrange(0, i as int));
                assert(es.subrange(0, i + 1).last() == es[i as int]);
                plan.add_entry(root, name, data);
            },
            Err(_) => {
                assert(!entry_readable(bs, i as nat));
                assert((i as nat) < zip_contents(bs).len());
                return Err(InstallError::ArchiveFormatError);
            },
        }
        i = i + 1;
    }
    assert(es.subrange(0, n as int) =~= es);
    Ok(plan)
}

} // verus!
