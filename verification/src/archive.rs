//! In-memory extraction of a downloaded ZIP archive: the response body is
//! opened as a structured archive and every entry is read out as a relative
//! path with its bytes. Writing those entries under the target directory is
//! the caller's step.

use std::io::Cursor;
use vstd::prelude::*;

verus! {

#[verifier::external_type_specification]
#[verifier::external_body]
#[verifier::reject_recursive_types(T)]
pub struct ExCursor<T>(Cursor<T>);

#[verifier::external_type_specification]
#[verifier::external_body]
#[verifier::reject_recursive_types(R)]
pub struct ExZipArchive<R>(zip::ZipArchive<R>);

/// What a ZIP byte stream parses to: per entry its name, and its data or
/// `None` where the entry's contents cannot be read; `None` overall when the
/// stream is not a well-formed archive. A function of the bytes alone.
pub uninterp spec fn zip_parse(b: Seq<u8>) -> Option<Seq<(Seq<char>, Option<Seq<u8>>)>>;

/// The entries an open archive value holds.
pub uninterp spec fn zip_contents(a: zip::ZipArchive<Cursor<Vec<u8>>>) -> Seq<
    (Seq<char>, Option<Seq<u8>>),
>;

/// Relies on zip's `ZipArchive::new`: opening reads the central directory of
/// the byte stream and fails exactly when the stream is not a well-formed
/// archive.
#[verifier::external_body]
fn zip_open(bytes: &Vec<u8>) -> (r: Result<zip::ZipArchive<Cursor<Vec<u8>>>, ()>)
    ensures
        match r {
            Ok(a) => zip_parse(bytes@) == Some(zip_contents(a)),
            Err(e) => zip_parse(bytes@) is None,
        },
{
    zip::ZipArchive::new(Cursor::new(bytes.clone())).map_err(|_e| ())
}

/// Relies on zip's `ZipArchive::len`: the number of entries in the archive.
#[verifier::external_body]
fn zip_len(a: &zip::ZipArchive<Cursor<Vec<u8>>>) -> (r: usize)
    ensures
        r == zip_contents(*a).len(),
{
    a.len()
}

/// Relies on zip's `ZipArchive::by_index` and std's `Read::read_to_end`:
/// reading entry `i` yields its name and decompressed data, fails exactly
/// where that entry's data is unreadable, and leaves the archive's entries
/// unchanged.
#[verifier::external_body]
fn zip_entry(a: &mut zip::ZipArchive<Cursor<Vec<u8>>>, i: usize) -> (r: Result<
    (String, Vec<u8>),
    (),
>)
    requires
        i < zip_contents(*old(a)).len(),
    ensures
        zip_contents(*final(a)) == zip_contents(*old(a)),
        match r {
            Ok(p) => zip_contents(*old(a))[i as int] == (p.0@, Some(p.1@)),
            Err(e) => zip_contents(*old(a))[i as int].1 is None,
        },
{
    let mut f = a.by_index(i).map_err(|_e| ())?;
    let name = f.name().to_owned();
    let mut data = Vec::new();
    std::io::Read::read_to_end(&mut f, &mut data).map_err(|_e| ())?;
    Ok((name, data))
}

/// One extracted entry: its relative path inside the archive and its bytes.
#[derive(Debug, Clone)]
pub struct ZipEntry {
    pub name: String,
    pub data: Vec<u8>,
}

/// The extracted entries mirror the archive's entries, in order, each with
/// readable data.
pub open spec fn entries_match(es: Seq<(Seq<char>, Option<Seq<u8>>)>, v: Seq<ZipEntry>) -> bool {
    v.len() == es.len() && (forall|i: int|
        0 <= i < es.len() ==> (#[trigger] es[i]) == (v[i].name@, Some(v[i].data@)))
}

/// Opens `bytes` as a ZIP archive and reads every entry into memory, in
/// archive order. `Err` exactly when the bytes are not a well-formed archive
/// or some entry's data cannot be read.
pub fn extract_zip(bytes: &Vec<u8>) -> (r: Result<Vec<ZipEntry>, ()>)
    ensures
        match r {
            Ok(v) => zip_parse(bytes@) matches Some(es) && entries_match(es, v@),
            Err(e) => zip_parse(bytes@) is None || (zip_parse(bytes@) matches Some(es)
                && exists|i: int| 0 <= i < es.len() && (#[trigger] es[i]).1 is None),
        },
{
    let mut a = match zip_open(bytes) {
        Ok(a) => a,
        Err(e) => {
            return Err(());
        },
    };
    let n = zip_len(&a);
    let mut out: Vec<ZipEntry> = Vec::new();
    let mut i: usize = 0;
    while i < n
        invariant
            i <= n,
            out@.len() == i,
            zip_parse(bytes@) == Some(zip_contents(a)),
            n == zip_contents(a).len(),
            forall|j: int|
                0 <= j < i ==> (#[trigger] zip_contents(a)[j]) == (
                out@[j].name@,
                Some(out@[j].data@),
            ),
        decreases n - i,
    {
        match zip_entry(&mut a, i) {
            Ok(p) => {
                out.push(ZipEntry { name: p.0, data: p.1 });
            },
            Err(e) => {
                proof {
                    let es = zip_parse(bytes@).unwrap();
                    assert(es[i as int].1 is None);
                    assert(exists|j: int| 0 <= j < es.len() && (#[trigger] es[j]).1 is None);
                }
                return Err(());
            },
        }
        i += 1;
    }
    proof {
        let es = zip_parse(bytes@).unwrap();
        assert(entries_match(es, out@));
    }
    Ok(out)
}

} // verus!
