//! The archive changelog reader: the trusted boundary to the `rpm` crate
//! and the query-and-threshold filtering of one package archive.

use vstd::prelude::*;
use vstd::string::*;

use crate::changelog::{dir_contributions, entry_contribution, filter_changelogs,
    joined_contributions, kept_plain_descriptions, lemma_kept_descriptions_match, matches_query,
    package_banner, query_matches, ArchiveMeta, ChangelogEntry, ChangelogQuery, DirEntry,
    RawDirEntry};
use crate::error::Error;
use crate::package_manager::PackageChangelogResult;
use rpm::Error as RpmCrateError;

verus! {

/// A package archive parsed by the `rpm` crate, held opaquely; what the
/// library reads of one is named by [`rpm_meta_of`].
#[verifier::external_type_specification]
#[verifier::external_body]
pub struct ExRpmPackage(rpm::Package);

/// The `rpm` crate's error, carried opaquely by the library's archive
/// error.
#[verifier::external_type_specification]
#[verifier::external_body]
pub struct ExRpmError(RpmCrateError);

/// What the `rpm` crate reads out of the given archive bytes: the declared
/// package name and the (timestamp, description) changelog entries in their
/// stored order, or nothing when the bytes do not read as an archive whose
/// header carries both. The reading is a function of the bytes alone.
pub uninterp spec fn rpm_meta_of(data: Seq<u8>) -> Option<(Seq<char>, Seq<(u64, Seq<char>)>)>;

/// Whether `meta` is exactly the named reading of `data`.
pub open spec fn is_archive_meta_of(data: Seq<u8>, meta: ArchiveMeta) -> bool {
    &&& rpm_meta_of(data) matches Option::Some(m)
    &&& meta.name@ == m.0
    &&& meta.entries@.len() == m.1.len()
    &&& forall|i: int|
        0 <= i < m.1.len() ==> (#[trigger] meta.entries@[i]).timestamp == m.1[i].0
            && meta.entries@[i].description@ == m.1[i].1
}

/// The big-endian 32-bit number whose four bytes start at `i`.
pub open spec fn be_u32_at(data: Seq<u8>, i: int) -> int
    recommends
        0 <= i && i + 4 <= data.len(),
{
    (data[i] as int) * 0x1000000 + (data[i + 1] as int) * 0x10000 + (data[i + 2] as int) * 0x100
        + (data[i + 3] as int)
}

/// How many bytes of the header's data section one item of an index
/// entry's data type occupies: nothing for the null type, two, four or
/// eight for the fixed-width numbers, one for everything read byte by
/// byte (characters, strings, binaries).
pub open spec fn entry_type_width(t: int) -> int {
    if t == 0 {
        0
    } else if t == 3 {
        2
    } else if t == 4 {
        4
    } else if t == 5 {
        8
    } else {
        1
    }
}

/// Whether the 16-byte index entry starting at `at` stays inside a data
/// section of `dl` bytes: a known data type, a non-negative offset within
/// the section, and an item count whose data fits after the offset.
pub open spec fn entry_ok(data: Seq<u8>, at: int, dl: int) -> bool {
    let t = be_u32_at(data, at + 4);
    let off = be_u32_at(data, at + 8);
    let cnt = be_u32_at(data, at + 12);
    &&& 0 <= t <= 9
    &&& off < 0x80000000
    &&& off <= dl
    &&& cnt * entry_type_width(t) <= dl - off
}

/// The entry at index `j` of the index table starting at `table`.
pub open spec fn entry_ok_at(data: Seq<u8>, table: int, j: int, dl: int) -> bool {
    entry_ok(data, table + 16 * j, dl)
}

/// Whether a header block (signature or main) starting at `at` is laid
/// out safely: the magic and version, the declared sizes within both the
/// 32-bit arithmetic the reader uses and the file itself, and every index
/// entry within the data section.
pub open spec fn header_block_ok(data: Seq<u8>, at: int) -> bool {
    &&& at + 16 <= data.len()
    &&& data[at] == 0x8e
    &&& data[at + 1] == 0xad
    &&& data[at + 2] == 0xe8
    &&& data[at + 3] == 1
    &&& ({
        let n = be_u32_at(data, at + 8);
        let dl = be_u32_at(data, at + 12);
        &&& 16 * n + dl <= 0xffffffff
        &&& at + 16 + 16 * n + dl <= data.len()
        &&& forall|j: int| 0 <= j < n ==> #[trigger] entry_ok_at(data, at + 16, j, dl)
    })
}

/// Where the header block starting at `at` ends.
pub open spec fn header_block_end(data: Seq<u8>, at: int) -> int {
    at + 16 + 16 * be_u32_at(data, at + 8) + be_u32_at(data, at + 12)
}

/// The padding that follows a signature header whose data section holds
/// `dl` bytes: up to the next multiple of eight.
pub open spec fn sig_padding(dl: int) -> int {
    if dl % 8 == 0 {
        0
    } else {
        8 - dl % 8
    }
}

/// Whether the bytes lay out a package archive that the `rpm` crate can
/// read without leaving its error channel: the lead's magic, then the
/// signature header block, its padding, and the main header block, each
/// index entry of both blocks pointing inside its own data section. The
/// crate trusts these offsets and counts, so this is checked here, before
/// the crate ever sees the bytes.
pub open spec fn rpm_layout_ok(data: Seq<u8>) -> bool {
    &&& data.len() >= 96
    &&& data[0] == 0xed
    &&& data[1] == 0xab
    &&& data[2] == 0xee
    &&& data[3] == 0xdb
    &&& header_block_ok(data, 96)
    &&& header_block_ok(
        data,
        header_block_end(data, 96) + sig_padding(be_u32_at(data, 108)),
    )
}

/// Reads the big-endian 32-bit number at `i`.
fn read_be_u32(data: &[u8], i: usize) -> (v: u64)
    requires
        i + 4 <= data@.len(),
    ensures
        v == be_u32_at(data@, i as int),
        v < 0x100000000,
{
    (data[i] as u64) * 0x1000000 + (data[i + 1] as u64) * 0x10000 + (data[i + 2] as u64) * 0x100
        + (data[i + 3] as u64)
}

/// The width of one item of an index entry's data type.
fn read_type_width(t: u64) -> (w: u64)
    ensures
        w == entry_type_width(t as int),
{
    if t == 0 {
        0
    } else if t == 3 {
        2
    } else if t == 4 {
        4
    } else if t == 5 {
        8
    } else {
        1
    }
}

/// Checks one header block's layout.
fn check_header_block(data: &[u8], at: usize) -> (r: bool)
    ensures
        r == header_block_ok(data@, at as int),
{
    if data.len() < 16 || at > data.len() - 16 {
        return false;
    }
    if !(data[at] == 0x8e && data[at + 1] == 0xad && data[at + 2] == 0xe8 && data[at + 3] == 1) {
        return false;
    }
    let n = read_be_u32(data, at + 8);
    let dl = read_be_u32(data, at + 12);
    if 16 * n + dl > 0xffffffff {
        return false;
    }
    if (at as u128) + 16 + 16 * (n as u128) + (dl as u128) > (data.len() as u128) {
        return false;
    }
    let mut j: u64 = 0;
    while j < n
        invariant
            j <= n,
            n == be_u32_at(data@, at + 8),
            dl == be_u32_at(data@, at + 12),
            n < 0x100000000,
            dl < 0x100000000,
            at + 16 + 16 * n + dl <= data@.len(),
            data@.len() <= usize::MAX,
            forall|k: int| 0 <= k < j ==> #[trigger] entry_ok_at(data@, at + 16, k, dl as int),
        decreases n - j,
    {
        proof {
            assert(16 * (j as int) + 16 <= 16 * (n as int));
            assert(at + 16 + 16 * (j as int) + 16 <= data@.len());
        }
        let e = at + 16 + 16 * (j as usize);
        let t = read_be_u32(data, e + 4);
        let off = read_be_u32(data, e + 8);
        let cnt = read_be_u32(data, e + 12);
        let ok = t <= 9 && off < 0x80000000 && off <= dl && cnt * read_type_width(t) <= dl - off;
        if !ok {
            proof {
                assert(!entry_ok_at(data@, at + 16, j as int, dl as int));
            }
            return false;
        }
        proof {
            assert(entry_ok_at(data@, at + 16, j as int, dl as int));
        }
        j += 1;
    }
    true
}

/// Checks whether the bytes lay out a package archive the `rpm` crate can
/// read safely.
pub fn check_rpm_layout(data: &[u8]) -> (r: bool)
    ensures
        r == rpm_layout_ok(data@),
{
    if data.len() < 96 {
        return false;
    }
    if !(data[0] == 0xed && data[1] == 0xab && data[2] == 0xee && data[3] == 0xdb) {
        return false;
    }
    if !check_header_block(data, 96) {
        return false;
    }
    let n1 = read_be_u32(data, 96 + 8);
    let dl1 = read_be_u32(data, 96 + 12);
    let sig_end = 96 + 16 + 16 * (n1 as usize) + (dl1 as usize);
    let pad = if dl1 % 8 == 0 {
        0
    } else {
        (8 - (dl1 % 8)) as usize
    };
    if data.len() - sig_end < pad {
        proof {
            assert(!header_block_ok(data@, sig_end as int + sig_padding(dl1 as int)));
        }
        return false;
    }
    check_header_block(data, sig_end + pad)
}

/// Relies on `rpm::Package::parse`, `rpm::PackageMetadata::get_name` and
/// `rpm::PackageMetadata::get_changelog_entries`: together they read the
/// archive in `data` into its declared name and stored changelog entries,
/// all three deterministic in the bytes; any of them failing fails the
/// read with the crate's error. The crate slices each header's data
/// section with the offsets and counts written in the file, without bounds
/// checks, so this is only called on bytes whose layout passed
/// [`check_rpm_layout`]; on such bytes every access stays inside the data
/// section and the crate returns instead of panicking.
#[verifier::external_body]
fn read_package_archive(data: &[u8]) -> (r: Result<ArchiveMeta, Error>)
    requires
        rpm_layout_ok(data@),
    ensures
        r is Ok <==> rpm_meta_of(data@) is Some,
        r matches Ok(meta) ==> is_archive_meta_of(data@, meta),
        r matches Err(e) ==> e matches Error::RPMError(_),
{
    let mut input = data;
    let package = rpm::Package::parse(&mut input).map_err(Error::RPMError)?;
    let name = package.metadata.get_name().map_err(Error::RPMError)?.to_string();
    let entries = package
        .metadata
        .get_changelog_entries()
        .map_err(Error::RPMError)?
        .into_iter()
        .map(|e| ChangelogEntry { timestamp: e.timestamp, description: e.description })
        .collect();
    Ok(ArchiveMeta { name, entries })
}

/// Whether the bytes both lay out a safe archive and read as one.
pub open spec fn archive_readable(data: Seq<u8>) -> bool {
    rpm_layout_ok(data) && rpm_meta_of(data) is Some
}

/// Reads one package archive into its declared name and raw changelog
/// entries; `None` exactly when the bytes are not a readable archive.
pub(crate) fn read_archive_meta(data: &[u8]) -> (r: Option<ArchiveMeta>)
    ensures
        r is Some <==> archive_readable(data@),
        r matches Some(meta) ==> is_archive_meta_of(data@, meta),
{
    if !check_rpm_layout(data) {
        return Option::None;
    }
    match read_package_archive(data) {
        Result::Ok(meta) => Option::Some(meta),
        Result::Err(_) => Option::None,
    }
}

/// Opens the package archive in `data`, checks its declared name against
/// the query, and keeps the changelog entries newer than the threshold.
/// Bytes whose layout is unsafe to hand to the archive reader fail with
/// the malformed-archive error; bytes the reader cannot read fail with
/// the archive error; a declared name that misses the filter fails with
/// the mismatch error carrying that name and the filter; otherwise the
/// result holds the declared name and exactly the newer entries'
/// descriptions, in stored order — an empty list is still a success.
pub fn get_rpm_changelogs_result(
    query: &ChangelogQuery,
    data: &[u8],
    threshold: u64,
) -> (r: Result<PackageChangelogResult, Error>)
    ensures
        !rpm_layout_ok(data@) ==> (r matches Err(e) && e matches Error::MalformedRPMArchive),
        rpm_layout_ok(data@) && rpm_meta_of(data@) is None ==> (r matches Err(e) && e matches
            Error::RPMError(_)),
        rpm_layout_ok(data@) ==> (rpm_meta_of(data@) matches Some(m) ==> {
            &&& (r is Ok <==> query_matches(query@, m.0))
            &&& (r matches Ok(res) ==> res.name@ == m.0 && res.changelogs.deep_view()
                == kept_plain_descriptions(m.1, threshold))
            &&& (r matches Err(e) ==> {
                &&& e matches Error::PackageNameDoesNotMatch(n, f)
                &&& n@ == m.0
                &&& query@ matches Option::Some(q) && f@ == q
            })
        }),
{
    if !check_rpm_layout(data) {
        return Result::Err(Error::MalformedRPMArchive);
    }
    let meta = read_package_archive(data)?;
    if let Option::Some(filter) = &query.name {
        if !matches_query(meta.name.as_str(), filter.as_str()) {
            return Result::Err(Error::PackageNameDoesNotMatch(meta.name, filter.clone()));
        }
    }
    let changelogs = filter_changelogs(&meta.entries, threshold);
    proof {
        let m = rpm_meta_of(data@)->0;
        lemma_kept_descriptions_match(meta.entries@, m.1, threshold);
    }
    Result::Ok(PackageChangelogResult { name: meta.name, changelogs })
}

/// Whether one read file leaf holds exactly the named reading of its
/// bytes.
pub open spec fn file_read_of(data: Seq<u8>, meta: Option<ArchiveMeta>) -> bool {
    &&& meta is Some <==> archive_readable(data)
    &&& (meta matches Option::Some(m) ==> is_archive_meta_of(data, m))
}

/// Whether one read entry is exactly the reading of one raw entry:
/// directories keep their structure and every file holds the reading of
/// its bytes.
pub open spec fn entry_read_of(raw: RawDirEntry, cooked: DirEntry) -> bool
    decreases raw,
{
    match raw {
        RawDirEntry::File(bytes) => cooked matches DirEntry::File(m) && file_read_of(bytes@, m),
        RawDirEntry::Dir(sub) => cooked matches DirEntry::Dir(csub) && dir_read_of(sub@, csub@),
    }
}

/// Whether the read picture is exactly the reading of the raw picture,
/// entry for entry.
pub open spec fn dir_read_of(raw: Seq<RawDirEntry>, cooked: Seq<DirEntry>) -> bool
    decreases raw,
{
    &&& raw.len() == cooked.len()
    &&& forall|i: int| 0 <= i < raw.len() ==> entry_read_of(#[trigger] raw[i], cooked[i])
}

/// Reads every file of the raw directory picture as a package archive,
/// keeping the directory structure as it is.
pub fn read_dir_tree(raw: &Vec<RawDirEntry>) -> (cooked: Vec<DirEntry>)
    ensures
        dir_read_of(raw@, cooked@),
    decreases raw@,
{
    let mut cooked: Vec<DirEntry> = Vec::new();
    let mut i: usize = 0;
    while i < raw.len()
        invariant
            i <= raw@.len(),
            cooked@.len() == i,
            dir_read_of(raw@.take(i as int), cooked@),
        decreases raw@.len() - i,
    {
        let ghost cur = raw@[i as int];
        let entry = match &raw[i] {
            RawDirEntry::Dir(sub) => {
                proof {
                    assert(decreases_to!(raw@ => cur));
                    assert(decreases_to!(cur => cur->Dir_0));
                    assert(decreases_to!(cur->Dir_0 => cur->Dir_0@));
                }
                DirEntry::Dir(read_dir_tree(sub))
            },
            RawDirEntry::File(bytes) => DirEntry::File(read_archive_meta(bytes.as_slice())),
        };
        cooked.push(entry);
        proof {
            assert(raw@.take(i + 1).drop_last() =~= raw@.take(i as int));
            assert(forall|j: int|
                0 <= j < i ==> raw@.take(i + 1)[j] == #[trigger] raw@.take(i as int)[j]);
            assert(raw@.take(i + 1)[i as int] == cur);
        }
        i += 1;
    }
    proof {
        assert(raw@.take(raw@.len() as int) =~= raw@);
    }
    cooked
}

/// The text one raw file contributes once its bytes are read: its banner
/// when the reading succeeds, the query matches and something survived the
/// threshold; nothing otherwise.
pub open spec fn raw_file_contribution(
    query: Option<Seq<char>>,
    data: Seq<u8>,
    threshold: u64,
) -> Option<Seq<char>> {
    if archive_readable(data) {
        let m = rpm_meta_of(data)->0;
        if query_matches(query, m.0) && kept_plain_descriptions(m.1, threshold).len() > 0 {
            Option::Some(package_banner(m.0, kept_plain_descriptions(m.1, threshold)))
        } else {
            Option::None
        }
    } else {
        Option::None
    }
}

/// The text one raw directory entry contributes, through the named reading
/// of its files.
pub open spec fn raw_entry_contribution(
    query: Option<Seq<char>>,
    entry: RawDirEntry,
    threshold: u64,
) -> Option<Seq<char>>
    decreases entry,
{
    match entry {
        RawDirEntry::File(bytes) => raw_file_contribution(query, bytes@, threshold),
        RawDirEntry::Dir(sub) => {
            let parts = raw_dir_contributions(query, sub@, threshold);
            if parts.len() == 0 {
                Option::None
            } else {
                Option::Some(joined_contributions(parts))
            }
        },
    }
}

/// The texts the raw entries of one directory contribute, in order.
pub open spec fn raw_dir_contributions(
    query: Option<Seq<char>>,
    entries: Seq<RawDirEntry>,
    threshold: u64,
) -> Seq<Seq<char>>
    decreases entries,
{
    if entries.len() == 0 {
        Seq::empty()
    } else {
        let rest = raw_dir_contributions(query, entries.drop_last(), threshold);
        match raw_entry_contribution(query, entries.last(), threshold) {
            Option::Some(s) => rest.push(s),
            Option::None => rest,
        }
    }
}

proof fn lemma_read_entry_contribution(
    query: Option<Seq<char>>,
    raw: RawDirEntry,
    cooked: DirEntry,
    threshold: u64,
)
    requires
        entry_read_of(raw, cooked),
    ensures
        entry_contribution(query, cooked, threshold) == raw_entry_contribution(
            query,
            raw,
            threshold,
        ),
    decreases raw,
{
    match raw {
        RawDirEntry::File(bytes) => {
            match cooked {
                DirEntry::File(Option::Some(meta)) => {
                    let m = rpm_meta_of(bytes@)->0;
                    lemma_kept_descriptions_match(meta.entries@, m.1, threshold);
                },
                _ => {},
            }
        },
        RawDirEntry::Dir(sub) => {
            lemma_read_dir_contributions(query, sub@, cooked->Dir_0@, threshold);
        },
    }
}

/// A read picture contributes exactly what its raw picture does through
/// the named reading.
pub proof fn lemma_read_dir_contributions(
    query: Option<Seq<char>>,
    raw: Seq<RawDirEntry>,
    cooked: Seq<DirEntry>,
    threshold: u64,
)
    requires
        dir_read_of(raw, cooked),
    ensures
        dir_contributions(query, cooked, threshold) == raw_dir_contributions(
            query,
            raw,
            threshold,
        ),
    decreases raw,
{
    if raw.len() > 0 {
        assert(forall|i: int|
            0 <= i < raw.drop_last().len() ==> entry_read_of(
                #[trigger] raw.drop_last()[i],
                cooked.drop_last()[i],
            ));
        lemma_read_dir_contributions(query, raw.drop_last(), cooked.drop_last(), threshold);
        assert(entry_read_of(raw.last(), cooked.last()));
        lemma_read_entry_contribution(query, raw.last(), cooked.last(), threshold);
    }
}

} // verus!
