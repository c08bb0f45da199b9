//! The changelog engine: prefix queries, timestamp filtering, per-package
//! rendering, and the recursive walk over an in-memory picture of the
//! cache directory.

use vstd::prelude::*;
use vstd::string::*;

use crate::error::Error;
use crate::package_manager::PackageChangelogResult;

verus! {

/// An optional package-name filter. When the filter is present, a package
/// matches only if its declared name starts with the filter, character for
/// character.
pub struct ChangelogQuery {
    pub name: Option<String>,
}

impl View for ChangelogQuery {
    type V = Option<Seq<char>>;

    open spec fn view(&self) -> Option<Seq<char>> {
        match self.name {
            Option::None => Option::None,
            Option::Some(q) => Option::Some(q@),
        }
    }
}

/// One changelog record of a package archive: the unix time at which it was
/// added and its text.
pub struct ChangelogEntry {
    pub timestamp: u64,
    pub description: String,
}

/// The declared name and the changelog entries read from one package
/// archive, before any filtering.
pub struct ArchiveMeta {
    pub name: String,
    pub entries: Vec<ChangelogEntry>,
}

/// What it means for a name to pass an optional prefix filter.
pub open spec fn query_matches(query: Option<Seq<char>>, name: Seq<char>) -> bool {
    match query {
        Option::None => true,
        Option::Some(q) => q.is_prefix_of(name),
    }
}

/// Case-sensitive prefix match of `query` against `name`.
pub fn matches_query(name: &str, query: &str) -> (r: bool)
    ensures
        r == query@.is_prefix_of(name@),
{
    let n_len = name.unicode_len();
    let q_len = query.unicode_len();
    if q_len > n_len {
        return false;
    }
    let mut i: usize = 0;
    while i < q_len
        invariant
            i <= q_len,
            q_len <= n_len,
            q_len == query@.len(),
            n_len == name@.len(),
            forall|j: int| 0 <= j < i ==> name@[j] == query@[j],
        decreases q_len - i,
    {
        if name.get_char(i) != query.get_char(i) {
            assert(name@.subrange(0, q_len as int)[i as int] != query@[i as int]);
            return false;
        }
        i += 1;
    }
    assert(query@ =~= name@.subrange(0, q_len as int));
    true
}

/// The descriptions of the entries whose timestamp is strictly greater than
/// the threshold, in their original order. An entry whose timestamp equals
/// the threshold is excluded.
pub open spec fn kept_descriptions(entries: Seq<ChangelogEntry>, threshold: u64) -> Seq<Seq<char>>
    decreases entries.len(),
{
    if entries.len() == 0 {
        Seq::empty()
    } else {
        let rest = kept_descriptions(entries.drop_last(), threshold);
        if entries.last().timestamp > threshold {
            rest.push(entries.last().description@)
        } else {
            rest
        }
    }
}

/// The same filtering over entries given as plain (timestamp, text)
/// pairs, as the archive boundary reports them.
pub open spec fn kept_plain_descriptions(
    entries: Seq<(u64, Seq<char>)>,
    threshold: u64,
) -> Seq<Seq<char>>
    decreases entries.len(),
{
    if entries.len() == 0 {
        Seq::empty()
    } else {
        let rest = kept_plain_descriptions(entries.drop_last(), threshold);
        if entries.last().0 > threshold {
            rest.push(entries.last().1)
        } else {
            rest
        }
    }
}

/// Entries that agree pairwise on timestamp and text keep the same
/// descriptions, whichever of the two forms they are given in.
pub proof fn lemma_kept_descriptions_match(
    entries: Seq<ChangelogEntry>,
    plain: Seq<(u64, Seq<char>)>,
    threshold: u64,
)
    requires
        entries.len() == plain.len(),
        forall|i: int|
            0 <= i < entries.len() ==> (#[trigger] entries[i]).timestamp == plain[i].0
                && entries[i].description@ == plain[i].1,
    ensures
        kept_descriptions(entries, threshold) == kept_plain_descriptions(plain, threshold),
    decreases entries.len(),
{
    if entries.len() > 0 {
        assert(forall|i: int|
            0 <= i < entries.drop_last().len() ==> (#[trigger] entries.drop_last()[i])
                == entries[i]);
        assert(forall|i: int|
            0 <= i < plain.drop_last().len() ==> (#[trigger] plain.drop_last()[i]) == plain[i]);
        lemma_kept_descriptions_match(entries.drop_last(), plain.drop_last(), threshold);
    }
}

/// Keeps the descriptions of the entries newer than the threshold.
pub fn filter_changelogs(entries: &Vec<ChangelogEntry>, threshold: u64) -> (r: Vec<String>)
    ensures
        r.deep_view() == kept_descriptions(entries@, threshold),
{
    let mut kept: Vec<String> = Vec::new();
    let mut i: usize = 0;
    while i < entries.len()
        invariant
            i <= entries@.len(),
            kept.deep_view() == kept_descriptions(entries@.take(i as int), threshold),
        decreases entries@.len() - i,
    {
        proof {
            assert(entries@.take(i + 1).drop_last() =~= entries@.take(i as int));
            assert(entries@.take(i + 1).last() == entries@[i as int]);
        }
        if entries[i].timestamp > threshold {
            let ghost pre = kept.deep_view();
            kept.push(entries[i].description.clone());
            proof {
                assert(kept.deep_view() =~= pre.push(entries@[i as int].description@));
            }
        }
        i += 1;
    }
    proof {
        assert(entries@.take(entries@.len() as int) =~= entries@);
    }
    kept
}

/// Decides whether a package passes the query and filters its entries.
/// Fails exactly when the query holds a filter that the declared name does
/// not start with; on success the result carries the declared name and the
/// descriptions of the entries newer than the threshold.
pub fn package_changelog_result(
    query: &ChangelogQuery,
    name: &str,
    entries: &Vec<ChangelogEntry>,
    threshold: u64,
) -> (r: Result<PackageChangelogResult, Error>)
    ensures
        r is Ok <==> query_matches(query@, name@),
        r matches Ok(res) ==> {
            &&& res.name@ == name@
            &&& res.changelogs.deep_view() == kept_descriptions(entries@, threshold)
        },
        r matches Err(e) ==> {
            &&& e matches Error::PackageNameDoesNotMatch(n, f)
            &&& n@ == name@
            &&& query@ matches Option::Some(q) && f@ == q
        },
{
    if let Option::Some(filter) = &query.name {
        if !matches_query(name, filter.as_str()) {
            return Result::Err(
                Error::PackageNameDoesNotMatch(String::from_str(name), filter.clone()),
            );
        }
    }
    let changelogs = filter_changelogs(entries, threshold);
    Result::Ok(PackageChangelogResult { name: String::from_str(name), changelogs })
}

/// The text inserted before each changelog entry of a package.
pub open spec fn entry_separator() -> Seq<char> {
    "\n"@
}

/// The heading line that introduces one package's changelog entries.
pub open spec fn package_heading(name: Seq<char>) -> Seq<char> {
    "==== "@ + name + " ===="@
}

/// Each part preceded by a newline, appended in order.
pub open spec fn joined_with_newlines(parts: Seq<Seq<char>>) -> Seq<char>
    decreases parts.len(),
{
    if parts.len() == 0 {
        Seq::empty()
    } else {
        joined_with_newlines(parts.drop_last()) + entry_separator() + parts.last()
    }
}

/// The whole text reported for one package: its heading, then each
/// surviving changelog text on a line of its own.
pub open spec fn package_banner(name: Seq<char>, descs: Seq<Seq<char>>) -> Seq<char> {
    package_heading(name) + joined_with_newlines(descs)
}

/// Renders one package's filtered changelogs under its heading. Fails
/// exactly when no entry survived the filtering.
pub fn get_package_changelogs_string(result: PackageChangelogResult) -> (r: Result<String, Error>)
    ensures
        r is Ok <==> result.changelogs@.len() > 0,
        r matches Ok(s) ==> s@ == package_banner(result.name@, result.changelogs.deep_view()),
        r matches Err(e) ==> e matches Error::NoChangelogsForPackage,
{
    if result.changelogs.len() == 0 {
        return Result::Err(Error::NoChangelogsForPackage);
    }
    let mut out = String::from_str("==== ");
    out.append(result.name.as_str());
    out.append(" ====");
    let mut i: usize = 0;
    while i < result.changelogs.len()
        invariant
            i <= result.changelogs@.len(),
            out@ == package_banner(
                result.name@,
                result.changelogs.deep_view().take(i as int),
            ),
        decreases result.changelogs@.len() - i,
    {
        proof {
            assert(result.changelogs.deep_view().take(i + 1).drop_last() =~= result
                .changelogs
                .deep_view()
                .take(i as int));
            assert(result.changelogs.deep_view().take(i + 1).last() == result.changelogs@[
                i as int
            ]@);
        }
        out.append("\n");
        out.append(result.changelogs[i].as_str());
        i += 1;
    }
    proof {
        assert(result.changelogs.deep_view().take(result.changelogs@.len() as int)
            =~= result.changelogs.deep_view());
    }
    Result::Ok(out)
}

/// One entry of an in-memory picture of the cache directory: a subdirectory
/// with its own entries, or a file together with the archive metadata read
/// from it (`None` when the file could not be read as a package archive).
pub enum DirEntry {
    Dir(Vec<DirEntry>),
    File(Option<ArchiveMeta>),
}

/// The text one archive contributes to the aggregate report: its banner
/// when it passes the query and keeps at least one entry, nothing otherwise.
pub open spec fn file_contribution(
    query: Option<Seq<char>>,
    meta: ArchiveMeta,
    threshold: u64,
) -> Option<Seq<char>> {
    if query_matches(query, meta.name@) && kept_descriptions(meta.entries@, threshold).len() > 0 {
        Option::Some(package_banner(meta.name@, kept_descriptions(meta.entries@, threshold)))
    } else {
        Option::None
    }
}

/// The text one directory entry contributes to its parent: a failing or
/// empty entry contributes nothing; a subdirectory contributes its own
/// aggregate text when any of its entries contributed.
pub open spec fn entry_contribution(
    query: Option<Seq<char>>,
    entry: DirEntry,
    threshold: u64,
) -> Option<Seq<char>>
    decreases entry,
{
    match entry {
        DirEntry::File(Option::None) => Option::None,
        DirEntry::File(Option::Some(meta)) => file_contribution(query, meta, threshold),
        DirEntry::Dir(sub) => {
            let parts = dir_contributions(query, sub@, threshold);
            if parts.len() == 0 {
                Option::None
            } else {
                Option::Some(joined_contributions(parts))
            }
        },
    }
}

/// The texts the entries of one directory contribute, in order, with the
/// silently dropped entries left out.
pub open spec fn dir_contributions(
    query: Option<Seq<char>>,
    entries: Seq<DirEntry>,
    threshold: u64,
) -> Seq<Seq<char>>
    decreases entries,
{
    if entries.len() == 0 {
        Seq::empty()
    } else {
        let rest = dir_contributions(query, entries.drop_last(), threshold);
        match entry_contribution(query, entries.last(), threshold) {
            Option::Some(s) => rest.push(s),
            Option::None => rest,
        }
    }
}

/// The surviving texts separated by a blank line.
pub open spec fn joined_contributions(parts: Seq<Seq<char>>) -> Seq<char>
    decreases parts.len(),
{
    if parts.len() == 0 {
        Seq::empty()
    } else if parts.len() == 1 {
        parts[0]
    } else {
        joined_contributions(parts.drop_last()) + "\n\n"@ + parts.last()
    }
}

/// Whether one directory entry holds, anywhere below it, a readable archive
/// that matches the query and keeps at least one entry past the threshold.
pub open spec fn entry_has_new_match(
    query: Option<Seq<char>>,
    entry: DirEntry,
    threshold: u64,
) -> bool
    decreases entry,
{
    match entry {
        DirEntry::File(Option::None) => false,
        DirEntry::File(Option::Some(meta)) => query_matches(query, meta.name@)
            && kept_descriptions(meta.entries@, threshold).len() > 0,
        DirEntry::Dir(sub) => dir_has_new_match(query, sub@, threshold),
    }
}

/// Whether any entry of the directory holds such an archive.
pub open spec fn dir_has_new_match(
    query: Option<Seq<char>>,
    entries: Seq<DirEntry>,
    threshold: u64,
) -> bool
    decreases entries,
{
    if entries.len() == 0 {
        false
    } else {
        dir_has_new_match(query, entries.drop_last(), threshold) || entry_has_new_match(
            query,
            entries.last(),
            threshold,
        )
    }
}

proof fn lemma_entry_some_iff_match(query: Option<Seq<char>>, entry: DirEntry, threshold: u64)
    ensures
        entry_contribution(query, entry, threshold) is Some <==> entry_has_new_match(
            query,
            entry,
            threshold,
        ),
    decreases entry,
{
    match entry {
        DirEntry::Dir(sub) => {
            lemma_contributions_iff_match(query, sub@, threshold);
        },
        _ => {},
    }
}

proof fn lemma_contributions_iff_match(
    query: Option<Seq<char>>,
    entries: Seq<DirEntry>,
    threshold: u64,
)
    ensures
        dir_contributions(query, entries, threshold).len() > 0 <==> dir_has_new_match(
            query,
            entries,
            threshold,
        ),
    decreases entries,
{
    if entries.len() > 0 {
        lemma_contributions_iff_match(query, entries.drop_last(), threshold);
        lemma_entry_some_iff_match(query, entries.last(), threshold);
    }
}

/// A directory with at least one valid, query-matching archive that keeps
/// an entry past the threshold makes the walk succeed, and the aggregate
/// report carries that package's banner as a contiguous piece.
pub proof fn lemma_walk_reports_match(
    query: Option<Seq<char>>,
    entries: Seq<DirEntry>,
    threshold: u64,
    i: int,
)
    requires
        0 <= i < entries.len(),
        entries[i] is File,
        entries[i]->File_0 is Some,
        query_matches(query, entries[i]->File_0->0.name@),
        kept_descriptions(entries[i]->File_0->0.entries@, threshold).len() > 0,
    ensures
        dir_contributions(query, entries, threshold).len() > 0,
        ({
            let meta = entries[i]->File_0->0;
            let banner = package_banner(
                meta.name@,
                kept_descriptions(meta.entries@, threshold),
            );
            let joined = joined_contributions(dir_contributions(query, entries, threshold));
            exists|lo: int|
                0 <= lo && lo + banner.len() <= joined.len() && #[trigger] joined.subrange(
                    lo,
                    lo + banner.len(),
                ) == banner
        }),
{
    let meta = entries[i]->File_0->0;
    let banner = package_banner(meta.name@, kept_descriptions(meta.entries@, threshold));
    lemma_contribution_present(query, entries, threshold, i);
    lemma_contributions_iff_match(query, entries, threshold);
    lemma_joined_contains_part(dir_contributions(query, entries, threshold), banner);
}

proof fn lemma_contribution_present(
    query: Option<Seq<char>>,
    entries: Seq<DirEntry>,
    threshold: u64,
    i: int,
)
    requires
        0 <= i < entries.len(),
        entry_contribution(query, entries[i], threshold) is Some,
    ensures
        dir_contributions(query, entries, threshold).contains(
            entry_contribution(query, entries[i], threshold)->0,
        ),
    decreases entries,
{
    let parts = dir_contributions(query, entries, threshold);
    let rest = dir_contributions(query, entries.drop_last(), threshold);
    if i == entries.len() - 1 {
        match entry_contribution(query, entries.last(), threshold) {
            Option::Some(s) => {
                assert(parts == rest.push(s));
                assert(parts[parts.len() - 1] == s);
            },
            Option::None => {},
        }
    } else {
        assert(entries.drop_last()[i] == entries[i]);
        lemma_contribution_present(query, entries.drop_last(), threshold, i);
        let s = entry_contribution(query, entries[i], threshold)->0;
        let j = choose|j: int| 0 <= j < rest.len() && rest[j] == s;
        match entry_contribution(query, entries.last(), threshold) {
            Option::Some(t) => {
                assert(parts == rest.push(t));
                assert(parts[j] == s);
            },
            Option::None => {
                assert(parts[j] == s);
            },
        }
    }
}

proof fn lemma_joined_contains_part(parts: Seq<Seq<char>>, p: Seq<char>)
    requires
        parts.contains(p),
    ensures
        ({
            let joined = joined_contributions(parts);
            exists|lo: int|
                0 <= lo && lo + p.len() <= joined.len() && #[trigger] joined.subrange(
                    lo,
                    lo + p.len(),
                ) == p
        }),
    decreases parts.len(),
{
    let joined = joined_contributions(parts);
    if parts.len() == 1 {
        assert(parts[0] == p);
        assert(joined == p);
        let lo: int = 0;
        assert(0 <= lo && lo + p.len() <= joined.len() && joined.subrange(lo, lo + p.len()) == p)
            by {
            assert(joined.subrange(lo, lo + p.len()) =~= p);
        }
    } else {
        let head = joined_contributions(parts.drop_last());
        if parts.last() == p {
            let lo = joined.len() - p.len();
            assert(joined == head + "\n\n"@ + parts.last());
            assert(0 <= lo && lo + p.len() <= joined.len() && joined.subrange(lo, lo + p.len())
                == p) by {
                assert(joined.subrange(lo, lo + p.len()) =~= p);
            }
        } else {
            assert(parts.drop_last().contains(p)) by {
                let j = choose|j: int| 0 <= j < parts.len() && parts[j] == p;
                assert(parts.drop_last()[j] == p);
            }
            lemma_joined_contains_part(parts.drop_last(), p);
            let lo = choose|lo: int|
                0 <= lo && lo + p.len() <= head.len() && #[trigger] head.subrange(
                    lo,
                    lo + p.len(),
                ) == p;
            assert(joined == head + "\n\n"@ + parts.last());
            assert(0 <= lo && lo + p.len() <= joined.len() && joined.subrange(lo, lo + p.len())
                == p) by {
                assert(joined.subrange(lo, lo + p.len()) =~= head.subrange(lo, lo + p.len()));
            }
        }
    }
}

/// A directory holding no query-matching archive with anything newer than
/// the threshold — anywhere below it — contributes nothing, so the walk
/// fails with `NoChangelogsInDirectory`.
pub proof fn lemma_walk_nothing_new(
    query: Option<Seq<char>>,
    entries: Seq<DirEntry>,
    threshold: u64,
)
    requires
        !dir_has_new_match(query, entries, threshold),
    ensures
        dir_contributions(query, entries, threshold).len() == 0,
{
    lemma_contributions_iff_match(query, entries, threshold);
}

/// Filtering is strict at the threshold: a single entry is kept exactly
/// when its timestamp is strictly greater, so one dated at the threshold
/// itself is excluded.
pub proof fn lemma_threshold_is_strict(e: ChangelogEntry, threshold: u64)
    ensures
        kept_descriptions(seq![e], threshold) == if e.timestamp > threshold {
            seq![e.description@]
        } else {
            Seq::<Seq<char>>::empty()
        },
{
    let s = seq![e];
    assert(s.drop_last() =~= Seq::<ChangelogEntry>::empty());
    assert(kept_descriptions(Seq::<ChangelogEntry>::empty(), threshold)
        == Seq::<Seq<char>>::empty());
    assert(s.last() == e);
    if e.timestamp > threshold {
        assert(kept_descriptions(s, threshold) =~= seq![e.description@]);
    }
}

/// A zero threshold keeps every entry, provided each entry carries a
/// nonzero timestamp.
pub proof fn lemma_zero_threshold_keeps_all(entries: Seq<ChangelogEntry>)
    requires
        forall|i: int| 0 <= i < entries.len() ==> entries[i].timestamp >= 1,
    ensures
        kept_descriptions(entries, 0) =~= entries.map_values(|e: ChangelogEntry| e.description@),
    decreases entries.len(),
{
    if entries.len() > 0 {
        lemma_zero_threshold_keeps_all(entries.drop_last());
        assert(entries.drop_last().map_values(|e: ChangelogEntry| e.description@) =~= entries
            .map_values(|e: ChangelogEntry| e.description@)
            .drop_last());
    }
}

/// Within the given directory picture, for all package names that match the
/// query, collects the changelog entries newer than the threshold and joins
/// them into a single report. Any entry that fails — an unreadable archive,
/// a name that does not match, a package with nothing new — is silently
/// dropped; the walk fails only when nothing at all contributed.
pub fn get_dir_changelogs(
    query: &ChangelogQuery,
    entries: &Vec<DirEntry>,
    threshold: u64,
) -> (r: Result<String, Error>)
    ensures
        r is Ok <==> dir_contributions(query@, entries@, threshold).len() > 0,
        r matches Ok(s) ==> s@ == joined_contributions(
            dir_contributions(query@, entries@, threshold),
        ),
        r matches Err(e) ==> e matches Error::NoChangelogsInDirectory,
    decreases entries@,
{
    let mut parts: Vec<String> = Vec::new();
    let mut i: usize = 0;
    while i < entries.len()
        invariant
            i <= entries@.len(),
            parts.deep_view() == dir_contributions(query@, entries@.take(i as int), threshold),
        decreases entries@.len() - i,
    {
        proof {
            assert(entries@.take(i + 1).drop_last() =~= entries@.take(i as int));
            assert(entries@.take(i + 1).last() == entries@[i as int]);
        }
        let ghost pre = parts.deep_view();
        let ghost cur = entries@[i as int];
        match &entries[i] {
            DirEntry::Dir(sub) => {
                proof {
                    assert(decreases_to!(entries@ => cur));
                    assert(decreases_to!(cur => cur->Dir_0));
                    assert(decreases_to!(cur->Dir_0 => cur->Dir_0@));
                }
                match get_dir_changelogs(query, sub, threshold) {
                    Result::Ok(s) => {
                        parts.push(s);
                        proof {
                            assert(parts.deep_view() =~= pre.push(
                                entry_contribution(query@, cur, threshold)->0,
                            ));
                        }
                    },
                    Result::Err(_) => {},
                }
            },
            DirEntry::File(meta_opt) => {
                match meta_opt {
                    Option::Some(meta) => {
                        match package_changelog_result(
                            query,
                            meta.name.as_str(),
                            &meta.entries,
                            threshold,
                        ) {
                            Result::Ok(res) => {
                                let ghost res_g = res;
                                match get_package_changelogs_string(res) {
                                    Result::Ok(s) => {
                                        proof {
                                            assert(res_g.changelogs.deep_view().len()
                                                == res_g.changelogs@.len());
                                        }
                                        parts.push(s);
                                        proof {
                                            assert(parts.deep_view() =~= pre.push(
                                                entry_contribution(query@, cur, threshold)->0,
                                            ));
                                        }
                                    },
                                    Result::Err(_) => {},
                                }
                            },
                            Result::Err(_) => {},
                        }
                    },
                    Option::None => {},
                }
            },
        }
        i += 1;
    }
    proof {
        assert(entries@.take(entries@.len() as int) =~= entries@);
    }
    if parts.len() == 0 {
        return Result::Err(Error::NoChangelogsInDirectory);
    }
    let mut out = parts[0].clone();
    let mut i: usize = 1;
    while i < parts.len()
        invariant
            1 <= i <= parts@.len(),
            parts@.len() >= 1,
            parts.deep_view() == dir_contributions(query@, entries@, threshold),
            out@ == joined_contributions(parts.deep_view().take(i as int)),
        decreases parts@.len() - i,
    {
        proof {
            assert(parts.deep_view().take(i + 1).drop_last() =~= parts.deep_view().take(i as int));
            assert(parts.deep_view().take(i + 1).last() == parts@[i as int]@);
        }
        out.append("\n\n");
        out.append(parts[i].as_str());
        i += 1;
    }
    proof {
        assert(parts.deep_view().take(parts@.len() as int) =~= parts.deep_view());
    }
    Result::Ok(out)
}

/// One entry of the cache directory as the filesystem hands it over: a
/// subdirectory with its own entries, or a file's raw bytes.
pub enum RawDirEntry {
    Dir(Vec<RawDirEntry>),
    File(Vec<u8>),
}

} // verus!
