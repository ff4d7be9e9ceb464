//! The skill registry: its index layout, lookups over index entries, install and
//! publish decisions, and package checksums.
use crate::digest::{checksum_matches, checksum_of, checksum_spec};
use crate::error::SkillGuardError;
use crate::manifest::SkillManifest;
use crate::text::{
    contains_seq, contains_str, lemma_seq_lt_asymmetric, lemma_seq_lt_total,
    lemma_seq_lt_transitive, seq_lt, str_lt, copy_strings, join_path, lemma_boundary_in_prefix,
    lemma_str_bytes_valid, lowercase, path_join, push_str, str_eq, str_prefix, str_suffix,
    to_lowercase,
};
use vstd::prelude::*;
use vstd::string::StringSliceAdditionalSpecFns;
use vstd::utf8::{decode_utf8, is_char_boundary};

verus! {

/// A single entry in the registry index (one JSON line per published version).
#[derive(Debug, Clone)]
pub struct IndexEntry {
    pub name: String,
    pub version: String,
    pub checksum: String,
    pub yanked: bool,
    pub description: Option<String>,
    pub keywords: Vec<String>,
}

/// Git-based registry index, modeled after crates.io.
#[derive(Debug, Clone)]
pub struct RegistryIndex {
    index_path: String,
}

/// The index directory (relative to the index root) that holds a skill's file,
/// from the bytes of its name: names of 1, 2 and 3 bytes go under "1", "2" and
/// "3/<first byte>"; longer names under "<bytes 0..2>/<bytes 2..4>".
pub open spec fn name_prefix_spec(b: Seq<u8>) -> Seq<char> {
    if b.len() == 1 {
        "1"@
    } else if b.len() == 2 {
        "2"@
    } else if b.len() == 3 {
        path_join("3"@, decode_utf8(b.take(1)))
    } else {
        path_join(decode_utf8(b.take(2)), decode_utf8(b.subrange(2, 4)))
    }
}

/// The names that the index layout can place: not empty, and cut only at
/// character boundaries.
pub open spec fn indexable_name(b: Seq<u8>) -> bool {
    &&& b.len() >= 1
    &&& b.len() == 3 ==> is_char_boundary(b, 1)
    &&& b.len() >= 4 ==> is_char_boundary(b, 2) && is_char_boundary(b, 4)
}

/// The path of a skill's index file: the index root, its prefix directory, its name.
pub open spec fn skill_index_path_spec(root: Seq<char>, name: &str) -> Seq<char> {
    path_join(path_join(root, name_prefix_spec(name.spec_bytes())), name@)
}

/// The entry matches a (lowercased) query: by name or by a keyword.
pub open spec fn entry_matches(e: IndexEntry, q: Seq<char>) -> bool {
    ||| contains_seq(e.name@, q)
    ||| exists|k: int|
        0 <= k < e.keywords@.len() && #[trigger] contains_seq(lowercase(e.keywords@[k]@), q)
}

/// The entries that match the query, in index order.
pub open spec fn matching_entries(es: Seq<IndexEntry>, q: Seq<char>) -> Seq<IndexEntry>
    decreases es.len(),
{
    if es.len() == 0 {
        Seq::empty()
    } else if entry_matches(es.last(), q) {
        matching_entries(es.drop_last(), q).push(es.last())
    } else {
        matching_entries(es.drop_last(), q)
    }
}

/// The search result: the first `limit` matches.
pub open spec fn search_spec(es: Seq<IndexEntry>, query: Seq<char>, limit: nat) -> Seq<IndexEntry> {
    let m = matching_entries(es, lowercase(query));
    if m.len() <= limit {
        m
    } else {
        m.take(limit as int)
    }
}

proof fn lemma_matching_entries(es: Seq<IndexEntry>, q: Seq<char>)
    ensures
        matching_entries(es, q).len() <= es.len(),
        forall|k: int|
            0 <= k < matching_entries(es, q).len() ==> entry_matches(
                #[trigger] matching_entries(es, q)[k],
                q,
            ) && es.contains(matching_entries(es, q)[k]),
    decreases es.len(),
{
    if es.len() > 0 {
        let t = es.drop_last();
        lemma_matching_entries(t, q);
        let m = matching_entries(es, q);
        let mt = matching_entries(t, q);
        assert forall|k: int| 0 <= k < m.len() implies entry_matches(#[trigger] m[k], q)
            && es.contains(m[k]) by {
            if k < mt.len() {
                assert(m[k] == mt[k]);
                let j = choose|j: int| 0 <= j < t.len() && t[j] == mt[k];
                assert(es[j] == t[j]);
            } else {
                assert(m[k] == es.last());
                assert(es[es.len() - 1] == es.last());
            }
        }
    }
}

/// A search returns at most `limit` entries, each of them an entry of the index
/// that matches the query.
pub proof fn search_sound(es: Seq<IndexEntry>, query: Seq<char>, limit: nat)
    ensures
        search_spec(es, query, limit).len() <= limit,
        forall|k: int|
            0 <= k < search_spec(es, query, limit).len() ==> entry_matches(
                #[trigger] search_spec(es, query, limit)[k],
                lowercase(query),
            ) && es.contains(search_spec(es, query, limit)[k]),
{
    lemma_matching_entries(es, lowercase(query));
    let m = matching_entries(es, lowercase(query));
    assert forall|k: int| 0 <= k < search_spec(es, query, limit).len() implies entry_matches(
        #[trigger] search_spec(es, query, limit)[k],
        lowercase(query),
    ) && es.contains(search_spec(es, query, limit)[k]) by {
        assert(search_spec(es, query, limit)[k] == m[k]);
    }
}

/// Matches are kept in index order: the matches among two runs of entries one
/// after the other are those of the first run followed by those of the second.
pub proof fn matches_in_index_order(a: Seq<IndexEntry>, b: Seq<IndexEntry>, q: Seq<char>)
    ensures
        matching_entries(a + b, q) == matching_entries(a, q) + matching_entries(b, q),
    decreases b.len(),
{
    if b.len() == 0 {
        assert(a + b =~= a);
        assert(matching_entries(a, q) + matching_entries(b, q) =~= matching_entries(a, q));
    } else {
        matches_in_index_order(a, b.drop_last(), q);
        assert((a + b).drop_last() =~= a + b.drop_last());
        assert((a + b).last() == b.last());
        assert(matching_entries(a + b, q) =~= matching_entries(a, q) + matching_entries(b, q));
    }
}

/// A single entry matches a lowercased query exactly when its name contains the
/// query or one of its keywords does once lowercased; its description plays no
/// part.
pub proof fn entry_match_by_name_or_keyword(e: IndexEntry, q: Seq<char>)
    ensures
        matching_entries(seq![e], q) == (if contains_seq(e.name@, q) || exists|k: int|
            0 <= k < e.keywords@.len() && #[trigger] contains_seq(lowercase(e.keywords@[k]@), q) {
            seq![e]
        } else {
            Seq::empty()
        }),
{
    let one = seq![e];
    assert(one.drop_last() =~= Seq::<IndexEntry>::empty());
    assert(one.last() == e);
    assert(matching_entries(one.drop_last(), q) =~= Seq::<IndexEntry>::empty());
    assert(Seq::<IndexEntry>::empty().push(e) =~= seq![e]);
}

proof fn lemma_matching_has(es: Seq<IndexEntry>, q: Seq<char>, i: int)
    requires
        0 <= i < es.len(),
        contains_seq(es[i].name@, q) || exists|k: int|
            0 <= k < es[i].keywords@.len() && #[trigger] contains_seq(lowercase(es[i].keywords@[k]@), q),
    ensures
        matching_entries(es, q).contains(es[i]),
    decreases es.len(),
{
    let t = es.drop_last();
    let m = matching_entries(es, q);
    if i < es.len() - 1 {
        lemma_matching_has(t, q, i);
        assert(t[i] == es[i]);
        let j = choose|j: int| 0 <= j < matching_entries(t, q).len() && matching_entries(t, q)[j] == es[i];
        assert(m[j] == es[i]);
    } else {
        assert(es.last() == es[i]);
        assert(entry_matches(es.last(), q));
        assert(m[m.len() - 1] == es[i]);
    }
}

/// With a limit of at least the number of entries, a search returns every entry
/// whose name contains the lowercased query, or one of whose keywords contains
/// it once lowercased; together with `search_sound`, exactly those.
pub proof fn search_complete(es: Seq<IndexEntry>, query: Seq<char>, limit: nat, i: int)
    requires
        0 <= i < es.len(),
        limit >= es.len(),
        contains_seq(es[i].name@, lowercase(query)) || exists|k: int|
            0 <= k < es[i].keywords@.len() && #[trigger] contains_seq(
                lowercase(es[i].keywords@[k]@),
                lowercase(query),
            ),
    ensures
        search_spec(es, query, limit).contains(es[i]),
{
    lemma_matching_has(es, lowercase(query), i);
    lemma_matching_entries(es, lowercase(query));
}

/// The limit only cuts the list of matches: a search returns the first `limit`
/// entries of the search with no effective limit, all of them where there are
/// fewer.
pub proof fn search_limit_takes_prefix(es: Seq<IndexEntry>, query: Seq<char>, limit: nat)
    ensures
        ({
            let all = search_spec(es, query, es.len());
            let r = search_spec(es, query, limit);
            &&& r.len() == (if all.len() <= limit { all.len() } else { limit as nat })
            &&& r == all.take(r.len() as int)
        }),
{
    lemma_matching_entries(es, lowercase(query));
    let all = search_spec(es, query, es.len());
    let r = search_spec(es, query, limit);
    assert(all == matching_entries(es, lowercase(query)));
    assert(r =~= all.take(r.len() as int));
}

/// The entry at `i` is the first with the given version.
pub open spec fn first_with_version(es: Seq<IndexEntry>, version: Seq<char>, i: int) -> bool {
    &&& 0 <= i < es.len()
    &&& es[i].version@ == version
    &&& forall|j: int| 0 <= j < i ==> (#[trigger] es[j]).version@ != version
}

/// The entry at `i` is the last one not yanked.
pub open spec fn last_not_yanked(es: Seq<IndexEntry>, i: int) -> bool {
    &&& 0 <= i < es.len()
    &&& !es[i].yanked
    &&& forall|j: int| i < j < es.len() ==> (#[trigger] es[j]).yanked
}

/// A version lookup picks one entry: the earliest with that version. It has the
/// version, no earlier entry has it, and no other index qualifies.
pub proof fn lookup_picks_earliest(es: Seq<IndexEntry>, version: Seq<char>, i: int, j: int)
    ensures
        first_with_version(es, version, i) ==> 0 <= i < es.len() && es[i].version@ == version
            && forall|k: int| 0 <= k < i ==> (#[trigger] es[k]).version@ != version,
        first_with_version(es, version, i) && first_with_version(es, version, j) ==> i == j,
        (0 <= j < es.len() && es[j].version@ == version) ==> exists|k: int|
            k <= j && first_with_version(es, version, k),
    decreases j,
{
    if first_with_version(es, version, i) && first_with_version(es, version, j) {
        if i < j {
            assert(es[i].version@ != version);
        } else if j < i {
            assert(es[j].version@ != version);
        }
    }
    if 0 <= j < es.len() && es[j].version@ == version {
        if !first_with_version(es, version, j) {
            let k = choose|k: int| 0 <= k < j && (#[trigger] es[k]).version@ == version;
            lookup_picks_earliest(es, version, i, k);
        }
    }
}

/// The latest entry is the last one that is not yanked: it is not yanked, every
/// later entry is, and no other index qualifies; one exists whenever some entry
/// is not yanked.
pub proof fn latest_is_last_unyanked(es: Seq<IndexEntry>, i: int, j: int)
    ensures
        last_not_yanked(es, i) ==> 0 <= i < es.len() && !es[i].yanked && forall|k: int|
            i < k < es.len() ==> (#[trigger] es[k]).yanked,
        last_not_yanked(es, i) && last_not_yanked(es, j) ==> i == j,
        (0 <= j < es.len() && !es[j].yanked) ==> exists|k: int| k >= j && last_not_yanked(es, k),
    decreases es.len() - j,
{
    if last_not_yanked(es, i) && last_not_yanked(es, j) {
        if i < j {
            assert(es[j].yanked);
        } else if j < i {
            assert(es[i].yanked);
        }
    }
    if 0 <= j < es.len() && !es[j].yanked {
        if !last_not_yanked(es, j) {
            let k = choose|k: int| j < k < es.len() && !(#[trigger] es[k]).yanked;
            latest_is_last_unyanked(es, i, k);
        }
    }
}

fn entry_matches_exec(e: &IndexEntry, q: &str) -> (r: bool)
    ensures
        r == entry_matches(*e, q@),
{
    if contains_str(e.name.as_str(), q) {
        return true;
    }
    let mut k: usize = 0;
    while k < e.keywords.len()
        invariant
            k <= e.keywords@.len(),
            forall|j: int| 0 <= j < k ==> !contains_seq(lowercase(#[trigger] e.keywords@[j]@), q@),
        decreases e.keywords.len() - k,
    {
        let low = to_lowercase(e.keywords[k].as_str());
        if contains_str(low.as_str(), q) {
            assert(contains_seq(lowercase(e.keywords@[k as int]@), q@));
            return true;
        }
        k += 1;
    }
    false
}

impl RegistryIndex {
    /// The index rooted at the local directory `path`; nothing is fetched or cloned.
    pub fn open(path: String) -> (r: Self)
        ensures
            r.root() == path@,
    {
        RegistryIndex { index_path: path }
    }

    /// The index root directory.
    pub closed spec fn root(&self) -> Seq<char> {
        self.index_path@
    }

    /// The index root directory.
    pub fn index_path(&self) -> (r: String)
        ensures
            r@ == self.root(),
    {
        self.index_path.clone()
    }

    /// Get the path prefix for a skill name (2-char prefix dirs like crates.io).
    pub fn name_prefix(name: &str) -> (r: String)
        requires
            indexable_name(name.spec_bytes()),
        ensures
            r@ == name_prefix_spec(name.spec_bytes()),
    {
        proof {
            lemma_str_bytes_valid(name);
        }
        let n = name.as_bytes().len();
        if n == 1 {
            String::from_str("1")
        } else if n == 2 {
            String::from_str("2")
        } else if n == 3 {
            let first = str_prefix(name, 1);
            join_path("3", first)
        } else {
            let head = str_prefix(name, 2);
            let four = str_prefix(name, 4);
            proof {
                lemma_boundary_in_prefix(name.spec_bytes(), 4, 2);
            }
            let second = str_suffix(four, 2);
            assert(four.spec_bytes().skip(2) =~= name.spec_bytes().subrange(2, 4));
            join_path(head, second)
        }
    }

    /// Get path to the index file for a skill.
    pub fn skill_index_path(&self, name: &str) -> (r: String)
        requires
            indexable_name(name.spec_bytes()),
        ensures
            r@ == skill_index_path_spec(self.root(), name),
    {
        let prefix = Self::name_prefix(name);
        let dir = join_path(self.index_path.as_str(), prefix.as_str());
        join_path(dir.as_str(), name)
    }

    /// The first entry with the given version, among a skill's entries.
    pub fn lookup_version(entries: Vec<IndexEntry>, version: &str) -> (r: Option<IndexEntry>)
        ensures
            match r {
                Some(e) => exists|i: int|
                    first_with_version(entries@, version@, i) && e == entries@[i],
                None => forall|j: int|
                    0 <= j < entries@.len() ==> (#[trigger] entries@[j]).version@ != version@,
            },
    {
        let mut v = entries;
        let ghost orig = v@;
        let mut i: usize = 0;
        while i < v.len()
            invariant
                v@ == orig,
                orig == entries@,
                i <= orig.len(),
                forall|j: int| 0 <= j < i ==> (#[trigger] orig[j]).version@ != version@,
            decreases v.len() - i,
        {
            if str_eq(v[i].version.as_str(), version) {
                assert(first_with_version(orig, version@, i as int));
                let e = v.remove(i);
                assert(e == orig[i as int]);
                assert(exists|k: int| first_with_version(entries@, version@, k) && e == entries@[k]);
                return Some(e);
            }
            i += 1;
        }
        None
    }

    /// The latest non-yanked entry: the last one in index order that is not yanked.
    pub fn latest(entries: Vec<IndexEntry>) -> (r: Option<IndexEntry>)
        ensures
            match r {
                Some(e) => exists|i: int| last_not_yanked(entries@, i) && e == entries@[i],
                None => forall|j: int| 0 <= j < entries@.len() ==> (#[trigger] entries@[j]).yanked,
            },
    {
        let mut v = entries;
        let ghost orig = v@;
        let mut i: usize = v.len();
        while i > 0
            invariant
                v@ == orig,
                orig == entries@,
                i <= orig.len(),
                forall|j: int| i <= j < orig.len() ==> (#[trigger] orig[j]).yanked,
            decreases i,
        {
            if !v[i - 1].yanked {
                assert(last_not_yanked(orig, i - 1));
                let e = v.remove(i - 1);
                assert(e == orig[i - 1]);
                assert(exists|k: int| last_not_yanked(entries@, k) && e == entries@[k]);
                return Some(e);
            }
            i -= 1;
        }
        None
    }

    /// Search entries by query (name or keyword match): the first `limit` entries,
    /// in index order, whose name contains the lowercased query or one of whose
    /// keywords contains it once lowercased.
    pub fn search(entries: Vec<IndexEntry>, query: &str, limit: usize) -> (r: Vec<IndexEntry>)
        ensures
            r@ == search_spec(entries@, query@, limit as nat),
    {
        let q = to_lowercase(query);
        let mut results: Vec<IndexEntry> = Vec::new();
        let mut rest = entries;
        let total: usize = rest.len();
        let ghost orig = rest@;
        let ghost ql = lowercase(query@);
        let mut i: usize = 0;
        assert(orig.skip(0) =~= orig);
        while rest.len() > 0
            invariant
                i <= orig.len(),
                orig.len() == total,
                rest@ == orig.skip(i as int),
                q@ == ql,
                results@ == (if matching_entries(orig.take(i as int), ql).len() <= limit {
                    matching_entries(orig.take(i as int), ql)
                } else {
                    matching_entries(orig.take(i as int), ql).take(limit as int)
                }),
            decreases rest.len(),
        {
            assert(orig.take(i + 1).drop_last() =~= orig.take(i as int));
            assert(orig.take(i + 1).last() == orig[i as int]);
            let ghost m = matching_entries(orig.take(i as int), ql);
            assert(i < orig.len());
            let e = rest.remove(0);
            assert(e == orig[i as int]);
            assert(rest@ =~= orig.skip(i + 1));
            let matched = entry_matches_exec(&e, q.as_str());
            if matched && results.len() < limit {
                results.push(e);
            }
            proof {
                let m2 = matching_entries(orig.take(i + 1), ql);
                if matched {
                    assert(m2 == m.push(orig[i as int]));
                    assert(m2.take(m.len() as int) =~= m);
                    if m.len() >= limit {
                        assert(m2.take(limit as int) =~= m.take(limit as int));
                    }
                }
            }
            i += 1;
        }
        assert(orig.take(orig.len() as int) =~= orig);
        results
    }
}

// ---------------------------------------------------------------------------
// Packages
// ---------------------------------------------------------------------------

/// The file name of a package: "{name}-{version}.tar.gz".
pub open spec fn package_file_name_spec(name: Seq<char>, version: Seq<char>) -> Seq<char> {
    name + "-"@ + version + ".tar.gz"@
}

/// The file name of a package.
pub fn package_file_name(name: &str, version: &str) -> (r: String)
    ensures
        r@ == package_file_name_spec(name@, version@),
{
    let mut s = String::new();
    push_str(&mut s, name);
    push_str(&mut s, "-");
    push_str(&mut s, version);
    push_str(&mut s, ".tar.gz");
    s
}

/// Reads and checks skill packages.
pub struct PackageReader;

impl PackageReader {
    /// Verify the checksum of a package's bytes against the expected one.
    pub fn verify_checksum(content: &[u8], expected: &str) -> (r: bool)
        ensures
            r == (checksum_spec(content@) == expected@),
    {
        checksum_matches(content, expected)
    }
}

/// Builds skill packages.
pub struct PackageBuilder;

impl PackageBuilder {
    /// The checksum to record for a built package, from its bytes.
    pub fn checksum(content: &[u8]) -> (r: String)
        ensures
            r@ == checksum_spec(content@),
            r@.len() == 71,
    {
        checksum_of(content)
    }
}

// ---------------------------------------------------------------------------
// Installing
// ---------------------------------------------------------------------------

/// The names are in ascending order: no name comes before an earlier one.
pub open spec fn names_sorted(s: Seq<String>) -> bool {
    forall|i: int, j: int| 0 <= i < j < s.len() ==> !seq_lt(#[trigger] s[j]@, #[trigger] s[i]@)
}

/// The names in ascending order, each as often as given (installed skills are
/// listed this way).
pub fn sort_names(names: Vec<String>) -> (r: Vec<String>)
    ensures
        names_sorted(r@),
        r@.to_multiset() == names@.to_multiset(),
{
    broadcast use vstd::seq_lib::group_to_multiset_ensures;
    let mut out: Vec<String> = Vec::new();
    let mut rest = names;
    let total: usize = rest.len();
    let ghost orig = rest@;
    let mut done: usize = 0;
    proof {
        assert(orig.skip(0) =~= orig);
        assert(orig.take(0) =~= Seq::<String>::empty());
    }
    while rest.len() > 0
        invariant
            done <= orig.len(),
            orig.len() == total,
            rest@ == orig.skip(done as int),
            names_sorted(out@),
            out@.to_multiset() == orig.take(done as int).to_multiset(),
        decreases rest.len(),
    {
        assert(done < orig.len());
        let x = rest.remove(0);
        assert(x == orig[done as int]);
        assert(rest@ =~= orig.skip(done + 1));
        let mut i: usize = 0;
        while i < out.len() && !str_lt(x.as_str(), out[i].as_str())
            invariant
                i <= out.len(),
                forall|k: int| 0 <= k < i ==> !seq_lt(x@, #[trigger] out@[k]@),
            decreases out.len() - i,
        {
            i += 1;
        }
        let ghost before = out@;
        proof {
            assert forall|k: int| i <= k < before.len() implies !seq_lt(#[trigger] before[k]@, x@) by {
                lemma_seq_lt_total(before[i as int]@, before[k]@);
                if k > i {
                    assert(!seq_lt(before[k]@, before[i as int]@));
                }
                if before[i as int]@ == before[k]@ {
                } else {
                    lemma_seq_lt_transitive(x@, before[i as int]@, before[k]@);
                }
                lemma_seq_lt_asymmetric(x@, before[k]@);
            }
            assert forall|k: int| 0 <= k < i implies !seq_lt(x@, #[trigger] before[k]@) by {}
        }
        out.insert(i, x);
        proof {
            assert(out@ == before.insert(i as int, x));
            assert forall|a: int, b: int| 0 <= a < b < out@.len() implies !seq_lt(
                #[trigger] out@[b]@,
                #[trigger] out@[a]@,
            ) by {
                if a < i && b < i {
                    assert(out@[a] == before[a] && out@[b] == before[b]);
                } else if a < i && b == i {
                    assert(out@[a] == before[a]);
                    lemma_seq_lt_total(x@, before[a]@);
                    lemma_seq_lt_asymmetric(before[a]@, x@);
                } else if a < i {
                    assert(out@[a] == before[a] && out@[b] == before[b - 1]);
                } else if a == i {
                    assert(out@[b] == before[b - 1]);
                } else {
                    assert(out@[a] == before[a - 1] && out@[b] == before[b - 1]);
                }
            }
            assert(orig.take(done + 1) =~= orig.take(done as int).push(x));
            vstd::seq_lib::to_multiset_insert(before, i as int, x);
            vstd::seq_lib::to_multiset_build(orig.take(done as int), x);
        }
        done += 1;
    }
    assert(orig.take(orig.len() as int) =~= orig);
    out
}

/// Registry client for downloading and installing skills.
#[derive(Debug, Clone)]
pub struct RegistryClient {
    index: RegistryIndex,
    cache_dir: String,
    skills_dir: String,
}

/// What installing a skill takes, once the registry has agreed to it.
#[derive(Debug)]
pub struct InstallPlan {
    /// The index entry of the version to install.
    pub entry: IndexEntry,
    /// Where the package is cached.
    pub cache_file: String,
    /// Where the package is downloaded from.
    pub download_url: String,
    /// Where the skill is extracted.
    pub dest: String,
}

/// The URL a package is downloaded from.
pub open spec fn download_url_spec(name: Seq<char>, version: Seq<char>) -> Seq<char> {
    "https://github.com/skillguard/registry/releases/download/"@ + name + "-v"@ + version + "/"@
        + name + "-"@ + version + ".tar.gz"@
}

/// The message for a skill that the index does not know.
pub open spec fn not_found_message(name: Seq<char>) -> Seq<char> {
    "Skill '"@ + name + "' not found in registry"@
}

/// The message for a skill that is already installed.
pub open spec fn already_installed_message(name: Seq<char>) -> Seq<char> {
    "Skill '"@ + name + "' already installed. Use --force to overwrite."@
}

/// The message for a downloaded package whose checksum does not match.
pub open spec fn checksum_mismatch_message(name: Seq<char>, version: Seq<char>) -> Seq<char> {
    "Checksum mismatch for "@ + name + "@"@ + version
}

impl RegistryClient {
    /// A client over the given index, package cache and skills directory.
    pub fn new(index_path: String, cache_dir: String, skills_dir: String) -> (r: Self)
        ensures
            r.index_root() == index_path@,
            r.cache_root() == cache_dir@,
            r.skills_root() == skills_dir@,
    {
        RegistryClient { index: RegistryIndex::open(index_path), cache_dir, skills_dir }
    }

    /// The index root.
    pub closed spec fn index_root(&self) -> Seq<char> {
        self.index.root()
    }

    /// The package cache directory.
    pub closed spec fn cache_root(&self) -> Seq<char> {
        self.cache_dir@
    }

    /// The directory of installed skills.
    pub closed spec fn skills_root(&self) -> Seq<char> {
        self.skills_dir@
    }

    /// The index the client reads.
    pub fn index(&self) -> (r: &RegistryIndex)
        ensures
            r.root() == self.index_root(),
    {
        &self.index
    }

    /// The default client, under `<home>/.skillguard`: its "index", "cache" and
    /// "skills" directories.
    pub fn default_client(home: &str) -> (r: Self)
        ensures
            r.index_root() == path_join(path_join(home@, ".skillguard"@), "index"@),
            r.cache_root() == path_join(path_join(home@, ".skillguard"@), "cache"@),
            r.skills_root() == path_join(path_join(home@, ".skillguard"@), "skills"@),
    {
        let sg_dir = join_path(home, ".skillguard");
        Self::new(
            join_path(sg_dir.as_str(), "index"),
            join_path(sg_dir.as_str(), "cache"),
            join_path(sg_dir.as_str(), "skills"),
        )
    }

    /// The directory of installed skills.
    pub fn skills_dir(&self) -> (r: String)
        ensures
            r@ == self.skills_root(),
    {
        self.skills_dir.clone()
    }

    /// The package cache directory.
    pub fn cache_dir(&self) -> (r: String)
        ensures
            r@ == self.cache_root(),
    {
        self.cache_dir.clone()
    }

    /// The path at which a skill is installed.
    pub fn installed_skill_path(&self, name: &str) -> (r: String)
        ensures
            r@ == path_join(self.skills_root(), name@),
    {
        join_path(self.skills_dir.as_str(), name)
    }

    /// Decides whether a skill can be installed, given the latest entry the index
    /// has for it and whether its destination already exists: an unknown skill,
    /// or one already installed without `force`, is refused.
    pub fn plan_install(
        &self,
        name: &str,
        latest: Option<IndexEntry>,
        dest_exists: bool,
        force: bool,
    ) -> (r: Result<InstallPlan, SkillGuardError>)
        ensures
            latest is None ==> (r matches Err(SkillGuardError::RegistryError(m))
                && m@ == not_found_message(name@)),
            latest is Some && dest_exists && !force ==> (r matches Err(
                SkillGuardError::RegistryError(m),
            ) && m@ == already_installed_message(name@)),
            latest matches Some(e) ==> (!dest_exists || force ==> (r matches Ok(plan) && plan.entry
                == e && plan.dest@ == path_join(self.skills_root(), name@) && plan.cache_file@
                == path_join(self.cache_root(), package_file_name_spec(name@, e.version@))
                && plan.download_url@ == download_url_spec(name@, e.version@))),
    {
        let entry = match latest {
            Some(e) => e,
            None => {
                let mut m = String::new();
                push_str(&mut m, "Skill '");
                push_str(&mut m, name);
                push_str(&mut m, "' not found in registry");
                return Err(SkillGuardError::RegistryError(m));
            },
        };
        let dest = join_path(self.skills_dir.as_str(), name);
        if dest_exists && !force {
            let mut m = String::new();
            push_str(&mut m, "Skill '");
            push_str(&mut m, name);
            push_str(&mut m, "' already installed. Use --force to overwrite.");
            return Err(SkillGuardError::RegistryError(m));
        }
        let file = package_file_name(name, entry.version.as_str());
        let cache_file = join_path(self.cache_dir.as_str(), file.as_str());
        let mut url = String::new();
        push_str(&mut url, "https://github.com/skillguard/registry/releases/download/");
        push_str(&mut url, name);
        push_str(&mut url, "-v");
        push_str(&mut url, entry.version.as_str());
        push_str(&mut url, "/");
        push_str(&mut url, name);
        push_str(&mut url, "-");
        push_str(&mut url, entry.version.as_str());
        push_str(&mut url, ".tar.gz");
        Ok(InstallPlan { entry, cache_file, download_url: url, dest })
    }

    /// Checks a downloaded package against the entry it was installed for.
    pub fn check_download(name: &str, entry: &IndexEntry, content: &[u8]) -> (r: Result<
        (),
        SkillGuardError,
    >)
        ensures
            r is Ok <==> checksum_spec(content@) == entry.checksum@,
            r matches Err(e) ==> (e matches SkillGuardError::RegistryError(m) && m@
                == checksum_mismatch_message(name@, entry.version@)),
    {
        if PackageReader::verify_checksum(content, entry.checksum.as_str()) {
            Ok(())
        } else {
            let mut m = String::new();
            push_str(&mut m, "Checksum mismatch for ");
            push_str(&mut m, name);
            push_str(&mut m, "@");
            push_str(&mut m, entry.version.as_str());
            Err(SkillGuardError::RegistryError(m))
        }
    }
}

// ---------------------------------------------------------------------------
// Publishing
// ---------------------------------------------------------------------------

/// Publishes skills to the registry.
#[derive(Debug, Clone)]
pub struct Publisher {
    index: RegistryIndex,
}

/// The message for a version that is already published.
pub open spec fn already_published_message(name: Seq<char>, version: Seq<char>) -> Seq<char> {
    "Version "@ + version + " of '"@ + name + "' already published. Bump the version to publish again."@
}

impl Publisher {
    /// A publisher that records into the index at `index_path`.
    pub fn new(index_path: String) -> (r: Self)
        ensures
            r.index_root() == index_path@,
    {
        Publisher { index: RegistryIndex::open(index_path) }
    }

    /// The index root.
    pub closed spec fn index_root(&self) -> Seq<char> {
        self.index.root()
    }

    /// The index the publisher records into.
    pub fn index(&self) -> (r: &RegistryIndex)
        ensures
            r.root() == self.index_root(),
    {
        &self.index
    }

    /// A version may be published unless the index already holds it, not yanked.
    pub fn check_publishable(manifest: &SkillManifest, existing: &Option<IndexEntry>) -> (r: Result<
        (),
        SkillGuardError,
    >)
        ensures
            r is Ok <==> (existing is None || existing.unwrap().yanked),
            r matches Err(e) ==> (e matches SkillGuardError::RegistryError(m) && m@
                == already_published_message(manifest.name@, manifest.version@)),
    {
        match existing {
            Some(e) => {
                if !e.yanked {
                    let mut m = String::new();
                    push_str(&mut m, "Version ");
                    push_str(&mut m, manifest.version.as_str());
                    push_str(&mut m, " of '");
                    push_str(&mut m, manifest.name.as_str());
                    push_str(&mut m, "' already published. Bump the version to publish again.");
                    return Err(SkillGuardError::RegistryError(m));
                }
                Ok(())
            },
            None => Ok(()),
        }
    }

    /// The index entry that records a published package.
    pub fn index_entry(manifest: &SkillManifest, checksum: String) -> (r: IndexEntry)
        ensures
            r.name@ == manifest.name@,
            r.version@ == manifest.version@,
            r.checksum@ == checksum@,
            !r.yanked,
            r.description matches Some(d) && d@ == manifest.description@,
            r.keywords@ == manifest.keywords@,
    {
        IndexEntry {
            name: manifest.name.clone(),
            version: manifest.version.clone(),
            checksum,
            yanked: false,
            description: Some(manifest.description.clone()),
            keywords: copy_strings(&manifest.keywords),
        }
    }
}

} // verus!
