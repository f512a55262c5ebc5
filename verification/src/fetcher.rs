//! The caching fetcher's decision logic: deriving a cache location from a
//! URL, and a write-once store whose presence check alone decides between
//! a cache hit and a network fetch. The network and the disk stay outside
//! the library; a caller performs the download only when [`CachingFetcher::plan`]
//! says so, and hands the bytes back through [`CachingFetcher::record_download`].

use vstd::prelude::*;
use crate::PipelineError;
use crate::text::str_eq;

verus! {

/// The path component of the URL `s` denotes, as the URL parser yields
/// it: a pure function of the characters of `s` alone.
pub uninterp spec fn url_path_of(s: Seq<char>) -> Seq<char>;

/// Whether the URL parser accepts `s` as an absolute URL: a pure
/// function of the characters of `s` alone.
pub uninterp spec fn url_parses(s: Seq<char>) -> bool;

/// Relies on `reqwest::Url::parse` (the `url` crate's parser) and
/// `Url::path`: whether parsing succeeds, and the parsed URL's path
/// component, are functions of the input string alone, and `path` reads
/// that component back.
#[verifier::external_body]
fn parse_url_path(url: &str) -> (r: Result<String, PipelineError>)
    ensures
        url_parses(url@) ==> r is Ok,
        r matches Ok(p) ==> (p@ == url_path_of(url@) && url_parses(url@)),
        r is Err ==> (r == Err::<String, PipelineError>(PipelineError::Fetch)
            && !url_parses(url@)),
{
    match reqwest::Url::parse(url) {
        Ok(u) => Ok(u.path().to_string()),
        Err(_) => Err(PipelineError::Fetch),
    }
}

/// Where the response body for URL path `p` is cached: one directory per
/// path, one file inside it.
pub open spec fn spec_cache_dir(p: Seq<char>) -> Seq<char> {
    "cache"@ + p
}

/// The cache file inside a path's cache directory.
pub open spec fn spec_cache_file(p: Seq<char>) -> Seq<char> {
    spec_cache_dir(p) + "/index.html"@
}

/// The cache locations of one URL path: the directory to ensure exists
/// and the write-once file inside it.
pub struct CacheLocation {
    /// The directory derived from the URL path.
    pub dir: String,
    /// The file holding the cached response bytes.
    pub file: String,
}

/// Derives the cache directory and cache file for an already-parsed URL
/// path.
pub fn cache_location_of_path(path: &str) -> (r: CacheLocation)
    ensures
        r.dir@ == spec_cache_dir(path@),
        r.file@ == spec_cache_file(path@),
{
    let mut dir = String::from_str("cache");
    dir.append(path);
    let mut file = dir.clone();
    file.append("/index.html");
    CacheLocation { dir, file }
}

/// Resolves a URL to its cache locations. Succeeds on every URL the
/// parser accepts; fails with [`PipelineError::Fetch`] exactly when the
/// URL does not parse.
pub fn cache_location_of_url(url: &str) -> (r: Result<CacheLocation, PipelineError>)
    ensures
        r is Ok <==> url_parses(url@),
        r matches Ok(loc) ==> {
            &&& loc.dir@ == spec_cache_dir(url_path_of(url@))
            &&& loc.file@ == spec_cache_file(url_path_of(url@))
        },
        r is Err ==> r == Err::<CacheLocation, PipelineError>(PipelineError::Fetch),
{
    match parse_url_path(url) {
        Ok(p) => Ok(cache_location_of_path(p.as_str())),
        Err(_) => Err(PipelineError::Fetch),
    }
}

/// What a fetch must do next: return cached bytes as they stand, or
/// download because the cache holds nothing for this path.
pub enum FetchPlan {
    /// The path is cached; these are the cached bytes, returned without
    /// any freshness check or re-validation.
    UseCached(Vec<u8>),
    /// The path is not cached; the caller must download, then hand the
    /// body to [`CachingFetcher::record_download`].
    Download,
}

/// The bytes a store holds for a path, if any: first match wins, though
/// the write-once discipline keeps keys unique anyway.
pub open spec fn find_entry(entries: Seq<(Seq<char>, Seq<u8>)>, path: Seq<char>) -> Option<
    Seq<u8>,
>
    decreases entries.len(),
{
    if entries.len() == 0 {
        None
    } else {
        match find_entry(entries.drop_last(), path) {
            Some(b) => Some(b),
            None => if entries.last().0 == path {
                Some(entries.last().1)
            } else {
                None
            },
        }
    }
}

/// The model of a caching fetcher: which paths hold which bytes, and how
/// many downloads it has recorded.
pub ghost struct FetcherView {
    /// The cached entries, in the order they were written.
    pub entries: Seq<(Seq<char>, Seq<u8>)>,
    /// How many network downloads were recorded.
    pub downloads: nat,
}

/// The content-addressed, write-once cache a fetcher consults: a path is
/// fetched over the network at most once, and its entry is never
/// overwritten or invalidated afterwards.
pub struct CachingFetcher {
    entries: Vec<(String, Vec<u8>)>,
    downloads: u64,
}

impl View for CachingFetcher {
    type V = FetcherView;

    closed spec fn view(&self) -> FetcherView {
        FetcherView {
            entries: self.entries@.map_values(|e: (String, Vec<u8>)| (e.0@, e.1@)),
            downloads: self.downloads as nat,
        }
    }
}

impl CachingFetcher {
    /// An empty cache with no downloads recorded.
    pub fn new() -> (r: CachingFetcher)
        ensures
            r@.entries == Seq::<(Seq<char>, Seq<u8>)>::empty(),
            r@.downloads == 0,
    {
        let r = CachingFetcher { entries: Vec::new(), downloads: 0 };
        proof {
            assert(r@.entries =~= Seq::<(Seq<char>, Seq<u8>)>::empty());
        }
        r
    }

    /// Decides a fetch of `path`: the cached bytes if the path was ever
    /// recorded, byte for byte as they were stored, else the instruction
    /// to download. Reading the cache touches nothing: the store and the
    /// download count stay as they are.
    pub fn plan(&self, path: &str) -> (r: FetchPlan)
        ensures
            match r {
                FetchPlan::UseCached(b) => find_entry(self@.entries, path@) == Some(b@),
                FetchPlan::Download => find_entry(self@.entries, path@) is None,
            },
    {
        let mut i: usize = 0;
        let ghost entries = self@.entries;
        while i < self.entries.len()
            invariant
                0 <= i <= self.entries@.len(),
                entries == self@.entries,
                entries.len() == self.entries@.len(),
                forall|j: int|
                    0 <= j < entries.len() ==> #[trigger] entries[j] == (
                        self.entries@[j].0@,
                        self.entries@[j].1@,
                    ),
                find_entry(entries.take(i as int), path@) is None,
            decreases self.entries@.len() - i,
        {
            proof {
                assert(entries.take(i as int + 1).drop_last() =~= entries.take(i as int));
            }
            if str_eq(self.entries[i].0.as_str(), path) {
                proof {
                    lemma_find_entry_found(entries, i as int);
                }
                let bytes = clone_bytes(&self.entries[i].1);
                return FetchPlan::UseCached(bytes);
            }
            i += 1;
        }
        proof {
            assert(entries.take(entries.len() as int) =~= entries);
        }
        FetchPlan::Download
    }

    /// Records a completed download: stores the body under `path` and
    /// counts one network fetch. A cache entry is write-once, so a path
    /// that is already present is refused with [`PipelineError::Fetch`]
    /// and nothing changes.
    pub fn record_download(&mut self, path: &str, body: Vec<u8>) -> (r: Result<
        Vec<u8>,
        PipelineError,
    >)
        requires
            old(self)@.downloads < u64::MAX,
        ensures
            find_entry(old(self)@.entries, path@) is None ==> {
                &&& r matches Ok(b) && b@ == body@
                &&& final(self)@.entries == old(self)@.entries.push((path@, body@))
                &&& final(self)@.downloads == old(self)@.downloads + 1
            },
            find_entry(old(self)@.entries, path@) is Some ==> {
                &&& r == Err::<Vec<u8>, PipelineError>(PipelineError::Fetch)
                &&& final(self)@ == old(self)@
            },
    {
        match self.plan(path) {
            FetchPlan::UseCached(_) => Err(PipelineError::Fetch),
            FetchPlan::Download => {
                let stored = clone_bytes(&body);
                let key = String::from_str(path);
                let ghost old_entries = self@.entries;
                self.entries.push((key, stored));
                self.downloads = self.downloads + 1;
                proof {
                    assert(self@.entries =~= old_entries.push((path@, body@)));
                }
                Ok(body)
            },
        }
    }

    /// How many network downloads this fetcher has recorded.
    pub fn downloads(&self) -> (r: u64)
        ensures
            r as nat == self@.downloads,
    {
        self.downloads
    }
}

/// Copies a byte vector.
fn clone_bytes(v: &Vec<u8>) -> (r: Vec<u8>)
    ensures
        r@ == v@,
{
    let mut r: Vec<u8> = Vec::new();
    let mut i: usize = 0;
    while i < v.len()
        invariant
            0 <= i <= v@.len(),
            r@ == v@.take(i as int),
        decreases v@.len() - i,
    {
        r.push(v[i]);
        proof {
            assert(v@.take(i as int + 1) =~= v@.take(i as int).push(v@[i as int]));
        }
        i += 1;
    }
    proof {
        assert(v@.take(v@.len() as int) =~= v@);
    }
    r
}

/// An entry at `i` whose key no earlier entry shares is the one found.
proof fn lemma_find_entry_found(entries: Seq<(Seq<char>, Seq<u8>)>, i: int)
    requires
        0 <= i < entries.len(),
        find_entry(entries.take(i), entries[i].0) is None,
    ensures
        find_entry(entries, entries[i].0) == Some(entries[i].1),
    decreases entries.len(),
{
    if i == entries.len() - 1 {
        assert(entries.drop_last() =~= entries.take(i));
    } else {
        assert(entries.drop_last().take(i) =~= entries.take(i));
        assert(entries.drop_last()[i] == entries[i]);
        lemma_find_entry_found(entries.drop_last(), i);
    }
}

/// Cache idempotence: once a download for a path is recorded, every later
/// fetch of the same path is a cache hit that returns exactly the bytes
/// stored, so no second download ever happens and both fetches hand out
/// byte-identical content.
pub proof fn lemma_cache_idempotent(
    entries: Seq<(Seq<char>, Seq<u8>)>,
    path: Seq<char>,
    body: Seq<u8>,
)
    requires
        find_entry(entries, path) is None,
    ensures
        find_entry(entries.push((path, body)), path) == Some(body),
{
    assert(entries.push((path, body)).drop_last() =~= entries);
}

} // verus!
