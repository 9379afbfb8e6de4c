//! The source model: where payloads come from and how they are acquired.
//! A source is prepared (acquired into a cache, keyed by URL) and then
//! extracted (materialized at a target path).  Acquisition and the
//! filesystem work are carried out by the caller from the actions these
//! methods return; the decisions — what to fetch, where it lands, which
//! directories are missing — are made and specified here.

use vstd::prelude::*;
use vstd::string::StrSliceExecFns;

use crate::bash::push_char;

verus! {

/// A source with a canonical URL; its payload is fetched into the cache
/// keyed by that URL.
pub struct LinkSource {
    pub url: String,
}

/// An embedded byte payload.  `formerly` is a non-owning back-reference — an
/// index into a side table of known link sources — recording, for
/// provenance only, which link-addressed source the bytes were produced
/// from.
pub struct InlineFile {
    pub data: Vec<u8>,
    pub formerly: Option<usize>,
}

/// A source of a payload: either inline bytes or a link-addressed payload.
pub enum Source {
    Inline(InlineFile),
    Link(LinkSource),
}

/// The mathematical shape of a source.
#[verifier::ext_equal]
pub enum SourceV {
    Inline(Seq<u8>, Option<usize>),
    Link(Seq<char>),
}

impl View for LinkSource {
    type V = Seq<char>;

    open spec fn view(&self) -> Seq<char> {
        self.url@
    }
}

impl View for InlineFile {
    type V = SourceV;

    open spec fn view(&self) -> SourceV {
        SourceV::Inline(self.data@, self.formerly)
    }
}

impl View for Source {
    type V = SourceV;

    open spec fn view(&self) -> SourceV {
        match *self {
            Source::Inline(f) => f@,
            Source::Link(l) => SourceV::Link(l@),
        }
    }
}

impl LinkSource {
    /// The canonical URL of this source.
    pub fn url(&self) -> (r: &str)
        ensures
            r@ == self.url@,
    {
        self.url.as_str()
    }
}

// ---------------------------------------------------------------------------
// The cache: which URLs already have an artifact in the cache directory.
// ---------------------------------------------------------------------------
/// The name an artifact is stored under in the cache: the URL with path
/// separators and scheme punctuation flattened.
pub open spec fn spec_key_char(c: char) -> char {
    if c == '/' || c == ':' {
        '_'
    } else {
        c
    }
}

pub open spec fn spec_cache_key(url: Seq<char>) -> Seq<char> {
    Seq::new(url.len(), |i: int| spec_key_char(url[i]))
}

/// The cache file name for a URL.
pub fn cache_key(url: &str) -> (r: String)
    ensures
        r@ == spec_cache_key(url@),
{
    let n = url.unicode_len();
    let mut r = String::new();
    let mut i: usize = 0;
    while i < n
        invariant
            i <= n,
            n == url@.len(),
            r@.len() == i,
            forall|j: int| 0 <= j < i ==> r@[j] == spec_key_char(url@[j]),
        decreases n - i,
    {
        let c = url.get_char(i);
        let k = if c == '/' || c == ':' {
            '_'
        } else {
            c
        };
        push_char(&mut r, k);
        i = i + 1;
    }
    proof {
        assert(r@ =~= spec_cache_key(url@));
    }
    r
}

/// The model of the shared cache directory: the set of URLs whose artifact
/// is already present.  Entries are listed once each.
pub struct Cache {
    pub entries: Vec<String>,
}

impl Cache {
    pub open spec fn wf(self) -> bool {
        forall|i: int, j: int|
            0 <= i < j < self.entries.deep_view().len() ==> self.entries.deep_view()[i]
                != self.entries.deep_view()[j]
    }

    pub open spec fn view(self) -> Set<Seq<char>> {
        self.entries.deep_view().to_set()
    }

    /// An empty cache.
    pub fn new() -> (r: Cache)
        ensures
            r.wf(),
            r.view() == Set::<Seq<char>>::empty(),
    {
        let r = Cache { entries: Vec::new() };
        proof {
            assert(r.entries.deep_view() =~= Seq::<Seq<char>>::empty());
            assert(r.view() =~= Set::<Seq<char>>::empty());
        }
        r
    }

    /// Whether an artifact for this URL is already cached.
    pub fn holds(&self, url: &str) -> (r: bool)
        ensures
            r == self.view().contains(url@),
    {
        let mut i: usize = 0;
        while i < self.entries.len()
            invariant
                i <= self.entries.len(),
                self.entries.deep_view().len() == self.entries.len(),
                forall|j: int| 0 <= j < i ==> self.entries.deep_view()[j] != url@,
            decreases self.entries.len() - i,
        {
            proof {
                assert(self.entries.deep_view()[i as int] == self.entries@[i as int]@);
            }
            if crate::str_eq(self.entries[i].as_str(), url) {
                proof {
                    assert(self.entries.deep_view().contains(url@));
                }
                return true;
            }
            i = i + 1;
        }
        proof {
            if self.entries.deep_view().contains(url@) {
                let k = choose|k: int|
                    0 <= k < self.entries.deep_view().len() && self.entries.deep_view()[k] == url@;
                assert(false);
            }
        }
        false
    }
}

// ---------------------------------------------------------------------------
// Preparation: acquiring a payload into the cache.
// ---------------------------------------------------------------------------
/// What the caller must do to finish preparing a source: nothing, or fetch
/// the URL into the cache under the given file name.
pub enum PrepareAction {
    Ready,
    Fetch { url: String, key: String },
}

/// Whether preparing this source fetches over the network: only a
/// link-addressed source whose artifact is not yet cached does.
pub open spec fn prepare_fetches(s: SourceV, cache: Set<Seq<char>>) -> bool {
    match s {
        SourceV::Link(u) => !cache.contains(u),
        _ => false,
    }
}

/// The cache contents after preparing this source.
pub open spec fn cache_after(s: SourceV, cache: Set<Seq<char>>) -> Set<Seq<char>> {
    match s {
        SourceV::Link(u) => cache.insert(u),
        _ => cache,
    }
}

proof fn lemma_to_set_push(s: Seq<Seq<char>>, x: Seq<char>)
    ensures
        s.push(x).to_set() == s.to_set().insert(x),
{
    assert forall|a: Seq<char>| s.push(x).to_set().contains(a) implies s.to_set().insert(
        x,
    ).contains(a) by {
        let k = choose|k: int| 0 <= k < s.push(x).len() && s.push(x)[k] == a;
        if k < s.len() {
            assert(s.contains(a));
        }
    }
    assert forall|a: Seq<char>| s.to_set().insert(x).contains(a) implies s.push(x).to_set().contains(
        a,
    ) by {
        if a == x {
            assert(s.push(x)[s.len() as int] == x);
        } else {
            let k = choose|k: int| 0 <= k < s.len() && s[k] == a;
            assert(s.push(x)[k] == a);
        }
    }
    assert(s.push(x).to_set() =~= s.to_set().insert(x));
}

/// Idempotence of preparation: once a source has been prepared against a
/// cache, preparing it again against the resulting cache changes nothing
/// and fetches nothing — one cached artifact, not two.
pub proof fn lemma_prepare_idempotent(s: SourceV, cache: Set<Seq<char>>)
    ensures
        cache_after(s, cache_after(s, cache)) == cache_after(s, cache),
        !prepare_fetches(s, cache_after(s, cache)),
{
    match s {
        SourceV::Link(u) => {
            assert(cache.insert(u).insert(u) =~= cache.insert(u));
            assert(cache.insert(u).contains(u));
        },
        _ => {},
    }
}

// ---------------------------------------------------------------------------
// Extraction: materializing a payload at a target path.
// ---------------------------------------------------------------------------
/// The directory part of a path: everything before the last `/`, or nothing
/// when the path has no directory part.
pub open spec fn spec_parent(s: Seq<char>) -> Option<Seq<char>>
    decreases s.len(),
{
    if s.len() == 0 {
        None
    } else if s.last() == '/' {
        Some(s.drop_last())
    } else {
        spec_parent(s.drop_last())
    }
}

/// The directory part of a path, if it has one.
pub fn parent_of(path: &str) -> (r: Option<String>)
    ensures
        match r {
            Some(p) => spec_parent(path@) == Some(p@),
            None => spec_parent(path@) is None,
        },
{
    let n = path.unicode_len();
    proof {
        assert(path@.take(n as int) =~= path@);
    }
    let mut i: usize = n;
    while i > 0
        invariant
            i <= n,
            n == path@.len(),
            spec_parent(path@) == spec_parent(path@.take(i as int)),
        decreases i,
    {
        let c = path.get_char(i - 1);
        proof {
            assert(path@.take(i as int).last() == path@[i as int - 1]);
            assert(path@.take(i as int).drop_last() =~= path@.take(i as int - 1));
        }
        if c == '/' {
            let p = path.substring_char(0, i - 1);
            proof {
                assert(p@ =~= path@.take(i as int - 1));
            }
            return Some(p.to_owned());
        }
        i = i - 1;
    }
    proof {
        assert(path@.take(0) =~= Seq::<char>::empty());
    }
    None
}

/// What the caller must do to materialize a source at a target path: create
/// the missing directory (with its parents) and write the bytes, or unpack
/// the cached artifact into the target.
pub enum ExtractAction {
    WriteFile { dir: Option<String>, path: String, bytes: Vec<u8> },
    Unpack { dir: Option<String>, key: String, target: String },
}

impl Source {
    /// Prepare this source against the cache: inline payloads need nothing;
    /// a link-addressed payload is fetched once and the cache remembers it.
    pub fn prepare(&self, cache: &mut Cache) -> (a: PrepareAction)
        requires
            old(cache).wf(),
        ensures
            final(cache).wf(),
            final(cache)@ == cache_after(self@, old(cache)@),
            (a matches PrepareAction::Fetch { .. }) == prepare_fetches(self@, old(cache)@),
            (a matches PrepareAction::Fetch { url, key } ==> url@ == self->Link_0.url@ && key@
                == spec_cache_key(self->Link_0.url@)),
    {
        match self {
            Source::Inline(_) => PrepareAction::Ready,
            Source::Link(l) => {
                if cache.holds(l.url.as_str()) {
                    proof {
                        assert(cache@.insert(l.url@) =~= cache@);
                    }
                    PrepareAction::Ready
                } else {
                    let ghost pre = cache.entries@;
                    let ghost pre_dv = cache.entries.deep_view();
                    cache.entries.push(l.url.clone());
                    proof {
                        assert(cache.entries@ == pre.push(l.url));
                        assert(cache.entries.deep_view() =~= pre_dv.push(l.url@));
                        lemma_to_set_push(pre_dv, l.url@);
                        assert forall|i: int, j: int|
                            0 <= i < j < cache.entries.deep_view().len() implies cache.entries.deep_view()[i]
                            != cache.entries.deep_view()[j] by {
                            if j == cache.entries.deep_view().len() - 1 {
                                assert(pre_dv.to_set().contains(pre_dv[i]));
                            }
                        }
                    }
                    PrepareAction::Fetch { url: l.url.clone(), key: cache_key(l.url.as_str()) }
                }
            },
        }
    }

    /// The work of materializing this source at the target path: inline
    /// bytes are written there, after the target's missing directory part
    /// is created; a cached link artifact is unpacked into the target.
    pub fn extract(&self, target: &str) -> (a: ExtractAction)
        ensures
            match *self {
                Source::Inline(f) => a matches ExtractAction::WriteFile { dir, path, bytes } && (
                match dir {
                    Some(d) => spec_parent(target@) == Some(d@),
                    None => spec_parent(target@) is None,
                }) && path@ == target@ && bytes@ == f.data@,
                Source::Link(l) => a matches ExtractAction::Unpack { dir, key, target: t } && (
                match dir {
                    Some(d) => spec_parent(target@) == Some(d@),
                    None => spec_parent(target@) is None,
                }) && key@ == spec_cache_key(l.url@) && t@ == target@,
            },
    {
        match self {
            Source::Inline(f) => ExtractAction::WriteFile {
                dir: parent_of(target),
                path: target.to_owned(),
                bytes: f.data.clone(),
            },
            Source::Link(l) => ExtractAction::Unpack {
                dir: parent_of(target),
                key: cache_key(l.url.as_str()),
                target: target.to_owned(),
            },
        }
    }

    /// The provenance back-reference: the index of the link source an
    /// inline payload was produced from, if any.  Never fails and performs
    /// no work.
    pub fn formerly(&self) -> (r: Option<usize>)
        ensures
            r == match self@ {
                SourceV::Inline(_, formerly) => formerly,
                SourceV::Link(_) => None::<usize>,
            },
    {
        match self {
            Source::Inline(f) => f.formerly,
            Source::Link(_) => None,
        }
    }
}

} // verus!
