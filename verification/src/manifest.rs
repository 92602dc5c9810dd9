//! The manifest: which modules a plugin is made of and what it may use.

use crate::path_map::{mounted, mounts, PathMap};
use crate::text_map::{pairs_of, written, TextMap};
use vstd::prelude::*;

verus! {

/// The timeout in milliseconds of a manifest that names none.
pub const DEFAULT_TIMEOUT_MS: u64 = 30000;

/// The text of an optional string.
pub open spec fn opt_text(s: Option<String>) -> Option<Seq<char>> {
    match s {
        Some(t) => Some(t@),
        None => None,
    }
}

/// The texts of a list of strings.
pub open spec fn texts(list: Seq<String>) -> Seq<Seq<char>> {
    list.map_values(|s: String| s@)
}

/// The texts of an optional list of strings.
pub open spec fn opt_texts(list: Option<Vec<String>>) -> Option<Seq<Seq<char>>> {
    match list {
        Some(l) => Some(texts(l@)),
        None => None,
    }
}

/// The paths that optional paths stand for.
pub open spec fn opt_map(m: Option<PathMap>) -> Option<Map<Seq<char>, Seq<char>>> {
    match m {
        Some(t) => Some(t@),
        None => None,
    }
}

/// The whole milliseconds in a span of `secs` seconds and `subsec_nanos`
/// nanoseconds.
pub open spec fn whole_millis(secs: u64, subsec_nanos: u32) -> nat {
    (secs * 1000 + subsec_nanos / 1_000_000) as nat
}

/// The low 64 bits of a number of milliseconds.
pub open spec fn low_64(n: nat) -> u64 {
    (n % 0x1_0000_0000_0000_0000) as u64
}

/// Memory settings.
#[derive(Clone, Copy, Debug, PartialEq, Eq, Structural)]
pub struct MemoryOptions {
    /// The most pages of linear memory that the plugin may have; none means
    /// that it is not bounded.
    pub max_pages: Option<u32>,
}

impl Default for MemoryOptions {
    fn default() -> (options: Self)
        ensures
            options.max_pages is None,
    {
        MemoryOptions { max_pages: None }
    }
}

/// What an [`HttpRequest`] holds.
pub struct HttpRequestView {
    pub url: Seq<char>,
    pub headers: Map<Seq<char>, Seq<char>>,
    pub method: Option<Seq<char>>,
}

/// A request from which a module is fetched.
#[derive(Clone, Debug)]
pub struct HttpRequest {
    /// The address to fetch from.
    pub url: String,
    /// The headers to send.
    pub headers: TextMap<String>,
    /// The method to use.
    pub method: Option<String>,
}

impl View for HttpRequest {
    type V = HttpRequestView;

    open spec fn view(&self) -> HttpRequestView {
        HttpRequestView { url: self.url@, headers: self.headers@, method: opt_text(self.method) }
    }
}

impl HttpRequest {
    /// A request to `url` with no header and no method.
    pub fn new(url: &str) -> (req: HttpRequest)
        ensures
            req@ == (HttpRequestView { url: url@, headers: Map::empty(), method: None }),
    {
        HttpRequest { url: url.to_owned(), headers: TextMap::new(), method: None }
    }

    /// The same request with `method` as its method.
    pub fn with_method(self, method: &str) -> (req: HttpRequest)
        ensures
            req@ == (HttpRequestView { method: Some(method@), ..self@ }),
    {
        let mut req = self;
        req.method = Some(method.to_owned());
        req
    }

    /// The same request with the header `key` set to `value`.
    pub fn with_header(self, key: &str, value: &str) -> (req: HttpRequest)
        ensures
            req@ == (HttpRequestView { headers: self@.headers.insert(key@, value@), ..self@ }),
    {
        let mut req = self;
        req.headers.insert(key.to_owned(), value.to_owned());
        req
    }
}

/// What a [`WasmMetadata`] holds.
pub struct WasmMetadataView {
    pub name: Option<Seq<char>>,
    pub hash: Option<Seq<char>>,
}

/// What is known of a module besides its code.
#[derive(Clone, Debug)]
pub struct WasmMetadata {
    /// The module's name; the module named `main` is the entry module.
    pub name: Option<String>,
    /// The hash that the module's bytes must have.
    pub hash: Option<String>,
}

impl View for WasmMetadata {
    type V = WasmMetadataView;

    open spec fn view(&self) -> WasmMetadataView {
        WasmMetadataView { name: opt_text(self.name), hash: opt_text(self.hash) }
    }
}

impl Default for WasmMetadata {
    fn default() -> (meta: Self)
        ensures
            meta@ == (WasmMetadataView { name: None, hash: None }),
    {
        WasmMetadata { name: None, hash: None }
    }
}

/// What a [`Wasm`] holds.
pub enum WasmView {
    File { path: Seq<char>, meta: WasmMetadataView },
    Data { data: Seq<u8>, meta: WasmMetadataView },
    Url { req: HttpRequestView, meta: WasmMetadataView },
}

impl WasmView {
    /// The metadata, whichever the source.
    pub open spec fn meta(self) -> WasmMetadataView {
        match self {
            WasmView::File { path: _, meta } => meta,
            WasmView::Data { data: _, meta } => meta,
            WasmView::Url { req: _, meta } => meta,
        }
    }

    /// The same source with other metadata.
    pub open spec fn with_meta(self, meta: WasmMetadataView) -> WasmView {
        match self {
            WasmView::File { path, meta: _ } => WasmView::File { path, meta },
            WasmView::Data { data, meta: _ } => WasmView::Data { data, meta },
            WasmView::Url { req, meta: _ } => WasmView::Url { req, meta },
        }
    }
}

/// Where a module's code comes from.
#[derive(Clone, Debug)]
pub enum Wasm {
    /// From a file on disk.
    File { path: String, meta: WasmMetadata },
    /// From bytes in memory.
    Data { data: Vec<u8>, meta: WasmMetadata },
    /// From an HTTP request.
    Url { req: HttpRequest, meta: WasmMetadata },
}

impl View for Wasm {
    type V = WasmView;

    open spec fn view(&self) -> WasmView {
        match self {
            Wasm::File { path, meta } => WasmView::File { path: path@, meta: meta@ },
            Wasm::Data { data, meta } => WasmView::Data { data: data@, meta: meta@ },
            Wasm::Url { req, meta } => WasmView::Url { req: req@, meta: meta@ },
        }
    }
}

impl Wasm {
    /// A module read from the file at `path`.
    pub fn file(path: &str) -> (wasm: Self)
        ensures
            wasm@ == (WasmView::File {
                path: path@,
                meta: WasmMetadataView { name: None, hash: None },
            }),
    {
        Wasm::File { path: path.to_owned(), meta: WasmMetadata::default() }
    }

    /// A module given by its bytes.
    pub fn data(data: Vec<u8>) -> (wasm: Self)
        ensures
            wasm@ == (WasmView::Data {
                data: data@,
                meta: WasmMetadataView { name: None, hash: None },
            }),
    {
        Wasm::Data { data, meta: WasmMetadata::default() }
    }

    /// A module fetched with `req`.
    pub fn url(req: HttpRequest) -> (wasm: Self)
        ensures
            wasm@ == (WasmView::Url { req: req@, meta: WasmMetadataView { name: None, hash: None } }),
    {
        Wasm::Url { req, meta: WasmMetadata::default() }
    }

    /// The metadata.
    pub fn meta(&self) -> (meta: &WasmMetadata)
        ensures
            meta@ == self@.meta(),
    {
        match self {
            Wasm::File { path: _, meta } => meta,
            Wasm::Data { data: _, meta } => meta,
            Wasm::Url { req: _, meta } => meta,
        }
    }

    /// The metadata, for changing it in place.
    pub fn meta_mut(&mut self) -> (meta: &mut WasmMetadata)
        ensures
            meta@ == old(self)@.meta(),
            final(self)@ == old(self)@.with_meta(final(meta)@),
    {
        match self {
            Wasm::File { path: _, meta } => meta,
            Wasm::Data { data: _, meta } => meta,
            Wasm::Url { req: _, meta } => meta,
        }
    }
}

impl From<HttpRequest> for Wasm {
    /// A module fetched with `req`.
    fn from(req: HttpRequest) -> (wasm: Self) {
        Wasm::Url { req, meta: WasmMetadata { name: None, hash: None } }
    }
}

impl vstd::std_specs::convert::FromSpecImpl<HttpRequest> for Wasm {
    open spec fn obeys_from_spec() -> bool {
        true
    }

    open spec fn from_spec(req: HttpRequest) -> Self {
        Wasm::Url { req, meta: WasmMetadata { name: None, hash: None } }
    }
}

impl From<String> for Wasm {
    /// A module read from the file at `path`.
    fn from(path: String) -> (wasm: Self) {
        Wasm::File { path, meta: WasmMetadata { name: None, hash: None } }
    }
}

impl vstd::std_specs::convert::FromSpecImpl<String> for Wasm {
    open spec fn obeys_from_spec() -> bool {
        true
    }

    open spec fn from_spec(path: String) -> Self {
        Wasm::File { path, meta: WasmMetadata { name: None, hash: None } }
    }
}

impl From<Vec<u8>> for Wasm {
    /// A module given by its bytes.
    fn from(data: Vec<u8>) -> (wasm: Self) {
        Wasm::Data { data, meta: WasmMetadata { name: None, hash: None } }
    }
}

impl vstd::std_specs::convert::FromSpecImpl<Vec<u8>> for Wasm {
    open spec fn obeys_from_spec() -> bool {
        true
    }

    open spec fn from_spec(data: Vec<u8>) -> Self {
        Wasm::Data { data, meta: WasmMetadata { name: None, hash: None } }
    }
}

/// What a [`Manifest`] holds.
pub struct ManifestView {
    pub wasm: Seq<WasmView>,
    pub max_pages: Option<u32>,
    pub config: Map<Seq<char>, Seq<char>>,
    pub allowed_hosts: Option<Seq<Seq<char>>>,
    pub allowed_paths: Option<Map<Seq<char>, Seq<char>>>,
    pub timeout_ms: Option<u64>,
}

/// The modules of a plugin and what the plugin may use.
#[derive(Clone, Debug)]
pub struct Manifest {
    /// The modules; the entry module is the one named `main`, or the last.
    pub wasm: Vec<Wasm>,
    /// Memory settings.
    pub memory: MemoryOptions,
    /// Values that the plugin can read by key.
    pub config: TextMap<String>,
    /// The hosts that the plugin may reach over HTTP. None and an empty list
    /// both allow no host.
    pub allowed_hosts: Option<Vec<String>>,
    /// The directories that the plugin may use: from the path on the host to
    /// the path under which the plugin sees it.
    pub allowed_paths: Option<PathMap>,
    /// The time in milliseconds after which a call is interrupted; none means
    /// that calls are not interrupted.
    pub timeout_ms: Option<u64>,
}

impl View for Manifest {
    type V = ManifestView;

    open spec fn view(&self) -> ManifestView {
        ManifestView {
            wasm: self.wasm@.map_values(|w: Wasm| w@),
            max_pages: self.memory.max_pages,
            config: self.config@,
            allowed_hosts: opt_texts(self.allowed_hosts),
            allowed_paths: opt_map(self.allowed_paths),
            timeout_ms: self.timeout_ms,
        }
    }
}

/// The manifest of a plugin with the modules `wasm` and no other setting.
pub open spec fn plain_manifest(wasm: Seq<WasmView>) -> ManifestView {
    ManifestView {
        wasm,
        max_pages: None,
        config: Map::empty(),
        allowed_hosts: None,
        allowed_paths: None,
        timeout_ms: Some(DEFAULT_TIMEOUT_MS),
    }
}

/// Whether the module is named `main`.
pub open spec fn named_main(wasm: WasmView) -> bool {
    wasm.meta().name == Some("main"@)
}

/// The position of the entry module: the last module named `main`, or the
/// last module where none has that name. A manifest without modules has none.
pub open spec fn entry_index(wasm: Seq<WasmView>) -> Option<int> {
    if wasm.len() == 0 {
        None
    } else if exists|i: int| 0 <= i < wasm.len() && named_main(#[trigger] wasm[i]) {
        Some(
            choose|i: int|
                0 <= i < wasm.len() && named_main(#[trigger] wasm[i]) && forall|j: int|
                    i < j < wasm.len() ==> !named_main(#[trigger] wasm[j]),
        )
    } else {
        Some(wasm.len() - 1)
    }
}

/// The timeout of a manifest that names none.
pub fn default_timeout() -> (timeout: Option<u64>)
    ensures
        timeout == Some(DEFAULT_TIMEOUT_MS),
{
    Some(DEFAULT_TIMEOUT_MS)
}

/// Writes `pairs` into `map` from first to last.
fn write_all(map: &mut TextMap<String>, pairs: &Vec<(String, String)>)
    ensures
        final(map)@ == written(old(map)@, pairs_of(pairs@)),
{
    let mut i: usize = 0;
    while i < pairs.len()
        invariant
            i <= pairs.len(),
            map@ == written(old(map)@, pairs_of(pairs@.subrange(0, i as int))),
        decreases pairs.len() - i,
    {
        let key = pairs[i].0.clone();
        let value = pairs[i].1.clone();
        proof {
            let done = pairs_of(pairs@.subrange(0, i as int));
            let next = pairs_of(pairs@.subrange(0, i + 1));
            assert(next.drop_last() == done);
            assert(next.last() == (key@, value@));
        }
        map.insert(key, value);
        i += 1;
    }
    assert(pairs@.subrange(0, pairs.len() as int) == pairs@);
}

/// Mounts `pairs` onto `map` from first to last.
fn mount_all(map: &mut PathMap, pairs: &Vec<(String, String)>)
    ensures
        final(map)@ == mounts(old(map)@, pairs_of(pairs@)),
{
    let mut i: usize = 0;
    while i < pairs.len()
        invariant
            i <= pairs.len(),
            map@ == mounts(old(map)@, pairs_of(pairs@.subrange(0, i as int))),
        decreases pairs.len() - i,
    {
        let src = pairs[i].0.clone();
        let dest = pairs[i].1.clone();
        proof {
            let done = pairs_of(pairs@.subrange(0, i as int));
            let next = pairs_of(pairs@.subrange(0, i + 1));
            assert(next.drop_last() == done);
            assert(next.last() == (src@, dest@));
        }
        map.mount(src, dest);
        i += 1;
    }
    assert(pairs@.subrange(0, pairs.len() as int) == pairs@);
}

impl Default for Manifest {
    fn default() -> (manifest: Self)
        ensures
            manifest@ == plain_manifest(Seq::empty()),
    {
        let manifest = Manifest {
            wasm: Vec::new(),
            memory: MemoryOptions::default(),
            config: TextMap::new(),
            allowed_hosts: None,
            allowed_paths: None,
            timeout_ms: default_timeout(),
        };
        assert(manifest@.wasm == Seq::<WasmView>::empty());
        manifest
    }
}

impl Manifest {
    /// A manifest with the modules `wasm` and the default timeout.
    pub fn new(wasm: Vec<Wasm>) -> (manifest: Manifest)
        ensures
            manifest@ == plain_manifest(wasm@.map_values(|w: Wasm| w@)),
    {
        Manifest {
            wasm,
            memory: MemoryOptions::default(),
            config: TextMap::new(),
            allowed_hosts: None,
            allowed_paths: None,
            timeout_ms: default_timeout(),
        }
    }

    /// The same manifest with an empty list of allowed hosts, whatever the
    /// list was before.
    pub fn disallow_all_hosts(self) -> (manifest: Self)
        ensures
            manifest@ == (ManifestView { allowed_hosts: Some(Seq::empty()), ..self@ }),
    {
        let mut manifest = self;
        manifest.allowed_hosts = Some(Vec::new());
        assert(texts(Seq::<String>::empty()) == Seq::<Seq<char>>::empty());
        manifest
    }

    /// The same manifest with `memory` as its memory settings.
    pub fn with_memory_options(self, memory: MemoryOptions) -> (manifest: Self)
        ensures
            manifest@ == (ManifestView { max_pages: memory.max_pages, ..self@ }),
    {
        let mut manifest = self;
        manifest.memory = memory;
        manifest
    }

    /// The same manifest with at most `max` pages of memory.
    pub fn with_memory_max(self, max: u32) -> (manifest: Self)
        ensures
            manifest@ == (ManifestView { max_pages: Some(max), ..self@ }),
    {
        let mut manifest = self;
        manifest.memory.max_pages = Some(max);
        manifest
    }

    /// The same manifest with `host` added at the end of the allowed hosts.
    pub fn with_allowed_host(self, host: &str) -> (manifest: Self)
        ensures
            manifest@ == (ManifestView {
                allowed_hosts: Some(
                    match self@.allowed_hosts {
                        Some(hosts) => hosts.push(host@),
                        None => seq![host@],
                    },
                ),
                ..self@
            }),
    {
        let mut manifest = self;
        let mut hosts = match manifest.allowed_hosts {
            Some(h) => h,
            None => Vec::new(),
        };
        let ghost before = texts(hosts@);
        assert(self@.allowed_hosts is None ==> before == Seq::<Seq<char>>::empty());
        hosts.push(host.to_owned());
        assert(texts(hosts@) == before.push(host@));
        assert(Seq::<Seq<char>>::empty().push(host@) == seq![host@]);
        manifest.allowed_hosts = Some(hosts);
        assert(manifest@.wasm == self@.wasm);
        manifest
    }

    /// The same manifest with `hosts` as its allowed hosts.
    pub fn with_allowed_hosts(self, hosts: Vec<String>) -> (manifest: Self)
        ensures
            manifest@ == (ManifestView { allowed_hosts: Some(texts(hosts@)), ..self@ }),
    {
        let mut manifest = self;
        manifest.allowed_hosts = Some(hosts);
        manifest
    }

    /// The same manifest in which the host path `src` is seen by the plugin
    /// as `dest`. A host path that was seen as `dest` before is no longer
    /// allowed, and `src` is no longer seen under another path: the last
    /// write wins.
    pub fn with_allowed_path(self, src: &str, dest: &str) -> (manifest: Self)
        ensures
            manifest@ == (ManifestView {
                allowed_paths: Some(
                    mounted(
                        match self@.allowed_paths {
                            Some(paths) => paths,
                            None => Map::empty(),
                        },
                        src@,
                        dest@,
                    ),
                ),
                ..self@
            }),
    {
        let mut manifest = self;
        let mut paths = match manifest.allowed_paths {
            Some(p) => p,
            None => PathMap::new(),
        };
        paths.mount(src.to_owned(), dest.to_owned());
        manifest.allowed_paths = Some(paths);
        manifest
    }

    /// The same manifest with exactly the paths of `paths` allowed, mounted
    /// from first to last: of two entries for one host path, or for one
    /// guest path, the later counts.
    pub fn with_allowed_paths(self, paths: Vec<(String, String)>) -> (manifest: Self)
        ensures
            manifest@ == (ManifestView {
                allowed_paths: Some(mounts(Map::empty(), pairs_of(paths@))),
                ..self@
            }),
    {
        let mut manifest = self;
        let mut map = PathMap::new();
        mount_all(&mut map, &paths);
        manifest.allowed_paths = Some(map);
        manifest
    }

    /// The same manifest with the entries of `c` written into its config, in
    /// their order; the other keys keep their values.
    pub fn with_config(self, c: Vec<(String, String)>) -> (manifest: Self)
        ensures
            manifest@ == (ManifestView { config: written(self@.config, pairs_of(c@)), ..self@ }),
    {
        let mut manifest = self;
        write_all(&mut manifest.config, &c);
        manifest
    }

    /// The same manifest with the config key `k` set to `v`.
    pub fn with_config_key(self, k: &str, v: &str) -> (manifest: Self)
        ensures
            manifest@ == (ManifestView { config: self@.config.insert(k@, v@), ..self@ }),
    {
        let mut manifest = self;
        manifest.config.insert(k.to_owned(), v.to_owned());
        manifest
    }

    /// The same manifest with a timeout of `secs` seconds and `subsec_nanos`
    /// nanoseconds, in whole milliseconds. Of a number of milliseconds that
    /// does not fit in 64 bits the low 64 bits are kept.
    pub fn with_timeout(self, secs: u64, subsec_nanos: u32) -> (manifest: Self)
        ensures
            manifest@ == (ManifestView {
                timeout_ms: Some(low_64(whole_millis(secs, subsec_nanos))),
                ..self@
            }),
    {
        let mut manifest = self;
        let total: u128 = (secs as u128) * 1000 + ((subsec_nanos / 1_000_000) as u128);
        let millis: u64 = #[verifier::truncate] (total as u64);
        assert(millis == low_64(total as nat)) by {
            assert((total as u64) == (total % 0x1_0000_0000_0000_0000u128) as u64) by (bit_vector);
        }
        manifest.timeout_ms = Some(millis);
        manifest
    }

    /// The position of the entry module among the modules.
    pub fn entry_module(&self) -> (index: Option<usize>)
        ensures
            match index {
                Some(i) => entry_index(self@.wasm) == Some(i as int) && i < self.wasm@.len(),
                None => entry_index(self@.wasm) is None && self.wasm@.len() == 0,
            },
            match index {
                Some(i) => named_main(self@.wasm[i as int]) || (i == self.wasm@.len() - 1
                    && forall|j: int| 0 <= j < self.wasm@.len() ==> !named_main(self@.wasm[j])),
                None => true,
            },
    {
        let n = self.wasm.len();
        if n == 0 {
            return None;
        }
        let main = "main".to_owned();
        let ghost views = self@.wasm;
        let mut i: usize = n;
        while i > 0
            invariant
                i <= n,
                n == self.wasm@.len(),
                n == views.len(),
                views == self@.wasm,
                main@ == "main"@,
                forall|j: int| i <= j < n ==> !named_main(#[trigger] views[j]),
            decreases i,
        {
            i -= 1;
            let is_main = match &self.wasm[i].meta().name {
                Some(name) => *name == main,
                None => false,
            };
            assert(is_main == named_main(views[i as int]));
            if is_main {
                proof {
                    lemma_entry_is_last_main(views, i as int);
                }
                return Some(i);
            }
        }
        assert(!exists|k: int| 0 <= k < views.len() && named_main(#[trigger] views[k]));
        Some(n - 1)
    }
}

/// The module named `main` after which no module has that name is the entry
/// module.
pub proof fn lemma_entry_is_last_main(wasm: Seq<WasmView>, i: int)
    requires
        0 <= i < wasm.len(),
        named_main(wasm[i]),
        forall|j: int| i < j < wasm.len() ==> !named_main(#[trigger] wasm[j]),
    ensures
        entry_index(wasm) == Some(i),
{
    let found = choose|k: int|
        0 <= k < wasm.len() && named_main(#[trigger] wasm[k]) && forall|j: int|
            k < j < wasm.len() ==> !named_main(#[trigger] wasm[j]);
    assert(0 <= i < wasm.len() && named_main(wasm[i]));
    if found < i {
        assert(!named_main(wasm[i]));
    }
    if i < found {
        assert(!named_main(wasm[found]));
    }
}

/// Of two modules of which one is named `main`, that one is the entry
/// module, whichever of the two comes first.
pub proof fn lemma_entry_of_pair(main: WasmView, other: WasmView)
    requires
        named_main(main),
        !named_main(other),
    ensures
        entry_index(seq![other, main]) == Some(1int),
        entry_index(seq![main, other]) == Some(0int),
{
    lemma_entry_is_last_main(seq![other, main], 1);
    lemma_entry_is_last_main(seq![main, other], 0);
}

/// Where no module is named `main`, the last module is the entry module.
pub proof fn lemma_entry_without_main(wasm: Seq<WasmView>)
    requires
        wasm.len() > 0,
        forall|i: int| 0 <= i < wasm.len() ==> !named_main(#[trigger] wasm[i]),
    ensures
        entry_index(wasm) == Some(wasm.len() - 1),
{
}

} // verus!
