//! What a host function has at hand while a guest runs: the plugin's own
//! state, and the bridge into the guest's linear memory.

use crate::convert::{canonical, lemma_value_round_trip, text_of, FromBytes, ToBytes};
use crate::engine::{written_to, Exchange, Guest, Reply};
use crate::error::BridgeError;
use crate::handle::{lemma_replaced_then_read, offset_of, raw_of, MemoryHandle, Val};
use crate::limiter::{after_memory_growth, page_bytes, table_growth_allowed, MemoryLimiter};
use crate::manifest::{Manifest, ManifestView};
use crate::text_map::{pairs_of, TextMap};
use vstd::prelude::*;
use vstd::string::StringSliceAdditionalSpecFns;
use vstd::utf8::{decode_utf8, valid_utf8};

verus! {

/// What a [`Wasi`] holds.
pub struct WasiView {
    pub env: Seq<(Seq<char>, Seq<char>)>,
    pub preopens: Seq<(Seq<char>, Seq<char>)>,
    pub inherit_output: bool,
}

/// What the sandbox of a plugin is to be built from.
#[derive(Clone, Debug)]
pub struct Wasi {
    /// The environment variables of the guest, each with its value.
    pub env: Vec<(String, String)>,
    /// The directories to open for the guest: the path on the host, and the
    /// path under which the guest sees it.
    pub preopens: Vec<(String, String)>,
    /// Whether the guest writes to the host's standard output and error.
    pub inherit_output: bool,
}

impl View for Wasi {
    type V = WasiView;

    open spec fn view(&self) -> WasiView {
        WasiView {
            env: pairs_of(self.env@),
            preopens: pairs_of(self.preopens@),
            inherit_output: self.inherit_output,
        }
    }
}

/// What a [`CurrentPlugin`] holds. Of the limiter it holds the bytes that are
/// left and the whole budget.
pub struct CurrentPluginView {
    pub vars: Map<Seq<char>, Seq<u8>>,
    pub manifest: ManifestView,
    pub wasi: Option<WasiView>,
    pub http_status: u16,
    pub available_pages: Option<u32>,
    pub budget: Option<(nat, nat)>,
}

/// The state of one plugin instance that host functions work on.
#[derive(Debug)]
pub struct CurrentPlugin {
    vars: TextMap<Vec<u8>>,
    manifest: Manifest,
    wasi: Option<Wasi>,
    http_status: u16,
    available_pages: Option<u32>,
    memory_limiter: Option<MemoryLimiter>,
}

/// The sandbox that `manifest` asks for: its config as the environment, its
/// allowed paths as the directories, each in the order in which it holds them.
pub open spec fn sandbox_of(
    config: Seq<(Seq<char>, Seq<char>)>,
    paths: Option<Seq<(Seq<char>, Seq<char>)>>,
    inherit_output: bool,
) -> WasiView {
    WasiView {
        env: config,
        preopens: match paths {
            Some(p) => p,
            None => Seq::empty(),
        },
        inherit_output,
    }
}

/// The budget of a limiter for `pages` pages that has granted nothing yet.
pub open spec fn full_budget(pages: Option<u32>) -> Option<(nat, nat)> {
    match pages {
        Some(p) => Some((page_bytes(p as nat), page_bytes(p as nat))),
        None => None,
    }
}

/// The entries of `map` as a list, in the order in which the map holds them.
fn entries_of(map: &TextMap<String>) -> (list: Vec<(String, String)>)
    ensures
        pairs_of(list@) == map.pairs(),
{
    let mut list: Vec<(String, String)> = Vec::new();
    let n = map.len();
    let mut i: usize = 0;
    while i < n
        invariant
            i <= n,
            n == map.pairs().len(),
            pairs_of(list@) == map.pairs().subrange(0, i as int),
        decreases n - i,
    {
        let key = map.key_at(i).clone();
        let value = map.value_at(i).clone();
        let ghost before = pairs_of(list@);
        list.push((key, value));
        assert(pairs_of(list@) == before.push((key@, value@)));
        assert(map.pairs().subrange(0, i + 1) == map.pairs().subrange(0, i as int).push(
            map.pairs()[i as int],
        ));
        i += 1;
    }
    assert(map.pairs().subrange(0, n as int) == map.pairs());
    list
}

/// The request for the length of the block at `offs`, with its reply.
pub open spec fn length_call(offs: u64, reply: Reply) -> Exchange {
    Exchange::Call { name: "extism_length"@, args: seq![raw_of(offs)], results: 1, reply }
}

/// The request for a block of `n` bytes, with its reply.
pub open spec fn alloc_call(n: u64, reply: Reply) -> Exchange {
    Exchange::Call { name: "extism_alloc"@, args: seq![raw_of(n)], results: 1, reply }
}

/// The value that the block stands for in a memory that held `data`, or why
/// there is none.
pub open spec fn value_in<V: FromBytes>(handle: MemoryHandle, data: Option<Seq<u8>>) -> Result<
    V::V,
    BridgeError,
> {
    match data {
        None => Err(BridgeError::MissingAbiExport),
        Some(d) => if !handle.fits(d.len()) {
            Err(BridgeError::InvalidMemoryAccess)
        } else {
            match V::decoding(handle.bytes_in(d)) {
                Some(v) => Ok(v),
                None => Err(BridgeError::Decode),
            }
        },
    }
}

/// Whether the result `r` is the value `expected`, or the error that stands
/// in its place.
pub open spec fn gives<V: View>(r: Result<V, BridgeError>, expected: Result<V::V, BridgeError>) -> bool {
    match r {
        Ok(x) => expected == Ok::<V::V, BridgeError>(x@),
        Err(e) => expected == Err::<V::V, BridgeError>(e),
    }
}

/// The handle that comes of copying `bytes` over the block in a guest whose
/// memory held `data`.
pub open spec fn kept(handle: MemoryHandle, data: Option<Seq<u8>>, bytes: Seq<u8>) -> Result<
    MemoryHandle,
    BridgeError,
> {
    match handle.stored_in(data, bytes) {
        Ok(_) => Ok(handle),
        Err(e) => Err(e),
    }
}

/// The request to free the block at `offs`, with its reply.
pub open spec fn free_call(offs: u64, reply: Reply) -> Exchange {
    Exchange::Call { name: "extism_free"@, args: seq![raw_of(offs)], results: 0, reply }
}

/// The request for the offset of the pending error, with its reply.
pub open spec fn error_get_call(reply: Reply) -> Exchange {
    Exchange::Call { name: "extism_error_get"@, args: Seq::empty(), results: 1, reply }
}

/// The request to set the pending error to none, with its reply.
pub open spec fn error_clear_call(reply: Reply) -> Exchange {
    Exchange::Call { name: "extism_error_set"@, args: seq![0i64], results: 0, reply }
}

/// The text of the block in a memory that held `data`, or why there is none.
pub open spec fn text_in(handle: MemoryHandle, data: Option<Seq<u8>>) -> Result<
    Seq<char>,
    BridgeError,
> {
    match data {
        None => Err(BridgeError::MissingAbiExport),
        Some(d) => if !handle.fits(d.len()) {
            Err(BridgeError::InvalidMemoryAccess)
        } else if !valid_utf8(handle.bytes_in(d)) {
            Err(BridgeError::Decode)
        } else {
            Ok(decode_utf8(handle.bytes_in(d)))
        },
    }
}

/// What the exchanges about a pending error amount to: where the guest keeps
/// the error, given its reply `first` to the request for the offset and its
/// reply `second` to the request for the length at that offset.
pub open spec fn position_of(first: Reply, second: Reply) -> Result<(u64, u64), BridgeError> {
    match first.first_value() {
        Err(e) => Err(e),
        Ok(raw) => match second.as_length() {
            Err(e) => Err(e),
            Ok(length) => Ok((offset_of(raw), length)),
        },
    }
}

impl Reply {
    /// The first result of the call as a 64-bit integer. A guest that does
    /// not give one lacks the export that was asked for.
    pub open spec fn first_value(self) -> Result<i64, BridgeError> {
        match self {
            Reply::Absent => Err(BridgeError::MissingAbiExport),
            Reply::Unfit => Err(BridgeError::MissingAbiExport),
            Reply::Failed(e) => Err(BridgeError::CallFailed(e)),
            Reply::Returned(values) => if values@.len() > 0 && values@[0] is Some {
                Ok(values@[0]->0)
            } else {
                Err(BridgeError::MissingAbiExport)
            },
        }
    }

    /// The length that the reply reports.
    pub open spec fn as_length(self) -> Result<u64, BridgeError> {
        match self.first_value() {
            Ok(raw) => Ok(offset_of(raw)),
            Err(e) => Err(e),
        }
    }

    /// The handle to the block at `offs` for which the reply reports the
    /// length: none where it reports zero.
    pub open spec fn as_handle(self, offs: u64) -> Result<Option<MemoryHandle>, BridgeError> {
        match self.as_length() {
            Ok(length) => Ok(MemoryHandle::located(offs, length)),
            Err(e) => Err(e),
        }
    }

    /// The block of `n` bytes that the reply grants: at the offset that it
    /// gives, and none where that offset is zero.
    pub open spec fn as_allocation(self, n: u64) -> Result<MemoryHandle, BridgeError> {
        match self.first_value() {
            Err(e) => Err(e),
            Ok(raw) => match MemoryHandle::allocated(n, offset_of(raw)) {
                Some(handle) => Ok(handle),
                None => Err(BridgeError::OutOfMemory),
            },
        }
    }

    /// Whether the reply reports a pending error: an offset other than zero.
    pub open spec fn as_flag(self) -> Result<bool, BridgeError> {
        match self.first_value() {
            Ok(raw) => Ok(raw != 0),
            Err(e) => Err(e),
        }
    }

    /// Whether the call was done.
    pub open spec fn as_done(self) -> Result<(), BridgeError> {
        match self {
            Reply::Absent => Err(BridgeError::MissingAbiExport),
            Reply::Unfit => Err(BridgeError::MissingAbiExport),
            Reply::Failed(e) => Err(BridgeError::CallFailed(e)),
            Reply::Returned(_) => Ok(()),
        }
    }

    /// Whether the pending error is cleared: also where the guest has no
    /// function to set one, and so none to clear.
    pub open spec fn as_cleared(self) -> Result<(), BridgeError> {
        match self {
            Reply::Absent => Ok(()),
            _ => self.as_done(),
        }
    }

    /// The first result of the call as a 64-bit integer.
    pub fn first(self) -> (r: Result<i64, BridgeError>)
        ensures
            r == self.first_value(),
    {
        match self {
            Reply::Absent => Err(BridgeError::MissingAbiExport),
            Reply::Unfit => Err(BridgeError::MissingAbiExport),
            Reply::Failed(e) => Err(BridgeError::CallFailed(e)),
            Reply::Returned(values) => {
                if values.len() == 0 {
                    return Err(BridgeError::MissingAbiExport);
                }
                match values[0] {
                    Some(x) => Ok(x),
                    None => Err(BridgeError::MissingAbiExport),
                }
            },
        }
    }

    /// Whether the call was done.
    pub fn done(self) -> (r: Result<(), BridgeError>)
        ensures
            r == self.as_done(),
    {
        match self {
            Reply::Absent => Err(BridgeError::MissingAbiExport),
            Reply::Unfit => Err(BridgeError::MissingAbiExport),
            Reply::Failed(e) => Err(BridgeError::CallFailed(e)),
            Reply::Returned(_) => Ok(()),
        }
    }

    /// Whether the pending error is cleared.
    pub fn cleared(self) -> (r: Result<(), BridgeError>)
        ensures
            r == self.as_cleared(),
    {
        match self {
            Reply::Absent => Ok(()),
            other => other.done(),
        }
    }
}

impl BridgeError {
    /// The guest does not offer what the bridge needs, or a call into it failed.
    pub open spec fn is_abi_failure(&self) -> bool {
        self is MissingAbiExport || self is CallFailed
    }

    /// The guest does not offer what the bridge needs, a call into it failed,
    /// or a handle does not lie inside its memory.
    pub open spec fn is_access_failure(&self) -> bool {
        self is MissingAbiExport || self is CallFailed || self is InvalidMemoryAccess
    }
}

impl View for CurrentPlugin {
    type V = CurrentPluginView;

    closed spec fn view(&self) -> CurrentPluginView {
        CurrentPluginView {
            vars: self.vars@,
            manifest: self.manifest@,
            wasi: match self.wasi {
                Some(w) => Some(w@),
                None => None,
            },
            http_status: self.http_status,
            available_pages: self.available_pages,
            budget: match self.memory_limiter {
                Some(l) => Some((l.left(), l.budget())),
                None => None,
            },
        }
    }
}

impl CurrentPlugin {
    /// The state of a fresh instance of the plugin that `manifest` describes.
    ///
    /// With `wasi` set, the instance gets a sandbox: the manifest's config
    /// becomes its environment and the manifest's allowed paths become its
    /// directories; `inherit_output` lets it write to the host's standard
    /// output and error. With `available_pages` given, the instance gets a
    /// limiter with a budget of that many pages; without, it gets none.
    pub fn new(
        manifest: Manifest,
        wasi: bool,
        available_pages: Option<u32>,
        inherit_output: bool,
    ) -> (plugin: Self)
        ensures
            plugin@ == (CurrentPluginView {
                vars: Map::empty(),
                manifest: manifest@,
                wasi: if wasi {
                    Some(
                        sandbox_of(
                            manifest.config.pairs(),
                            match manifest.allowed_paths {
                                Some(p) => Some(p.pairs()),
                                None => None,
                            },
                            inherit_output,
                        ),
                    )
                } else {
                    None
                },
                http_status: 0,
                available_pages,
                budget: full_budget(available_pages),
            }),
    {
        let wasi = if wasi {
            let env = entries_of(&manifest.config);
            let preopens = match &manifest.allowed_paths {
                Some(paths) => entries_of(paths.as_map()),
                None => Vec::new(),
            };
            assert(manifest.allowed_paths is None ==> pairs_of(preopens@) == Seq::<
                (Seq<char>, Seq<char>),
            >::empty());
            Some(Wasi { env, preopens, inherit_output })
        } else {
            None
        };
        let memory_limiter = match available_pages {
            Some(pages) => Some(MemoryLimiter::new(pages)),
            None => None,
        };
        CurrentPlugin {
            wasi,
            manifest,
            http_status: 0,
            vars: TextMap::new(),
            available_pages,
            memory_limiter,
        }
    }

    /// The plugin's variables.
    pub fn vars(&self) -> (vars: &TextMap<Vec<u8>>)
        ensures
            vars@ == self@.vars,
    {
        &self.vars
    }

    /// The plugin's variables, for changing them in place.
    pub fn vars_mut(&mut self) -> (vars: &mut TextMap<Vec<u8>>)
        ensures
            vars@ == old(self)@.vars,
            final(self)@ == (CurrentPluginView { vars: final(vars)@, ..old(self)@ }),
    {
        &mut self.vars
    }

    /// The manifest that the plugin was made from.
    pub fn manifest(&self) -> (manifest: &Manifest)
        ensures
            manifest@ == self@.manifest,
    {
        &self.manifest
    }

    /// What the plugin's sandbox is to be built from, if it has one.
    pub fn wasi(&self) -> (wasi: Option<&Wasi>)
        ensures
            match wasi {
                Some(w) => self@.wasi == Some(w@),
                None => self@.wasi is None,
            },
    {
        self.wasi.as_ref()
    }

    /// The status of the last HTTP request made for the guest.
    pub fn http_status(&self) -> (status: u16)
        ensures
            status == self@.http_status,
    {
        self.http_status
    }

    /// Records the status of an HTTP request made for the guest.
    pub fn set_http_status(&mut self, status: u16)
        ensures
            final(self)@ == (CurrentPluginView { http_status: status, ..old(self)@ }),
    {
        self.http_status = status;
    }

    /// The most pages that the guest's memory may grow by, if it is bounded.
    pub fn available_pages(&self) -> (pages: Option<u32>)
        ensures
            pages == self@.available_pages,
    {
        self.available_pages
    }

    /// The bytes that the limiter may still grant, if there is a limiter.
    pub fn bytes_left(&self) -> (left: Option<u64>)
        ensures
            match left {
                Some(n) => self@.budget matches Some(b) && b.0 == n,
                None => self@.budget is None,
            },
    {
        match &self.memory_limiter {
            Some(limiter) => Some(limiter.bytes_left()),
            None => None,
        }
    }

    /// Gives the limiter its whole budget back, as for a fresh instance.
    pub fn reset_limiter(&mut self)
        ensures
            final(self)@ == (CurrentPluginView {
                budget: match old(self)@.budget {
                    Some(b) => Some((b.1, b.1)),
                    None => None,
                },
                ..old(self)@
            }),
    {
        let mut limiter = None;
        core::mem::swap(&mut self.memory_limiter, &mut limiter);
        let mut limiter = match limiter {
            Some(mut l) => {
                l.reset();
                Some(l)
            },
            None => None,
        };
        core::mem::swap(&mut self.memory_limiter, &mut limiter);
    }

    /// Decides a request of the guest to grow a linear memory from `current`
    /// to `desired` bytes. Without a limiter every request is granted; with
    /// one, the limiter decides and takes what it grants out of its budget.
    pub fn memory_growing(&mut self, current: usize, desired: usize, maximum: Option<usize>) -> (r:
        Result<bool, BridgeError>)
        ensures
            match old(self)@.budget {
                None => r == Ok::<bool, BridgeError>(true) && final(self)@ == old(self)@,
                Some(b) => match after_memory_growth(
                    b.0,
                    current as nat,
                    desired as nat,
                    match maximum {
                        Some(m) => Some(m as nat),
                        None => None,
                    },
                ) {
                    Some(rest) => r == Ok::<bool, BridgeError>(true) && final(self)@ == (
                    CurrentPluginView { budget: Some((rest, b.1)), ..old(self)@ }),
                    None => r == Err::<bool, BridgeError>(BridgeError::OutOfMemory) && final(self)@
                        == old(self)@,
                },
            },
    {
        let mut limiter = None;
        core::mem::swap(&mut self.memory_limiter, &mut limiter);
        let (r, mut limiter) = match limiter {
            Some(mut l) => {
                let r = l.memory_growing(current, desired, maximum);
                (r, Some(l))
            },
            None => (Ok(true), None),
        };
        core::mem::swap(&mut self.memory_limiter, &mut limiter);
        r
    }

    /// Decides a request of the guest to grow a table to `desired` elements:
    /// granted unless the table has a maximum below that. The budget stays
    /// as it is.
    pub fn table_growing(&mut self, current: usize, desired: usize, maximum: Option<usize>) -> (r:
        Result<bool, BridgeError>)
        ensures
            final(self)@ == old(self)@,
            r == Ok::<bool, BridgeError>(
                table_growth_allowed(
                    desired as nat,
                    match maximum {
                        Some(m) => Some(m as nat),
                        None => None,
                    },
                ),
            ),
    {
        if let Some(max) = maximum {
            return Ok(desired <= max);
        }
        Ok(true)
    }

    /// The number of bytes in the block at `offs`, as the guest reports it:
    /// the guest is asked once, and its reply is the length.
    pub fn memory_length<T: 'static>(&mut self, guest: &mut Guest<'_, '_, T>, offs: u64) -> (r: Result<
        u64,
        BridgeError,
    >)
        ensures
            *final(self) == *old(self),
            r matches Err(e) ==> e.is_abi_failure(),
            ({
                let reply = final(guest).exchanges().last()->reply;
                final(guest).exchanges() == old(guest).exchanges().push(length_call(offs, reply))
                    && r == reply.as_length()
            }),
    {
        let mut args: Vec<i64> = Vec::new();
        args.push(offs as i64);
        assert(args@ =~= seq![raw_of(offs)]);
        let reply = guest.ask("extism_length", &args, 1);
        let raw = reply.first()?;
        Ok(raw as u64)
    }

    /// The handle to the block at `offs`: the guest is asked once for the
    /// block's length, and where it reports zero there is no handle.
    pub fn memory_handle<T: 'static>(&mut self, guest: &mut Guest<'_, '_, T>, offs: u64) -> (r: Result<
        Option<MemoryHandle>,
        BridgeError,
    >)
        ensures
            *final(self) == *old(self),
            match r {
                Ok(Some(handle)) => handle.offset == offs && handle.length != 0,
                Ok(None) => true,
                Err(e) => e.is_abi_failure(),
            },
            ({
                let reply = final(guest).exchanges().last()->reply;
                final(guest).exchanges() == old(guest).exchanges().push(length_call(offs, reply))
                    && r == reply.as_handle(offs)
            }),
    {
        let len = self.memory_length(guest, offs)?;
        Ok(MemoryHandle::from_length(offs, len))
    }

    /// The bytes of the block in the guest's memory, for reading and writing
    /// in place. The memory is looked at once.
    pub fn memory_bytes<'b, T: 'static>(
        &mut self,
        guest: &'b mut Guest<'_, '_, T>,
        handle: MemoryHandle,
    ) -> (r: Result<&'b mut [u8], BridgeError>)
        ensures
            *final(self) == *old(self),
            match r {
                Ok(bytes) => bytes@.len() == handle.length,
                Err(e) => e is MissingAbiExport || e is InvalidMemoryAccess,
            },
            ({
                let data = final(guest).exchanges().last()->data;
                final(guest).exchanges() == old(guest).exchanges().push(Exchange::Memory { data })
                    && match data {
                    None => r matches Err(e) && e == BridgeError::MissingAbiExport,
                    Some(d) => match r {
                        Ok(bytes) => handle.fits(d.len()) && bytes@ == handle.bytes_in(d),
                        Err(e) => !handle.fits(d.len()) && e == BridgeError::InvalidMemoryAccess,
                    },
                }
            }),
    {
        match guest.memory() {
            Some(data) => handle.slice_mut(data),
            None => Err(BridgeError::MissingAbiExport),
        }
    }

    /// The block in the guest's memory as text. The memory is looked at once.
    pub fn memory_str<'b, T: 'static>(
        &mut self,
        guest: &'b mut Guest<'_, '_, T>,
        handle: MemoryHandle,
    ) -> (r: Result<&'b str, BridgeError>)
        ensures
            *final(self) == *old(self),
            match r {
                Ok(text) => text.spec_bytes().len() == handle.length && valid_utf8(
                    text.spec_bytes(),
                ),
                Err(e) => e is MissingAbiExport || e is InvalidMemoryAccess || e is Decode,
            },
            ({
                let data = final(guest).exchanges().last()->data;
                final(guest).exchanges() == old(guest).exchanges().push(Exchange::Memory { data })
                    && match r {
                    Ok(text) => text_in(handle, data) == Ok::<Seq<char>, BridgeError>(text@),
                    Err(e) => text_in(handle, data) == Err::<Seq<char>, BridgeError>(e),
                }
            }),
    {
        let bytes = self.memory_bytes(guest, handle)?;
        text_of(bytes)
    }

    /// Asks the guest's allocator for a block of `n` bytes. For no bytes the
    /// guest is not asked: the handle that stands for no block is returned.
    /// Otherwise the guest is asked once, and an answer of zero means that it
    /// has no block to give.
    pub fn memory_alloc<T: 'static>(&mut self, guest: &mut Guest<'_, '_, T>, n: u64) -> (r: Result<
        MemoryHandle,
        BridgeError,
    >)
        ensures
            *final(self) == *old(self),
            n == 0 ==> r == Ok::<MemoryHandle, BridgeError>(MemoryHandle::sentinel()) && *final(guest) == *old(guest),
            n != 0 ==> match r {
                Ok(handle) => handle.length == n && handle.offset != 0,
                Err(e) => e.is_abi_failure() || e is OutOfMemory,
            },
            n != 0 ==> ({
                let reply = final(guest).exchanges().last()->reply;
                final(guest).exchanges() == old(guest).exchanges().push(alloc_call(n, reply)) && r
                    == reply.as_allocation(n)
            }),
    {
        if n == 0 {
            return Ok(MemoryHandle::null());
        }
        let mut args: Vec<i64> = Vec::new();
        args.push(n as i64);
        assert(args@ =~= seq![raw_of(n)]);
        let reply = guest.ask("extism_alloc", &args, 1);
        let raw = reply.first()?;
        MemoryHandle::from_allocation(n, raw as u64)
    }

    /// Hands the block back to the guest's allocator: the guest is asked
    /// once to free the block at the handle's offset.
    pub fn memory_free<T: 'static>(&mut self, guest: &mut Guest<'_, '_, T>, handle: MemoryHandle) -> (r:
        Result<(), BridgeError>)
        ensures
            *final(self) == *old(self),
            r matches Err(e) ==> e.is_abi_failure(),
            ({
                let reply = final(guest).exchanges().last()->reply;
                final(guest).exchanges() == old(guest).exchanges().push(
                    free_call(handle.offset, reply),
                ) && r == reply.as_done()
            }),
    {
        let mut args: Vec<i64> = Vec::new();
        args.push(handle.offset as i64);
        assert(args@ =~= seq![raw_of(handle.offset)]);
        let reply = guest.ask("extism_free", &args, 0);
        reply.done()
    }

    /// Writes `value` into a fresh block of the guest's memory that is as
    /// long as the value's encoding. A value without an encoding is refused
    /// before the guest is asked for anything. For an encoding of one byte
    /// or more the guest is asked once for a block of that length; then the
    /// memory is looked at once and the encoding copied over the block. An
    /// empty encoding takes no block.
    pub fn memory_new<T: 'static, V: ToBytes>(&mut self, guest: &mut Guest<'_, '_, T>, value: V) -> (r:
        Result<MemoryHandle, BridgeError>)
        ensures
            *final(self) == *old(self),
            V::encoding(value@) is None ==> r == Err::<MemoryHandle, BridgeError>(
                BridgeError::Decode,
            ) && *final(guest) == *old(guest),
            V::encoding(value@) matches Some(bytes) ==> match r {
                Ok(handle) => handle.length == bytes.len() && (handle.offset == 0 <==> bytes.len()
                    == 0),
                Err(e) => e.is_access_failure() || e is OutOfMemory,
            },
            V::encoding(value@) matches Some(bytes) ==> ({
                let before = old(guest).exchanges();
                let after = final(guest).exchanges();
                if bytes.len() == 0 {
                    let data = after[before.len() as int]->data;
                    after == before + written_to(MemoryHandle::sentinel(), data, bytes) && r
                        == kept(MemoryHandle::sentinel(), data, bytes)
                } else {
                    let reply = after[before.len() as int]->reply;
                    let data = after[before.len() as int + 1]->data;
                    bytes.len() <= u64::MAX && match reply.as_allocation(bytes.len() as u64) {
                        Err(e) => after == before.push(alloc_call(bytes.len() as u64, reply)) && r
                            == Err::<MemoryHandle, BridgeError>(e),
                        Ok(handle) => after == before.push(alloc_call(bytes.len() as u64, reply))
                            + written_to(handle, data, bytes) && r == kept(handle, data, bytes),
                    }
                }
            }),
    {
        let data = value.to_bytes()?;
        let ghost before = guest.exchanges();
        let handle = self.memory_alloc(guest, data.len() as u64)?;
        let ghost asked = guest.exchanges();
        let r = guest.write(handle, data.as_slice());
        proof {
            let after = guest.exchanges();
            let looked = after[asked.len() as int]->data;
            assert(after == asked + written_to(handle, looked, data@));
            assert(written_to(handle, looked, data@).len() >= 1);
            if data@.len() != 0 {
                assert(asked.len() == before.len() + 1);
                assert(after[before.len() as int] == asked[before.len() as int]);
            }
        }
        match r {
            Ok(_) => Ok(handle),
            Err(e) => Err(e),
        }
    }

    /// The value that the block in the guest's memory stands for. The memory
    /// is looked at once.
    pub fn memory_get<T: 'static, V: FromBytes>(
        &mut self,
        guest: &mut Guest<'_, '_, T>,
        handle: MemoryHandle,
    ) -> (r: Result<V, BridgeError>)
        ensures
            *final(self) == *old(self),
            match r {
                Ok(value) => exists|bytes: Seq<u8>|
                    bytes.len() == handle.length && #[trigger] V::decoding(bytes) == Some(value@),
                Err(e) => e is MissingAbiExport || e is InvalidMemoryAccess || e is Decode,
            },
            ({
                let data = final(guest).exchanges().last()->data;
                final(guest).exchanges() == old(guest).exchanges().push(Exchange::Memory { data })
                    && gives(r, value_in::<V>(handle, data))
            }),
    {
        let data = self.memory_bytes(guest, handle)?;
        V::from_bytes(data)
    }

    /// The value that stands at the offset which the call value `offs` holds.
    /// A call value that is no 64-bit integer counts as offset zero. The
    /// guest is asked once for the length of the block at the offset; where
    /// it reports zero the offset is refused, and otherwise the memory is
    /// looked at once.
    pub fn memory_get_val<T: 'static, V: FromBytes>(
        &mut self,
        guest: &mut Guest<'_, '_, T>,
        offs: &Val,
    ) -> (r: Result<V, BridgeError>)
        ensures
            *final(self) == *old(self),
            match r {
                Ok(value) => exists|bytes: Seq<u8>|
                    bytes.len() != 0 && #[trigger] V::decoding(bytes) == Some(value@),
                Err(e) => e.is_access_failure() || e is Decode,
            },
            ({
                let before = old(guest).exchanges();
                let after = final(guest).exchanges();
                let at = offset_of(
                    match offs.as_i64() {
                        Some(raw) => raw,
                        None => 0,
                    },
                );
                let reply = after[before.len() as int]->reply;
                let data = after.last()->data;
                match reply.as_handle(at) {
                    Err(e) => after == before.push(length_call(at, reply)) && r == Err::<
                        V,
                        BridgeError,
                    >(e),
                    Ok(None) => after == before.push(length_call(at, reply)) && r == Err::<
                        V,
                        BridgeError,
                    >(BridgeError::InvalidMemoryAccess),
                    Ok(Some(handle)) => after == before.push(length_call(at, reply)).push(
                        Exchange::Memory { data },
                    ) && gives(r, value_in::<V>(handle, data)),
                }
            }),
    {
        let raw: i64 = match offs.i64() {
            Some(x) => x,
            None => 0,
        };
        match self.memory_handle(guest, raw as u64)? {
            Some(handle) => {
                let data = self.memory_bytes(guest, handle)?;
                V::from_bytes(data)
            },
            None => Err(BridgeError::InvalidMemoryAccess),
        }
    }

    /// The handle to the block at the offset which the call value `offs`
    /// holds. A call value that is no 64-bit integer gives no handle, and the
    /// guest is not asked. For an offset the guest is asked once for the
    /// length of the block there, and where it reports zero there is no handle.
    pub fn memory_from_val<T: 'static>(&mut self, guest: &mut Guest<'_, '_, T>, offs: &Val) -> (r: Result<
        Option<MemoryHandle>,
        BridgeError,
    >)
        ensures
            *final(self) == *old(self),
            offs.as_i64() is None ==> r == Ok::<Option<MemoryHandle>, BridgeError>(None) && *final(guest) == *old(guest),
            offs.as_i64() matches Some(raw) ==> match r {
                Ok(Some(handle)) => handle.offset == offset_of(raw) && handle.length != 0,
                Ok(None) => true,
                Err(e) => e.is_abi_failure(),
            },
            offs.as_i64() matches Some(raw) ==> ({
                let reply = final(guest).exchanges().last()->reply;
                final(guest).exchanges() == old(guest).exchanges().push(
                    length_call(offset_of(raw), reply),
                ) && r == reply.as_handle(offset_of(raw))
            }),
    {
        let raw = match offs.i64() {
            Some(x) => x,
            None => {
                return Ok(None);
            },
        };
        let length = self.memory_length(guest, raw as u64)?;
        Ok(MemoryHandle::from_val(offs, length))
    }

    /// The call value that stands for the handle: its offset.
    pub fn memory_to_val(&mut self, handle: MemoryHandle) -> (value: Val)
        ensures
            *final(self) == *old(self),
            value == Val::I64(raw_of(handle.offset)),
    {
        handle.to_val()
    }

    /// Clears the guest's pending error: the guest is asked once to set its
    /// error to none. A guest that has no function to set an error has none
    /// to clear, and that counts as done.
    pub fn clear_error<T: 'static>(&mut self, guest: &mut Guest<'_, '_, T>) -> (r: Result<(), BridgeError>)
        ensures
            *final(self) == *old(self),
            r matches Err(e) ==> e.is_abi_failure(),
            ({
                let reply = final(guest).exchanges().last()->reply;
                final(guest).exchanges() == old(guest).exchanges().push(error_clear_call(reply))
                    && r == reply.as_cleared()
            }),
    {
        let mut args: Vec<i64> = Vec::new();
        args.push(0);
        assert(args@ =~= seq![0i64]);
        let reply = guest.ask("extism_error_set", &args, 0);
        reply.cleared()
    }

    /// Whether the guest has a pending error: the guest is asked once where
    /// it keeps the error, and an offset other than zero means that it has one.
    pub fn has_error<T: 'static>(&mut self, guest: &mut Guest<'_, '_, T>) -> (r: Result<bool, BridgeError>)
        ensures
            *final(self) == *old(self),
            r matches Err(e) ==> e.is_abi_failure(),
            ({
                let reply = final(guest).exchanges().last()->reply;
                final(guest).exchanges() == old(guest).exchanges().push(error_get_call(reply))
                    && r == reply.as_flag()
            }),
    {
        let args: Vec<i64> = Vec::new();
        let reply = guest.ask("extism_error_get", &args, 1);
        let raw = reply.first()?;
        Ok(raw != 0)
    }

    /// Where the guest keeps its pending error: the offset, and the length
    /// that the guest reports for it. The guest is asked for the offset, and
    /// where it gives one, for the length of the block there.
    pub fn get_error_position<T: 'static>(&mut self, guest: &mut Guest<'_, '_, T>) -> (r: Result<
        (u64, u64),
        BridgeError,
    >)
        ensures
            *final(self) == *old(self),
            r matches Err(e) ==> e.is_abi_failure(),
            ({
                let before = old(guest).exchanges();
                let after = final(guest).exchanges();
                let first = after[before.len() as int]->reply;
                let second = after.last()->reply;
                match first.first_value() {
                    Err(e) => after == before.push(error_get_call(first)) && r == Err::<
                        (u64, u64),
                        BridgeError,
                    >(e),
                    Ok(raw) => after == before.push(error_get_call(first)).push(
                        length_call(offset_of(raw), second),
                    ) && r == position_of(first, second),
                }
            }),
    {
        let args: Vec<i64> = Vec::new();
        let reply = guest.ask("extism_error_get", &args, 1);
        let raw = reply.first()?;
        let offs = raw as u64;
        let length = self.memory_length(guest, offs)?;
        Ok((offs, length))
    }

    /// The text of the guest's pending error. The guest is asked where it
    /// keeps the error; there is none where it keeps it at offset zero, and
    /// none where the block there cannot be read as text.
    pub fn get_error<'b, T: 'static>(&mut self, guest: &'b mut Guest<'_, '_, T>) -> (r: Result<
        Option<&'b str>,
        BridgeError,
    >)
        ensures
            *final(self) == *old(self),
            match r {
                Ok(Some(text)) => valid_utf8(text.spec_bytes()),
                Ok(None) => true,
                Err(e) => e.is_abi_failure(),
            },
            ({
                let before = old(guest).exchanges();
                let after = final(guest).exchanges();
                let first = after[before.len() as int]->reply;
                let second = after[before.len() as int + 1]->reply;
                let data = after.last()->data;
                match first.first_value() {
                    Err(e) => after == before.push(error_get_call(first)) && r == Err::<
                        Option<&'b str>,
                        BridgeError,
                    >(e),
                    Ok(raw) => {
                        let asked = before.push(error_get_call(first)).push(
                            length_call(offset_of(raw), second),
                        );
                        match position_of(first, second) {
                            Err(e) => after == asked && r == Err::<Option<&'b str>, BridgeError>(e),
                            Ok((offs, length)) => if offs == 0 {
                                after == asked && r matches Ok(None)
                            } else {
                                after == asked.push(Exchange::Memory { data }) && match r {
                                    Ok(Some(text)) => text_in(MemoryHandle { offset: offs, length }, data)
                                        == Ok::<Seq<char>, BridgeError>(text@),
                                    Ok(None) => text_in(MemoryHandle { offset: offs, length }, data)
                                        is Err,
                                    Err(_) => false,
                                }
                            },
                        }
                    },
                }
            }),
    {
        let (offs, length) = self.get_error_position(guest)?;
        match MemoryHandle::for_error(offs, length) {
            Some(handle) => match self.memory_str(guest, handle) {
                Ok(text) => Ok(Some(text)),
                Err(_) => Ok(None),
            },
            None => Ok(None),
        }
    }
}

/// A value that was written over a block is the value read from the block,
/// as long as the memory still is what the write left: for every type whose
/// values are what their encoding decodes to.
pub proof fn lemma_written_value_is_read<V: ToBytes + FromBytes>(
    value: V::V,
    handle: MemoryHandle,
    held: Seq<u8>,
)
    requires
        canonical::<V>(),
        V::encoding(value) is Some,
        handle.takes(held.len(), V::encoding(value)->0.len()),
    ensures
        value_in::<V>(handle, Some(handle.replaced(held, V::encoding(value)->0))) == Ok::<
            V::V,
            BridgeError,
        >(value),
{
    lemma_value_round_trip::<V>(value, handle, held);
    lemma_replaced_then_read(handle, held, V::encoding(value)->0);
}

} // verus!
