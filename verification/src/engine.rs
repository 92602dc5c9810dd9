//! The engine that runs the guest, as far as the bridge uses it.
//!
//! What a guest answers cannot be foretold. What can be said is which
//! requests were handed to it and what came of each answer, so an access to
//! a guest keeps a record of its exchanges, and the bridge's contracts speak
//! of that record.
//!
//! The functions marked `external_body` hand one request each to the engine.
//! They have no proof: their contracts say what the engine's documentation
//! promises of the answer, and of what a guest does during a call they
//! promise nothing.

use crate::error::BridgeError;
use crate::handle::MemoryHandle;
use vstd::prelude::*;
use vstd::string::StringSliceAdditionalSpecFns;
use vstd::utf8::valid_utf8;

verus! {

/// `wasmtime::Caller`: what the engine hands to a host function while a
/// guest runs it: the store, and the instance that called. Nothing is known
/// of what it holds.
#[verifier::external_type_specification]
#[verifier::external_body]
#[verifier::reject_recursive_types(T)]
pub struct ExCaller<'a, T: 'static>(wasmtime::Caller<'a, T>);

/// `wasmtime::Extern`: an item that a module imports or exports.
#[verifier::external_type_specification]
#[verifier::external_body]
pub struct ExExtern(wasmtime::Extern);

/// `wasmtime::Func`: a function that lives in a store.
#[verifier::external_type_specification]
#[verifier::external_body]
pub struct ExFunc(wasmtime::Func);

/// `wasmtime::Memory`: a linear memory that lives in a store.
#[verifier::external_type_specification]
#[verifier::external_body]
pub struct ExMemory(wasmtime::Memory);

/// What came of asking a guest to run one of its functions.
#[derive(Debug)]
pub enum Reply {
    /// The guest exports nothing under the name.
    Absent,
    /// What the guest exports under the name is no function.
    Unfit,
    /// The engine failed the call: the function takes other arguments or
    /// gives another number of results, or the guest trapped.
    Failed(anyhow::Error),
    /// The function returned. Each result is the 64-bit integer that it
    /// holds, or none where it holds a value of another type.
    Returned(Vec<Option<i64>>),
}

/// One request that was handed to a guest, with what came of it.
pub enum Exchange {
    /// The guest was asked to run the function `name` with `args`, to give
    /// `results` results.
    Call { name: Seq<char>, args: Seq<i64>, results: nat, reply: Reply },
    /// The guest's linear memory was looked at. It held `data`; there is
    /// none where the guest exports no memory.
    Memory { data: Option<Seq<u8>> },
    /// Bytes were copied into the guest's linear memory, which held `left`
    /// after that.
    Write { left: Seq<u8> },
}

/// Access to the guest that is running a host function: what the engine
/// handed to that function, borrowed for as long as the access lasts.
///
/// Whatever is found through the access is an export of the instance that
/// called, and lives in the store that the access holds: the engine hands
/// out both together, and nothing else can make one. So what is found is
/// never used with a store that does not own it. A call into a guest that
/// never returns does not return either, unless the store interrupts it.
#[verifier::reject_recursive_types(T)]
pub struct Guest<'a, 'c, T: 'static> {
    caller: &'a mut wasmtime::Caller<'c, T>,
    record: Ghost<Seq<Exchange>>,
}

impl<'a, 'c, T: 'static> Guest<'a, 'c, T> {
    /// The exchanges with the guest that were made through this access, from
    /// the first to the last.
    pub closed spec fn exchanges(&self) -> Seq<Exchange> {
        self.record@
    }

    /// Access to the guest that `caller` stands for. There is none where the
    /// engine is set up for asynchronous calls. Through a fresh access
    /// nothing has been exchanged yet.
    pub fn new(caller: &'a mut wasmtime::Caller<'c, T>) -> (guest: Option<Self>)
        ensures
            guest matches Some(g) ==> g.exchanges() == Seq::<Exchange>::empty(),
    {
        if asynchronous(caller) {
            return None;
        }
        Some(Guest { caller, record: Ghost(Seq::empty()) })
    }

    /// Asks the guest to run the function that it exports as `name`, with the
    /// arguments `args` and room for `results` results, and records the
    /// exchange.
    pub(crate) fn ask(&mut self, name: &str, args: &Vec<i64>, results: usize) -> (reply: Reply)
        ensures
            final(self).exchanges() == old(self).exchanges().push(
                Exchange::Call { name: name@, args: args@, results: results as nat, reply },
            ),
            reply matches Reply::Returned(values) ==> values@.len() == results,
    {
        let reply = match find(self.caller, name) {
            Some(item) => match as_func(item) {
                Some(func) => match invoke(self.caller, &func, args, results) {
                    Ok(values) => Reply::Returned(values),
                    Err(e) => Reply::Failed(e),
                },
                None => Reply::Unfit,
            },
            None => Reply::Absent,
        };
        self.record = Ghost(
            self.record@.push(
                Exchange::Call { name: name@, args: args@, results: results as nat, reply },
            ),
        );
        reply
    }

    /// The guest's whole linear memory as it is now, for reading and writing
    /// in place, or none where the guest exports no memory. The look is
    /// recorded with what the memory held.
    pub(crate) fn memory<'b>(&'b mut self) -> (data: Option<&'b mut [u8]>)
        ensures
            final(self).exchanges() == old(self).exchanges().push(
                Exchange::Memory {
                    data: match data {
                        Some(d) => Some(d@),
                        None => None,
                    },
                },
            ),
    {
        let memory = match find(self.caller, "memory") {
            Some(item) => as_memory(item),
            None => None,
        };
        match memory {
            Some(m) => {
                let data = contents(self.caller, &m);
                self.record = Ghost(self.record@.push(Exchange::Memory { data: Some(data@) }));
                Some(data)
            },
            None => {
                self.record = Ghost(self.record@.push(Exchange::Memory { data: None }));
                None
            },
        }
    }

    /// Copies `bytes` over the block in the guest's memory. The memory is
    /// looked at once, which is recorded; where the block lies inside it and
    /// is as long as `bytes`, the copy is made and recorded with what the
    /// memory holds after it.
    pub(crate) fn write(&mut self, handle: MemoryHandle, bytes: &[u8]) -> (r: Result<
        (),
        BridgeError,
    >)
        ensures
            ({
                let before = old(self).exchanges();
                let after = final(self).exchanges();
                let data = after[before.len() as int]->data;
                r == MemoryHandle::stored_in(handle, data, bytes@) && after == before + written_to(
                    handle,
                    data,
                    bytes@,
                )
            }),
    {
        let memory = match find(self.caller, "memory") {
            Some(item) => as_memory(item),
            None => None,
        };
        match memory {
            Some(m) => {
                let data = contents(self.caller, &m);
                let ghost held = data@;
                let r = handle.store(data, bytes);
                let ghost left = data@;
                proof {
                    let looked = self.record@.push(Exchange::Memory { data: Some(held) });
                    assert(looked[self.record@.len() as int]->data == Some(held));
                    if r is Ok {
                        let wrote = looked.push(Exchange::Write { left });
                        assert(wrote[self.record@.len() as int]->data == Some(held));
                        assert(wrote =~= self.record@ + written_to(handle, Some(held), bytes@));
                    } else {
                        assert(looked =~= self.record@ + written_to(handle, Some(held), bytes@));
                    }
                }
                self.record = Ghost(
                    if r is Ok {
                        self.record@.push(Exchange::Memory { data: Some(held) }).push(
                            Exchange::Write { left },
                        )
                    } else {
                        self.record@.push(Exchange::Memory { data: Some(held) })
                    },
                );
                r
            },
            None => {
                proof {
                    let looked = self.record@.push(Exchange::Memory { data: None });
                    assert(looked[self.record@.len() as int]->data == None::<Seq<u8>>);
                    assert(looked =~= self.record@ + written_to(handle, None, bytes@));
                }
                self.record = Ghost(self.record@.push(Exchange::Memory { data: None }));
                Err(BridgeError::MissingAbiExport)
            },
        }
    }
}

/// The exchanges that copying `bytes` over a block makes with a guest whose
/// memory held `data`: the look at the memory, and the write where it is made.
pub open spec fn written_to(handle: MemoryHandle, data: Option<Seq<u8>>, bytes: Seq<u8>) -> Seq<
    Exchange,
> {
    match data {
        Some(d) => if handle.takes(d.len(), bytes.len()) {
            seq![Exchange::Memory { data }, Exchange::Write { left: handle.replaced(d, bytes) }]
        } else {
            seq![Exchange::Memory { data }]
        },
        None => seq![Exchange::Memory { data }],
    }
}

/// `wasmtime::Engine::is_async` on the engine of the caller's store: whether
/// calls into the store have to be asynchronous. Engines are not modelled,
/// so nothing is stated of the result.
#[verifier::external_body]
fn asynchronous<T: 'static>(caller: &wasmtime::Caller<'_, T>) -> (is_async: bool) {
    caller.engine().is_async()
}

/// `wasmtime::Caller::get_export`: the item that the calling instance
/// exports as `name`, or none where it exports no such item. What an
/// instance exports is not modelled, so nothing is stated of the result.
#[verifier::external_body]
fn find<T: 'static>(caller: &mut wasmtime::Caller<'_, T>, name: &str) -> (item: Option<
    wasmtime::Extern,
>) {
    caller.get_export(name)
}

/// `wasmtime::Extern::into_func`: the function that the item is, or none
/// where it is of another kind.
#[verifier::external_body]
fn as_func(item: wasmtime::Extern) -> (func: Option<wasmtime::Func>) {
    item.into_func()
}

/// `wasmtime::Extern::into_memory`: the linear memory that the item is, or
/// none where it is of another kind.
#[verifier::external_body]
fn as_memory(item: wasmtime::Extern) -> (memory: Option<wasmtime::Memory>) {
    item.into_memory()
}

/// `wasmtime::Func::call` with 64-bit integer arguments and room for
/// `results` results. The engine fails the call where the function's
/// signature asks for other arguments or another number of results, and
/// where the guest traps. After a call that succeeded there is one entry for
/// each result: the 64-bit integer that the function returned there, or none
/// where it returned a value of another type. What the guest computes is not
/// modelled. The engine panics where the store is set up for asynchronous
/// calls, of which no `Guest` is made, and where the store does not own the
/// function. The one caller, `Guest::ask`, hands over a function that it has
/// just found among the exports of the instance in this caller's store.
#[verifier::external_body]
fn invoke<T: 'static>(
    caller: &mut wasmtime::Caller<'_, T>,
    func: &wasmtime::Func,
    args: &Vec<i64>,
    results: usize,
) -> (r: Result<Vec<Option<i64>>, anyhow::Error>)
    ensures
        r matches Ok(values) ==> values@.len() == results,
{
    let params: Vec<wasmtime::Val> = args.iter().map(|a| wasmtime::Val::I64(*a)).collect();
    let mut out = vec![wasmtime::Val::I64(0); results];
    func.call(caller, &params, &mut out)?;
    Ok(out.iter().map(|v| v.i64()).collect())
}

/// `wasmtime::Memory::data_mut`: the whole linear memory as it is now, for
/// reading and writing in place. What the memory holds is not modelled. The
/// engine panics where the store does not own the memory. The callers,
/// `Guest::memory` and `Guest::write`, hand over a memory that they have
/// just found among the exports of the instance in this caller's store.
#[verifier::external_body]
fn contents<'b, T: 'static>(caller: &'b mut wasmtime::Caller<'_, T>, memory: &wasmtime::Memory) -> (data:
    &'b mut [u8]) {
    memory.data_mut(caller)
}

/// `core::str::from_utf8`: the bytes as text, where they are valid UTF-8,
/// and none where they are not. The text is made of the very bytes given.
#[verifier::external_body]
pub(crate) fn utf8<'b>(bytes: &'b [u8]) -> (text: Option<&'b str>)
    ensures
        text is Some <==> valid_utf8(bytes@),
        text matches Some(s) ==> s.spec_bytes() == bytes@,
{
    core::str::from_utf8(bytes).ok()
}

} // verus!
