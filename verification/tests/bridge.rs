use std::future::Future;
use std::sync::{Arc, Mutex};
use std::task::{Context, Poll, Waker};

use extism_host::current_plugin::CurrentPlugin;
use extism_host::engine::Guest;
use extism_host::error::BridgeError;
use extism_host::handle::{MemoryHandle, Val};
use extism_host::manifest::Manifest;
use wasmtime::{Caller, Config, Engine, Linker, Module, Store};

/// A guest with a bump allocator: each block is preceded by eight bytes that
/// hold its length, a freed block has length zero, and no block is longer than
/// 4096 bytes. Its `run` calls the host function `probe`.
const KERNEL: &str = r#"
(module
  (import "host" "probe" (func $probe))
  (memory (export "memory") 1)
  (global $next (mut i64) (i64.const 16))
  (global $err (mut i64) (i64.const 0))
  (func (export "run") (call $probe))
  (func (export "extism_alloc") (param $n i64) (result i64)
    (local $at i64)
    (if (i64.gt_u (local.get $n) (i64.const 4096)) (then (return (i64.const 0))))
    (i64.store (i32.wrap_i64 (global.get $next)) (local.get $n))
    (local.set $at (i64.add (global.get $next) (i64.const 8)))
    (global.set $next
      (i64.add (local.get $at)
        (i64.and (i64.add (local.get $n) (i64.const 7)) (i64.const -8))))
    (local.get $at))
  (func (export "extism_free") (param $p i64)
    (if (i64.ge_u (local.get $p) (i64.const 24))
      (then (i64.store (i32.wrap_i64 (i64.sub (local.get $p) (i64.const 8))) (i64.const 0)))))
  (func (export "extism_length") (param $p i64) (result i64)
    (if (result i64)
      (i32.or (i64.lt_u (local.get $p) (i64.const 24)) (i64.ge_u (local.get $p) (global.get $next)))
      (then (i64.const 0))
      (else (i64.load (i32.wrap_i64 (i64.sub (local.get $p) (i64.const 8)))))))
  (func (export "extism_error_set") (param $p i64) (global.set $err (local.get $p)))
  (func (export "extism_error_get") (result i64) (global.get $err)))
"#;

/// A guest that exports nothing the bridge needs.
const BARE: &str = r#"
(module
  (import "host" "probe" (func $probe))
  (func (export "run") (call $probe)))
"#;

/// A guest whose allocator traps and whose length export has the wrong type.
const BROKEN: &str = r#"
(module
  (import "host" "probe" (func $probe))
  (memory (export "memory") 1)
  (global (export "extism_free") i64 (i64.const 0))
  (func (export "run") (call $probe))
  (func (export "extism_alloc") (param i64) (result i64) unreachable)
  (func (export "extism_length") (param i64) (result i32) (i32.const 1)))
"#;

type Job = Box<dyn FnOnce(&mut Caller<'_, Slot>) + Send + Sync>;

/// What the store holds: the work to do once the guest calls the host.
struct Slot {
    job: Option<Job>,
}

fn engine(asynchronous: bool) -> Engine {
    // keep the address space that a linear memory reserves small
    let mut config = Config::new();
    config.memory_reservation(1 << 20);
    config.memory_reservation_for_growth(0);
    config.memory_guard_size(0);
    config.async_support(asynchronous);
    Engine::new(&config).unwrap()
}

fn prepare(engine: &Engine, wat: &str, job: Job) -> (Store<Slot>, wasmtime::Instance) {
    let module = Module::new(engine, wat).unwrap();
    let mut store = Store::new(engine, Slot { job: Some(job) });
    let mut linker: Linker<Slot> = Linker::new(engine);
    linker
        .func_wrap("host", "probe", |mut caller: Caller<'_, Slot>| {
            let job = caller.data_mut().job.take().unwrap();
            job(&mut caller);
        })
        .unwrap();
    let instance = if engine.is_async() {
        let mut creating = Box::pin(linker.instantiate_async(&mut store, &module));
        let mut cx = Context::from_waker(Waker::noop());
        match creating.as_mut().poll(&mut cx) {
            Poll::Ready(r) => r.unwrap(),
            Poll::Pending => panic!("instantiation did not finish"),
        }
    } else {
        linker.instantiate(&mut store, &module).unwrap()
    };
    (store, instance)
}

/// Runs `job` inside a host function that the guest `wat` calls.
fn within_caller<R: Send + 'static>(
    wat: &str,
    job: impl FnOnce(&mut Caller<'_, Slot>) -> R + Send + Sync + 'static,
) -> R {
    let out = Arc::new(Mutex::new(None));
    let sink = out.clone();
    let engine = engine(false);
    let (mut store, instance) = prepare(
        &engine,
        wat,
        Box::new(move |caller| {
            let r = job(caller);
            *sink.lock().unwrap() = Some(r);
        }),
    );
    let run = instance.get_typed_func::<(), ()>(&mut store, "run").unwrap();
    run.call(&mut store, ()).unwrap();
    let r = out.lock().unwrap().take().unwrap();
    r
}

/// Runs `job` with access to the guest `wat`, inside a host function that the
/// guest calls.
fn within<R: Send + 'static>(
    wat: &str,
    job: impl FnOnce(&mut CurrentPlugin, &mut Guest<'_, '_, Slot>) -> R + Send + Sync + 'static,
) -> R {
    within_caller(wat, move |caller| {
        let mut p = plugin();
        let mut guest = Guest::new(caller).unwrap();
        job(&mut p, &mut guest)
    })
}

fn plugin() -> CurrentPlugin {
    CurrentPlugin::new(Manifest::new(Vec::new()), false, Some(1), false)
}

fn set_error(caller: &mut Caller<'_, Slot>, offset: u64) {
    let set = caller.get_export("extism_error_set").unwrap().into_func().unwrap();
    set.call(caller, &[wasmtime::Val::I64(offset as i64)], &mut []).unwrap();
}

#[test]
fn alloc_zero_returns_the_sentinel_without_a_guest() {
    let h = within(BARE, |p, guest| p.memory_alloc(guest, 0).unwrap());
    assert_eq!(h, MemoryHandle::null());
    assert_eq!(h.offset(), 0);
    assert_eq!(h.len(), 0);
    assert!(h.is_null());
}

#[test]
fn alloc_gives_a_block_of_the_length_asked_for() {
    within(KERNEL, |p, guest| {
        let h = p.memory_alloc(guest, 10).unwrap();
        assert_eq!(h, MemoryHandle::new(24, 10));
        assert_eq!(p.memory_length(guest, 24).unwrap(), 10);
        let g = p.memory_alloc(guest, 3).unwrap();
        assert_eq!(g, MemoryHandle::new(48, 3));
        assert_eq!(p.memory_length(guest, 48).unwrap(), 3);
    });
}

#[test]
fn alloc_reports_out_of_memory_when_the_guest_returns_zero() {
    let r = within(KERNEL, |p, guest| p.memory_alloc(guest, 5000));
    assert!(matches!(r, Err(BridgeError::OutOfMemory)));
}

#[test]
fn alloc_without_the_export_is_a_missing_export() {
    within(BARE, |p, guest| {
        assert!(matches!(p.memory_alloc(guest, 8), Err(BridgeError::MissingAbiExport)));
        assert!(matches!(p.memory_length(guest, 8), Err(BridgeError::MissingAbiExport)));
        assert!(matches!(
            p.memory_free(guest, MemoryHandle::new(8, 8)),
            Err(BridgeError::MissingAbiExport)
        ));
        assert!(matches!(p.has_error(guest), Err(BridgeError::MissingAbiExport)));
        assert!(matches!(p.get_error_position(guest), Err(BridgeError::MissingAbiExport)));
        assert!(matches!(p.get_error(guest), Err(BridgeError::MissingAbiExport)));
        assert!(matches!(
            p.memory_bytes(guest, MemoryHandle::new(0, 1)),
            Err(BridgeError::MissingAbiExport)
        ));
        assert!(matches!(
            p.memory_new(guest, Vec::<u8>::new()),
            Err(BridgeError::MissingAbiExport)
        ));
        let r: Result<Vec<u8>, BridgeError> = p.memory_get(guest, MemoryHandle::null());
        assert!(matches!(r, Err(BridgeError::MissingAbiExport)));
    });
}

#[test]
fn a_trap_in_the_guest_is_a_failed_call() {
    let r = within(BROKEN, |p, guest| p.memory_alloc(guest, 8));
    assert!(matches!(r, Err(BridgeError::CallFailed(_))));
}

#[test]
fn an_export_of_another_shape_is_a_missing_export() {
    within(BROKEN, |p, guest| {
        // a global where a function is expected
        assert!(matches!(
            p.memory_free(guest, MemoryHandle::new(24, 1)),
            Err(BridgeError::MissingAbiExport)
        ));
        // a function that returns a 32-bit integer where 64 bits are expected
        assert!(matches!(p.memory_length(guest, 24), Err(BridgeError::MissingAbiExport)));
    });
}

#[test]
fn handle_is_absent_exactly_for_length_zero() {
    within(KERNEL, |p, guest| {
        let h = p.memory_alloc(guest, 7).unwrap();
        assert_eq!(p.memory_handle(guest, h.offset()).unwrap(), Some(MemoryHandle::new(24, 7)));
        assert_eq!(p.memory_handle(guest, 4).unwrap(), None);
        assert_eq!(p.memory_handle(guest, 4000).unwrap(), None);
    });
}

#[test]
fn free_makes_the_guest_report_length_zero() {
    within(KERNEL, |p, guest| {
        let h = p.memory_alloc(guest, 7).unwrap();
        p.memory_free(guest, h).unwrap();
        assert_eq!(p.memory_handle(guest, h.offset()).unwrap(), None);
    });
}

#[test]
fn alloc_then_free_leaves_the_host_state_alone() {
    within(KERNEL, |_, guest| {
        let mut p = CurrentPlugin::new(
            Manifest::new(Vec::new()).with_config_key("a", "b"),
            true,
            Some(2),
            false,
        );
        p.vars_mut().insert("k".to_string(), vec![1, 2, 3]);
        p.set_http_status(200);
        assert!(matches!(p.memory_growing(0, 65536, None), Ok(true)));
        let h = p.memory_alloc(guest, 12).unwrap();
        p.memory_free(guest, h).unwrap();
        assert_eq!(p.vars().len(), 1);
        assert_eq!(p.vars().get("k"), Some(&vec![1u8, 2, 3]));
        assert_eq!(p.http_status(), 200);
        assert_eq!(p.available_pages(), Some(2));
        assert_eq!(p.bytes_left(), Some(65536));
        assert_eq!(p.manifest().config.get("a"), Some(&"b".to_string()));
        assert_eq!(p.wasi().unwrap().env, vec![("a".to_string(), "b".to_string())]);
    });
}

#[test]
fn bytes_written_through_a_handle_are_read_back() {
    within(KERNEL, |p, guest| {
        let h = p.memory_alloc(guest, 4).unwrap();
        {
            let block = p.memory_bytes(guest, h).unwrap();
            assert_eq!(block.len(), 4);
            block.copy_from_slice(&[9, 8, 7, 6]);
        }
        let block = p.memory_bytes(guest, h).unwrap();
        assert_eq!(&block[..], &[9u8, 8, 7, 6][..]);
        // the length header in front of the block is untouched
        assert_eq!(p.memory_length(guest, h.offset()).unwrap(), 4);
    });
}

#[test]
fn bytes_outside_the_memory_are_refused() {
    within(KERNEL, |p, guest| {
        assert!(matches!(
            p.memory_bytes(guest, MemoryHandle::new(65530, 10)),
            Err(BridgeError::InvalidMemoryAccess)
        ));
        assert!(matches!(
            p.memory_bytes(guest, MemoryHandle::new(u64::MAX, 2)),
            Err(BridgeError::InvalidMemoryAccess)
        ));
        assert!(matches!(
            p.memory_bytes(guest, MemoryHandle::new(70000, 0)),
            Err(BridgeError::InvalidMemoryAccess)
        ));
        let r: Result<Vec<u8>, BridgeError> = p.memory_get(guest, MemoryHandle::new(65535, 2));
        assert!(matches!(r, Err(BridgeError::InvalidMemoryAccess)));
        assert_eq!(p.memory_bytes(guest, MemoryHandle::new(65530, 6)).unwrap().len(), 6);
        assert_eq!(p.memory_bytes(guest, MemoryHandle::new(65536, 0)).unwrap().len(), 0);
        assert_eq!(p.memory_bytes(guest, MemoryHandle::null()).unwrap().len(), 0);
    });
}

#[test]
fn a_value_written_is_the_value_read() {
    within(KERNEL, |p, guest| {
        let h = p.memory_new(guest, "grüße".to_string()).unwrap();
        assert_eq!(h, MemoryHandle::new(24, 7));
        let back: String = p.memory_get(guest, h).unwrap();
        assert_eq!(back, "grüße");
        assert_eq!(p.memory_str(guest, h).unwrap(), "grüße");
        let raw: Vec<u8> = p.memory_get(guest, h).unwrap();
        assert_eq!(raw, "grüße".as_bytes().to_vec());
        // the block holds the encoding and the bytes around it are as before
        assert_eq!(p.memory_length(guest, 24).unwrap(), 7);
        let after: Vec<u8> = p.memory_get(guest, MemoryHandle::new(31, 1)).unwrap();
        assert_eq!(after, vec![0u8]);

        let g = p.memory_new(guest, vec![0u8, 255, 1]).unwrap();
        assert_eq!(g, MemoryHandle::new(40, 3));
        let bytes: Vec<u8> = p.memory_get(guest, g).unwrap();
        assert_eq!(bytes, vec![0u8, 255, 1]);
    });
}

#[test]
fn an_empty_value_takes_no_block() {
    within(KERNEL, |p, guest| {
        let h = p.memory_new(guest, Vec::<u8>::new()).unwrap();
        assert_eq!(h, MemoryHandle::null());
        let back: Vec<u8> = p.memory_get(guest, h).unwrap();
        assert_eq!(back, Vec::<u8>::new());
        let text: String = p.memory_get(guest, h).unwrap();
        assert_eq!(text, "");
        // the allocator was not asked: the first block is still to be had
        assert_eq!(p.memory_alloc(guest, 1).unwrap(), MemoryHandle::new(24, 1));
    });
}

#[test]
fn bytes_that_are_no_text_do_not_decode() {
    within(KERNEL, |p, guest| {
        let h = p.memory_new(guest, vec![0xffu8, 0xfe]).unwrap();
        assert!(matches!(p.memory_str(guest, h), Err(BridgeError::Decode)));
        let r: Result<String, BridgeError> = p.memory_get(guest, h);
        assert!(matches!(r, Err(BridgeError::Decode)));
        let v: Result<String, BridgeError> = p.memory_get_val(guest, &Val::I64(h.offset() as i64));
        assert!(matches!(v, Err(BridgeError::Decode)));
        // reading does not touch the error channel
        assert_eq!(p.has_error(guest).unwrap(), false);
    });
}

#[test]
fn a_value_too_long_for_the_guest_is_out_of_memory() {
    let r = within(KERNEL, |p, guest| p.memory_new(guest, vec![0u8; 5000]));
    assert!(matches!(r, Err(BridgeError::OutOfMemory)));
}

#[test]
fn call_values_carry_the_offset_only() {
    within(KERNEL, |p, guest| {
        let h = p.memory_new(guest, "abc".to_string()).unwrap();
        let v = p.memory_to_val(h);
        assert_eq!(v, Val::I64(24));
        assert_eq!(p.memory_from_val(guest, &v).unwrap(), Some(h));
        assert_eq!(p.memory_from_val(guest, &Val::I32(24)).unwrap(), None);
        assert_eq!(p.memory_from_val(guest, &Val::I64(0)).unwrap(), None);
        assert_eq!(p.memory_from_val(guest, &Val::I64(-1)).unwrap(), None);
        let text: String = p.memory_get_val(guest, &v).unwrap();
        assert_eq!(text, "abc");
        let none: Result<String, BridgeError> = p.memory_get_val(guest, &Val::I32(24));
        assert!(matches!(none, Err(BridgeError::InvalidMemoryAccess)));
        let zero: Result<String, BridgeError> = p.memory_get_val(guest, &Val::I64(0));
        assert!(matches!(zero, Err(BridgeError::InvalidMemoryAccess)));
        assert_eq!(p.memory_to_val(MemoryHandle::new(u64::MAX, 1)), Val::I64(-1));
    });
}

#[test]
fn a_call_value_that_is_no_offset_needs_no_guest() {
    within(BARE, |p, guest| {
        assert_eq!(p.memory_from_val(guest, &Val::F64(1)).unwrap(), None);
        assert_eq!(p.memory_from_val(guest, &Val::Reference).unwrap(), None);
    });
}

#[test]
fn the_error_channel_reports_what_the_guest_holds() {
    within_caller(KERNEL, |caller| {
        let mut p = plugin();
        let h = {
            let mut guest = Guest::new(caller).unwrap();
            assert_eq!(p.has_error(&mut guest).unwrap(), false);
            assert_eq!(p.get_error(&mut guest).unwrap(), None);
            assert_eq!(p.get_error_position(&mut guest).unwrap(), (0, 0));
            p.memory_new(&mut guest, "boom".to_string()).unwrap()
        };
        set_error(caller, h.offset());
        let mut guest = Guest::new(caller).unwrap();
        assert_eq!(p.has_error(&mut guest).unwrap(), true);
        assert_eq!(p.get_error_position(&mut guest).unwrap(), (24, 4));
        assert_eq!(p.get_error(&mut guest).unwrap(), Some("boom"));
        p.clear_error(&mut guest).unwrap();
        assert_eq!(p.has_error(&mut guest).unwrap(), false);
        assert_eq!(p.get_error(&mut guest).unwrap(), None);
    });
}

#[test]
fn an_error_that_is_no_text_is_absent() {
    within_caller(KERNEL, |caller| {
        let mut p = plugin();
        let h = {
            let mut guest = Guest::new(caller).unwrap();
            p.memory_new(&mut guest, vec![0xc0u8, 0x00]).unwrap()
        };
        set_error(caller, h.offset());
        let mut guest = Guest::new(caller).unwrap();
        assert_eq!(p.has_error(&mut guest).unwrap(), true);
        assert_eq!(p.get_error(&mut guest).unwrap(), None);
    });
}

#[test]
fn clearing_the_error_of_a_guest_without_the_export_does_nothing() {
    let r = within(BARE, |p, guest| p.clear_error(guest));
    assert!(r.is_ok());
}

#[test]
fn an_engine_for_asynchronous_calls_gives_no_access() {
    let seen = Arc::new(Mutex::new(None));
    let sink = seen.clone();
    let engine = engine(true);
    let (mut store, instance) = prepare(
        &engine,
        BARE,
        Box::new(move |caller| {
            *sink.lock().unwrap() = Some(Guest::new(caller).is_none());
        }),
    );
    let run = instance.get_typed_func::<(), ()>(&mut store, "run").unwrap();
    {
        let mut running = Box::pin(run.call_async(&mut store, ()));
        let mut cx = Context::from_waker(Waker::noop());
        match running.as_mut().poll(&mut cx) {
            Poll::Ready(r) => r.unwrap(),
            Poll::Pending => panic!("the call did not finish"),
        }
    }
    assert_eq!(*seen.lock().unwrap(), Some(true));
}
