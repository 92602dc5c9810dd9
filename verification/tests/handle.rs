use extism_host::error::BridgeError;
use extism_host::handle::{MemoryHandle, Val};

#[test]
fn the_sentinel_is_all_zero() {
    let h = MemoryHandle::null();
    assert_eq!((h.offset, h.length), (0, 0));
    assert!(h.is_null());
    assert!(h.is_empty());
    assert!(!MemoryHandle::new(0, 1).is_null());
    assert!(!MemoryHandle::new(1, 0).is_null());
    assert!(MemoryHandle::new(1, 0).is_empty());
    assert_eq!(MemoryHandle::new(5, 6).offset(), 5);
    assert_eq!(MemoryHandle::new(5, 6).len(), 6);
}

#[test]
fn a_length_of_zero_gives_no_handle() {
    assert_eq!(MemoryHandle::from_length(40, 0), None);
    assert_eq!(MemoryHandle::from_length(0, 0), None);
    assert_eq!(MemoryHandle::from_length(40, 1), Some(MemoryHandle::new(40, 1)));
    assert_eq!(MemoryHandle::from_length(0, 9), Some(MemoryHandle::new(0, 9)));
}

#[test]
fn an_allocation_at_zero_is_out_of_memory() {
    assert!(matches!(MemoryHandle::from_allocation(8, 0), Err(BridgeError::OutOfMemory)));
    assert_eq!(MemoryHandle::from_allocation(8, 64).unwrap(), MemoryHandle::new(64, 8));
}

#[test]
fn the_error_handle_is_absent_at_offset_zero() {
    assert_eq!(MemoryHandle::for_error(0, 0), None);
    assert_eq!(MemoryHandle::for_error(0, 5), None);
    assert_eq!(MemoryHandle::for_error(8, 0), Some(MemoryHandle::new(8, 0)));
    assert_eq!(MemoryHandle::for_error(8, 5), Some(MemoryHandle::new(8, 5)));
}

#[test]
fn only_64_bit_integers_are_offsets() {
    assert_eq!(Val::I64(7).i64(), Some(7));
    assert_eq!(Val::I64(-7).i64(), Some(-7));
    assert_eq!(Val::I32(7).i64(), None);
    assert_eq!(Val::F32(7).i64(), None);
    assert_eq!(Val::F64(7).i64(), None);
    assert_eq!(Val::V128(7).i64(), None);
    assert_eq!(Val::Reference.i64(), None);
}

#[test]
fn call_values_and_handles_convert() {
    assert_eq!(MemoryHandle::new(24, 3).to_val(), Val::I64(24));
    assert_eq!(MemoryHandle::new(1 << 63, 3).to_val(), Val::I64(i64::MIN));
    assert_eq!(MemoryHandle::from_val(&Val::I64(24), 3), Some(MemoryHandle::new(24, 3)));
    assert_eq!(MemoryHandle::from_val(&Val::I64(-1), 3), Some(MemoryHandle::new(u64::MAX, 3)));
    assert_eq!(MemoryHandle::from_val(&Val::I64(24), 0), None);
    assert_eq!(MemoryHandle::from_val(&Val::I32(24), 3), None);
}

#[test]
fn a_block_fits_or_is_refused() {
    assert_eq!(MemoryHandle::new(2, 3).range(5), Some((2, 5)));
    assert_eq!(MemoryHandle::new(2, 4).range(5), None);
    assert_eq!(MemoryHandle::new(5, 0).range(5), Some((5, 5)));
    assert_eq!(MemoryHandle::new(6, 0).range(5), None);
    assert_eq!(MemoryHandle::new(0, 0).range(0), Some((0, 0)));
    assert_eq!(MemoryHandle::new(u64::MAX, 1).range(5), None);
    assert_eq!(MemoryHandle::new(1, u64::MAX).range(5), None);
    assert_eq!(MemoryHandle::new(u64::MAX, u64::MAX).range(usize::MAX), None);
}

#[test]
fn a_slice_is_the_block() {
    let memory = [10u8, 11, 12, 13, 14];
    assert_eq!(MemoryHandle::new(1, 3).slice(&memory).unwrap(), &[11u8, 12, 13][..]);
    assert_eq!(MemoryHandle::new(0, 5).slice(&memory).unwrap(), &memory[..]);
    assert_eq!(MemoryHandle::new(5, 0).slice(&memory).unwrap(), &[0u8; 0][..]);
    assert!(matches!(MemoryHandle::new(3, 3).slice(&memory), Err(BridgeError::InvalidMemoryAccess)));
}

#[test]
fn writing_through_a_slice_changes_the_block_only() {
    let mut memory = [10u8, 11, 12, 13, 14];
    {
        let block = MemoryHandle::new(1, 3).slice_mut(&mut memory).unwrap();
        assert_eq!(block, &[11u8, 12, 13][..]);
        block.copy_from_slice(&[1, 2, 3]);
    }
    assert_eq!(memory, [10u8, 1, 2, 3, 14]);
    assert!(matches!(
        MemoryHandle::new(4, 2).slice_mut(&mut memory),
        Err(BridgeError::InvalidMemoryAccess)
    ));
    assert_eq!(memory, [10u8, 1, 2, 3, 14]);
}
