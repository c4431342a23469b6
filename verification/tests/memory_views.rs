use wasmer::error::ExceptionKind;
use wasmer::memory::{Memory, PAGE_SIZE};

#[test]
fn uint8_get_bounds() {
    let mem = Memory::new(1);
    let view = mem.uint8_view();
    let len = view.length(&mem);
    assert_eq!(len, PAGE_SIZE);
    assert_eq!(view.get(&mem, len - 1).unwrap(), 0);
    let r = view.get(&mem, len);
    assert_eq!(r.unwrap_err().kind(), ExceptionKind::IndexError);
}

#[test]
fn length_reflects_growth_without_rederiving_the_view() {
    let mut mem = Memory::new(1);
    let view = mem.uint8_view();
    assert_eq!(view.length(&mem), PAGE_SIZE);
    let previous = mem.grow(2).unwrap();
    assert_eq!(previous, 1);
    assert_eq!(mem.size(), 3);
    assert_eq!(mem.data_size(), 3 * PAGE_SIZE);
    assert_eq!(view.length(&mem), 3 * PAGE_SIZE);
    assert_eq!(view.get(&mem, 3 * PAGE_SIZE - 1).unwrap(), 0);
}

#[test]
fn uint8_set_then_get() {
    let mut mem = Memory::new(1);
    let view = mem.uint8_view();
    view.set(&mut mem, 5, 200).unwrap();
    assert_eq!(view.get(&mem, 5).unwrap(), 200);
    view.set(&mut mem, 5, 256 + 7).unwrap();
    assert_eq!(view.get(&mem, 5).unwrap(), 7);
}

#[test]
fn int8_sign_extends() {
    let mut mem = Memory::new(1);
    let signed = mem.int8_view();
    let unsigned = mem.uint8_view();
    signed.set(&mut mem, 0, -56).unwrap();
    assert_eq!(signed.get(&mem, 0).unwrap(), -56);
    assert_eq!(unsigned.get(&mem, 0).unwrap(), 200);
}

#[test]
fn int16_little_endian() {
    let mut mem = Memory::new(1);
    let view = mem.int16_view();
    view.set(&mut mem, 1, -2).unwrap();
    assert_eq!(view.get(&mem, 1).unwrap(), -2);
    let bytes = mem.uint8_view();
    assert_eq!(bytes.get(&mem, 2).unwrap(), 0xfe);
    assert_eq!(bytes.get(&mem, 3).unwrap(), 0xff);
    let unsigned = mem.uint16_view();
    assert_eq!(unsigned.get(&mem, 1).unwrap(), 0xfffe);
}

#[test]
fn uint16_element_count() {
    let mem = Memory::new(1);
    let view = mem.uint16_view();
    assert_eq!(view.bytes_per_element(), 2);
    assert_eq!(view.length(&mem), PAGE_SIZE / 2);
    let r = view.get(&mem, PAGE_SIZE / 2);
    assert_eq!(r.unwrap_err().kind(), ExceptionKind::IndexError);
}

#[test]
fn int32_round_trip() {
    let mut mem = Memory::new(1);
    let view = mem.int32_view();
    assert_eq!(view.bytes_per_element(), 4);
    view.set(&mut mem, 2, -123456789).unwrap();
    assert_eq!(view.get(&mem, 2).unwrap(), -123456789);
    let unsigned = mem.uint32_view();
    assert_eq!(unsigned.get(&mem, 2).unwrap(), (-123456789i64) & 0xffffffff);
}

#[test]
fn uint32_truncates_written_value() {
    let mut mem = Memory::new(1);
    let view = mem.uint32_view();
    view.set(&mut mem, 0, 0x1_0000_0003).unwrap();
    assert_eq!(view.get(&mem, 0).unwrap(), 3);
}

#[test]
fn set_out_of_bounds_changes_nothing() {
    let mut mem = Memory::new(1);
    let view = mem.uint32_view();
    let r = view.set(&mut mem, PAGE_SIZE / 4, 7);
    assert_eq!(r.unwrap_err().kind(), ExceptionKind::IndexError);
    assert_eq!(mem.data_size(), PAGE_SIZE);
    assert_eq!(view.get(&mem, 0).unwrap(), 0);
}

#[test]
fn each_reads_all_elements() {
    let mut mem = Memory::new(0);
    mem.grow(1).unwrap();
    let view = mem.uint16_view();
    view.set(&mut mem, 0, 10).unwrap();
    view.set(&mut mem, 1, 65535).unwrap();
    let signed = mem.int16_view();
    let all = signed.each(&mem);
    assert_eq!(all.len(), PAGE_SIZE / 2);
    assert_eq!(all[0], 10);
    assert_eq!(all[1], -1);
    assert_eq!(all[2], 0);
}

#[test]
fn grow_returns_previous_size() {
    let mut mem = Memory::new(0);
    assert_eq!(mem.size(), 0);
    assert_eq!(mem.grow(1).unwrap(), 0);
    assert_eq!(mem.grow(1).unwrap(), 1);
    assert_eq!(mem.size(), 2);
}

#[test]
fn grow_beyond_addressable_fails() {
    let mut mem = Memory::new(1);
    let r = mem.grow(usize::MAX / 4);
    assert_eq!(r.unwrap_err().kind(), ExceptionKind::RuntimeError);
    assert_eq!(mem.size(), 1);
}
