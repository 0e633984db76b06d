use a19_concurrent::buffer::{
    calculate_offset_16, calculate_offset_32, calculate_offset_long, AtomicByteBuffer,
    AtomicByteBufferInt, DirectByteBuffer,
};

#[test]
fn create_test() {
    let mut atomic_buffer = AtomicByteBufferInt::new(0x10000);
    atomic_buffer.put_u32_volatile(0, 123);
    let result = atomic_buffer.get_u32_volatile(0);
    assert_eq!(123, result);
}

#[test]
fn put_u32_then_get_u32_volatile() {
    let mut buffer = AtomicByteBufferInt::new(0x10000);
    buffer.put_u32(0, 123);
    assert_eq!(123, buffer.get_u32_volatile(0));
    assert_eq!(0x10000, buffer.capacity());
}

#[test]
fn capacity_is_rounded_up() {
    assert_eq!(1, AtomicByteBufferInt::new(0).capacity());
    assert_eq!(1, AtomicByteBufferInt::new(1).capacity());
    assert_eq!(2, AtomicByteBufferInt::new(2).capacity());
    assert_eq!(4, AtomicByteBufferInt::new(3).capacity());
    assert_eq!(128, AtomicByteBufferInt::new(100).capacity());
    assert_eq!(128, AtomicByteBufferInt::new(128).capacity());
    assert_eq!(256, AtomicByteBufferInt::new(129).capacity());
}

#[test]
fn max_message_size_is_an_eighth() {
    assert_eq!(0x2000, AtomicByteBufferInt::new(0x10000).max_message_size());
    assert_eq!(16, AtomicByteBufferInt::new(100).max_message_size());
    assert_eq!(0, AtomicByteBufferInt::new(4).max_message_size());
}

#[test]
fn new_buffer_is_zero_filled() {
    let buffer = AtomicByteBufferInt::new(64);
    assert_eq!(&[0u8; 64][..], buffer.get_bytes(0, 64));
}

#[test]
fn offsets_add_the_width() {
    assert_eq!(8, calculate_offset_long(0));
    assert_eq!(18, calculate_offset_long(10));
    assert_eq!(14, calculate_offset_32(10));
    assert_eq!(12, calculate_offset_16(10));
}

#[test]
fn values_are_stored_big_endian() {
    let mut buffer = AtomicByteBufferInt::new(64);
    buffer.put_u64(0, 0x0102_0304_0506_0708);
    assert_eq!(&[1u8, 2, 3, 4, 5, 6, 7, 8][..], buffer.get_bytes(0, 8));
    buffer.put_u32(8, 0x0a0b_0c0d);
    assert_eq!(&[0x0au8, 0x0b, 0x0c, 0x0d][..], buffer.get_bytes(8, 4));
    buffer.put_u16(12, 0x1234);
    assert_eq!(&[0x12u8, 0x34][..], buffer.get_bytes(12, 2));
    buffer.put_i16(14, -2);
    assert_eq!(&[0xffu8, 0xfe][..], buffer.get_bytes(14, 2));
    buffer.put_i32(16, -1);
    assert_eq!(&[0xffu8; 4][..], buffer.get_bytes(16, 4));
    buffer.put_i64(24, i64::MIN);
    assert_eq!(&[0x80u8, 0, 0, 0, 0, 0, 0, 0][..], buffer.get_bytes(24, 8));
    assert_eq!(0x0102_0304, buffer.get_u32(0));
    assert_eq!(0x0506_0708, buffer.get_u32(4));
    assert_eq!(0x0304, buffer.get_u16(2));
}

#[test]
fn put_then_get_returns_the_value() {
    let mut buffer = AtomicByteBufferInt::new(64);
    for &v in &[0u64, 1, 255, 256, 0xdead_beef_cafe_f00d, u64::MAX] {
        buffer.put_u64(8, v);
        assert_eq!(v, buffer.get_u64(8));
        assert_eq!(v, buffer.get_u64_volatile(8));
        buffer.put_u64_volatile(16, v);
        assert_eq!(v, buffer.get_u64(16));
    }
    for &v in &[0i64, 1, -1, i64::MIN, i64::MAX, -123_456_789] {
        buffer.put_i64(8, v);
        assert_eq!(v, buffer.get_i64(8));
        assert_eq!(v, buffer.get_i64_volatile(8));
        buffer.put_i64_volatile(16, v);
        assert_eq!(v, buffer.get_i64(16));
    }
    for &v in &[0u32, 1, 123, u32::MAX, 0x8000_0000] {
        buffer.put_u32(4, v);
        assert_eq!(v, buffer.get_u32(4));
        assert_eq!(v, buffer.get_u32_volatile(4));
        buffer.put_u32_volatile(60, v);
        assert_eq!(v, buffer.get_u32(60));
    }
    for &v in &[0i32, 1, -1, i32::MIN, i32::MAX] {
        buffer.put_i32(4, v);
        assert_eq!(v, buffer.get_i32(4));
        assert_eq!(v, buffer.get_i32_volatile(4));
        buffer.put_i32_volatile(60, v);
        assert_eq!(v, buffer.get_i32(60));
    }
    for &v in &[0u16, 1, 0x8000, u16::MAX] {
        buffer.put_u16(62, v);
        assert_eq!(v, buffer.get_u16(62));
    }
    for &v in &[0i16, 1, -1, i16::MIN, i16::MAX] {
        buffer.put_i16(62, v);
        assert_eq!(v, buffer.get_i16(62));
    }
}

#[test]
fn a_put_leaves_the_other_bytes_alone() {
    let mut buffer = AtomicByteBufferInt::new(16);
    buffer.set_bytes(0, 16, 0xaa);
    buffer.put_u32(4, 0x0102_0304);
    assert_eq!(
        &[0xaau8, 0xaa, 0xaa, 0xaa, 1, 2, 3, 4, 0xaa, 0xaa, 0xaa, 0xaa, 0xaa, 0xaa, 0xaa, 0xaa][..],
        buffer.get_bytes(0, 16)
    );
}

#[test]
fn volatile_put_at_the_last_word_fits() {
    let mut buffer = AtomicByteBufferInt::new(8);
    buffer.put_u32_volatile(4, 0xdead_beef);
    assert_eq!(0xdead_beef, buffer.get_u32_volatile(4));
    buffer.put_i32_volatile(4, -5);
    assert_eq!(-5, buffer.get_i32_volatile(4));
}

#[test]
fn set_bytes_and_write_bytes() {
    let mut buffer = AtomicByteBufferInt::new(16);
    buffer.set_bytes(2, 3, 7);
    assert_eq!(&[0u8, 0, 7, 7, 7, 0][..], buffer.get_bytes(0, 6));
    buffer.write_bytes(4, &[1, 2, 3, 4]);
    assert_eq!(&[0u8, 0, 7, 7, 1, 2, 3, 4, 0][..], buffer.get_bytes(0, 9));
    buffer.write_bytes(0, &[]);
    buffer.set_bytes(16, 0, 9);
    assert_eq!(&[0u8, 0, 7, 7, 1, 2, 3, 4, 0][..], buffer.get_bytes(0, 9));
}

#[test]
fn as_bytes_mut_writes_through() {
    let mut buffer = AtomicByteBufferInt::new(16);
    buffer.as_bytes_mut(4, 4).copy_from_slice(&[1, 2, 3, 4]);
    assert_eq!(0x0102_0304, buffer.get_u32(4));
    assert_eq!(&[0u8, 0, 0, 0, 1, 2, 3, 4, 0, 0][..], buffer.get_bytes(0, 10));
}
