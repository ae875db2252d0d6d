use bitmap::bitmap::Bitmap;
use bitmap::bitmap::BitmapError;
use bitmap::buffer::Buffer;

#[test]
fn test_bitmap_length() {
    assert_eq!(64, Bitmap::new(63 * 8).len());
    assert_eq!(64, Bitmap::new(64 * 8).len());
    assert_eq!(128, Bitmap::new(65 * 8).len());
}

#[test]
fn test_bitmap_is_set() {
    let mut bitmap = Bitmap::from(Buffer::from(vec![0b01001010]));
    assert_eq!(false, bitmap.is_set(0));
    assert_eq!(true, bitmap.is_set(1));
    assert_eq!(false, bitmap.is_set(2));
    assert_eq!(true, bitmap.is_set(3));
    assert_eq!(false, bitmap.is_set(4));
    assert_eq!(false, bitmap.is_set(5));
    assert_eq!(true, bitmap.is_set(6));
    assert_eq!(false, bitmap.is_set(7));
    bitmap.set(7);
    assert_eq!(true, bitmap.is_set(7));
    bitmap.unset(7);
    assert_eq!(false, bitmap.is_set(7));
}

#[test]
fn test_length_is_padded() {
    assert_eq!(0, Bitmap::new(0).len());
    assert_eq!(64, Bitmap::new(1).len());
    assert_eq!(64, Bitmap::new(512).len());
    assert_eq!(128, Bitmap::new(513).len());
    for n in [0usize, 1, 7, 8, 9, 511, 512, 513, 4096, 4097] {
        let len = Bitmap::new(n).len();
        assert_eq!(0, len % 64);
        assert!(len * 8 >= n);
    }
}

#[test]
fn test_new_starts_all_set() {
    let b = Bitmap::new(100);
    for i in 0..100i64 {
        assert!(b.is_set(i));
    }
    let capacity = b.len() as i64 * 8;
    for i in 0..capacity {
        assert!(b.is_set(i));
    }
}

#[test]
fn test_set_unset_leave_other_bits_alone() {
    let mut b = Bitmap::from(Buffer::from(vec![0b01001010, 0b11110000]));
    let before: Vec<bool> = (0..16i64).map(|i| b.is_set(i)).collect();
    b.set(4);
    assert!(b.is_set(4));
    for i in 0..16i64 {
        if i != 4 {
            assert_eq!(before[i as usize], b.is_set(i));
        }
    }
    b.unset(4);
    assert!(!b.is_set(4));
    for i in 0..16i64 {
        assert_eq!(before[i as usize], b.is_set(i));
    }
    b.unset(13);
    assert!(!b.is_set(13));
    for i in 0..16i64 {
        if i != 13 {
            assert_eq!(before[i as usize], b.is_set(i));
        }
    }
}

#[test]
fn test_reset_restores_all_ones() {
    let mut b = Bitmap::new(16);
    b.unset(0);
    b.unset(5);
    b.unset(63);
    assert!(!b.is_set(0));
    b.reset();
    assert_eq!(64, b.len());
    for i in 0..(64 * 8) as i64 {
        assert!(b.is_set(i));
    }
    let mut wrapped = Bitmap::from(Buffer::from(vec![0u8, 0u8]));
    assert!(!wrapped.is_set(3));
    wrapped.reset();
    assert_eq!(2, wrapped.len());
    for i in 0..16i64 {
        assert!(wrapped.is_set(i));
    }
}

#[test]
fn test_wrap_round_trip() {
    let bytes = vec![0xa5u8, 0x3c, 0x00, 0xff];
    let b = Bitmap::from(Buffer::from(bytes.clone()));
    assert_eq!(bytes.len(), b.len());
    for i in 0..(bytes.len() * 8) as i64 {
        let expected = (bytes[(i / 8) as usize] >> (i % 8)) & 1 == 1;
        assert_eq!(expected, b.is_set(i));
    }
}

#[test]
fn test_index_out_of_range() {
    let mut b = Bitmap::from(Buffer::from(vec![0b01001010]));
    assert_eq!(Err(BitmapError::IndexOutOfRange), b.try_is_set(-1));
    assert_eq!(Err(BitmapError::IndexOutOfRange), b.try_is_set(8));
    assert_eq!(Err(BitmapError::IndexOutOfRange), b.try_set(8));
    assert_eq!(Err(BitmapError::IndexOutOfRange), b.try_unset(-1));
    let untouched = Bitmap::from(Buffer::from(vec![0b01001010]));
    assert_eq!(untouched, b);
}

#[test]
fn test_try_in_range() {
    let mut b = Bitmap::from(Buffer::from(vec![0b01001010]));
    assert_eq!(Ok(false), b.try_is_set(0));
    assert_eq!(Ok(true), b.try_is_set(1));
    assert_eq!(Ok(()), b.try_set(7));
    assert_eq!(Ok(true), b.try_is_set(7));
    assert_eq!(Ok(()), b.try_unset(7));
    assert_eq!(Ok(false), b.try_is_set(7));
}

#[test]
fn test_equality_and_clone() {
    let a = Bitmap::new(512);
    let b = Bitmap::new(512);
    assert_eq!(a, b);
    let mut c = a.clone();
    assert_eq!(a, c);
    c.unset(0);
    assert_ne!(a, c);
    c.set(0);
    assert_eq!(a, c);
    assert_ne!(Bitmap::new(512), Bitmap::new(513));
}
