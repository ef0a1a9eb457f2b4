use binder::connection::BinderConnection;
use binder::error::BinderErrorKind;
use binder::parcel::{
    create_binder_parcel, frame_free_buffer, measure_string16, table_contains, OwnedParcel, Parcel,
    Reader,
};
use binder::sys::{BinderType, FlatBinderObject, FLAT_BINDER_DEFAULT_FLAGS};

fn connection() -> BinderConnection {
    BinderConnection::open(3, 8, 0x7000_0000).unwrap()
}

fn object_bytes(type_tag: u32, flags: u32, handle: u32, cookie: u64) -> Vec<u8> {
    let mut bytes = Vec::new();
    bytes.extend_from_slice(&type_tag.to_ne_bytes());
    bytes.extend_from_slice(&flags.to_ne_bytes());
    bytes.extend_from_slice(&handle.to_ne_bytes());
    bytes.extend_from_slice(&[0, 0, 0, 0]);
    bytes.extend_from_slice(&cookie.to_ne_bytes());
    bytes
}

#[test]
fn new_parcel_is_empty() {
    let parcel = OwnedParcel::new();
    assert_eq!(parcel.len(), 0);
    assert_eq!(parcel.capacity(), 256);
    assert_eq!(parcel.position(), 0);
    assert_eq!(parcel.objects().len(), 0);
    assert_eq!(parcel.has_fds(), Some(false));
    assert!(parcel.allow_fds());
    assert!(!parcel.has_data());
}

#[test]
fn write_i32_is_native_endian() {
    let mut parcel = OwnedParcel::new();
    parcel.write_i32(-2);
    assert_eq!(parcel.as_data_slice(), &(-2i32).to_ne_bytes()[..]);
    assert_eq!(parcel.position(), 4);
    assert_eq!(parcel.len(), 4);
}

#[test]
fn write_u32_is_native_endian() {
    let mut parcel = OwnedParcel::new();
    parcel.write_u32(0xdead_beef);
    assert_eq!(parcel.as_data_slice(), &0xdead_beefu32.to_ne_bytes()[..]);
    assert_eq!(parcel.position(), 4);
}

#[test]
fn write_pointer_is_eight_bytes() {
    let mut parcel = OwnedParcel::new();
    parcel.write_pointer(0x0102_0304_0506_0708);
    assert_eq!(parcel.as_data_slice(), &0x0102_0304_0506_0708u64.to_ne_bytes()[..]);
    assert_eq!(parcel.position(), 8);
}

#[test]
fn i32_round_trip() {
    for value in [0i32, 1, -1, i32::MAX, i32::MIN, 0x1234_5678] {
        let mut parcel = OwnedParcel::new();
        parcel.write_i32(value);
        parcel.set_position(0);
        assert_eq!(parcel.read_i32(), Ok(value));
        assert_eq!(parcel.position(), 4);
    }
}

#[test]
fn u32_round_trip() {
    for value in [0u32, 1, u32::MAX, 0x8000_0000, 0x1234_5678] {
        let mut parcel = OwnedParcel::new();
        parcel.write_u32(value);
        parcel.set_position(0);
        assert_eq!(parcel.read_u32(), Ok(value));
    }
}

#[test]
fn pointer_round_trip() {
    for value in [0u64, 1, u64::MAX, 0x7fff_aaaa_0000_1000] {
        let mut parcel = OwnedParcel::new();
        parcel.write_pointer(value);
        parcel.set_position(0);
        assert_eq!(parcel.read_pointer(), Ok(value));
        assert_eq!(parcel.position(), 8);
    }
}

#[test]
fn write_buf_pads_with_zeros() {
    let mut parcel = OwnedParcel::new();
    parcel.write_buf(&[1, 2, 3, 4, 5]);
    assert_eq!(parcel.as_data_slice(), &[1, 2, 3, 4, 5, 0, 0, 0][..]);
    assert_eq!(parcel.position(), 8);
}

#[test]
fn write_buf_of_nothing_writes_nothing() {
    let mut parcel = OwnedParcel::new();
    parcel.write_buf(&[]);
    assert_eq!(parcel.len(), 0);
    assert_eq!(parcel.position(), 0);
}

#[test]
fn cursor_stays_aligned_after_every_write() {
    for n in 0usize..=17 {
        let mut parcel = OwnedParcel::new();
        let buf = vec![0xabu8; n];
        parcel.write_buf(&buf);
        assert_eq!(parcel.position() % 4, 0);
        assert_eq!(parcel.position() as usize, (n + 3) & !3);
        parcel.write_i32(7);
        assert_eq!(parcel.position() % 4, 0);
    }
}

#[test]
fn cursor_stays_aligned_after_every_read() {
    for n in 0usize..=9 {
        let mut parcel = OwnedParcel::new();
        parcel.write_buf(&[9u8; 12]);
        parcel.set_position(0);
        let got = parcel.read_buf(n).unwrap();
        assert_eq!(got, vec![9u8; n]);
        assert_eq!(parcel.position() % 4, 0);
        assert_eq!(parcel.position() as usize, (n + 3) & !3);
    }
}

#[test]
fn read_buf_returns_the_bytes_written() {
    let mut parcel = OwnedParcel::new();
    parcel.write_buf(&[10, 20, 30]);
    parcel.write_i32(5);
    parcel.set_position(0);
    assert_eq!(parcel.read_buf(3), Ok(vec![10, 20, 30]));
    assert_eq!(parcel.read_i32(), Ok(5));
    assert!(!parcel.has_data());
}

#[test]
fn over_read_is_not_enough_data() {
    let mut parcel = OwnedParcel::new();
    parcel.write_buf(&[1, 2]);
    parcel.set_position(0);
    assert_eq!(parcel.read_buf(5), Err(BinderErrorKind::NotEnoughData));
    assert_eq!(parcel.position(), 0);
    parcel.set_position(4);
    assert_eq!(parcel.read_i32(), Err(BinderErrorKind::NotEnoughData));
    assert_eq!(parcel.read_u32(), Err(BinderErrorKind::NotEnoughData));
    assert_eq!(parcel.read_pointer(), Err(BinderErrorKind::NotEnoughData));
    assert_eq!(parcel.position(), 4);
}

#[test]
fn read_past_the_end_is_not_enough_data() {
    let mut parcel = OwnedParcel::new();
    parcel.write_i32(1);
    parcel.set_position(100);
    assert_eq!(parcel.read_i32(), Err(BinderErrorKind::NotEnoughData));
    assert_eq!(parcel.read_buf(0), Err(BinderErrorKind::NotEnoughData));
    assert_eq!(parcel.position(), 100);
}

#[test]
fn write_over_existing_data() {
    let mut parcel = OwnedParcel::new();
    parcel.write_buf(&[1, 2, 3, 4, 5, 6, 7, 8]);
    parcel.set_position(4);
    parcel.write_buf(&[9]);
    assert_eq!(parcel.as_data_slice(), &[1, 2, 3, 4, 9, 0, 0, 0][..]);
    assert_eq!(parcel.position(), 8);
}

#[test]
fn write_past_the_end_fills_the_gap_with_zeros() {
    let mut parcel = OwnedParcel::new();
    parcel.write_buf(&[1, 2, 3, 4]);
    parcel.set_position(8);
    parcel.write_buf(&[5, 6, 7, 8]);
    assert_eq!(parcel.as_data_slice(), &[1, 2, 3, 4, 0, 0, 0, 0, 5, 6, 7, 8][..]);
}

#[test]
fn string16_layout() {
    let mut parcel = OwnedParcel::new();
    parcel.write_string16("ab");
    let mut expected = Vec::new();
    expected.extend_from_slice(&2i32.to_ne_bytes());
    expected.extend_from_slice(&[b'a', 0, b'b', 0, 0, 0, 0, 0]);
    assert_eq!(parcel.as_data_slice(), &expected[..]);
    assert_eq!(parcel.position(), 12);
}

#[test]
fn string16_round_trip_ascii() {
    for text in ["", "a", "ab", "abc", "does.not.exist", "android.os.IServiceManager"] {
        let mut parcel = OwnedParcel::new();
        parcel.write_string16(text);
        assert_eq!(parcel.position() as usize, 4 + ((2 * (text.len() + 1) + 3) & !3));
        parcel.set_position(0);
        let read = parcel.read_string16().unwrap();
        assert_eq!(read, text);
        assert_eq!(read.len(), text.len());
        assert_eq!(parcel.position() as usize, parcel.len());
    }
}

#[test]
fn string16_round_trip_beyond_ascii() {
    let text = "h\u{e9}llo \u{4e16}\u{754c} \u{1f600}";
    let mut parcel = OwnedParcel::new();
    parcel.write_string16(text);
    let units = text.encode_utf16().count();
    assert_eq!(parcel.as_data_slice()[..4], (units as i32).to_ne_bytes());
    assert_eq!(parcel.position() as usize, 4 + ((2 * (units + 1) + 3) & !3));
    parcel.set_position(0);
    assert_eq!(parcel.read_string16().unwrap(), text);
}

#[test]
fn string16_with_negative_count_is_null() {
    let mut parcel = OwnedParcel::new();
    parcel.write_i32(-1);
    parcel.set_position(0);
    assert_eq!(parcel.read_string16(), Err(BinderErrorKind::UnexpectedNull));
    assert_eq!(parcel.position(), 0);
}

#[test]
fn string16_cut_short_is_not_enough_data() {
    let mut parcel = OwnedParcel::new();
    parcel.write_i32(3);
    parcel.write_buf(&[b'a', 0, b'b', 0]);
    parcel.set_position(0);
    assert_eq!(parcel.read_string16(), Err(BinderErrorKind::NotEnoughData));
    assert_eq!(parcel.position(), 0);
    let mut empty = OwnedParcel::new();
    assert_eq!(empty.read_string16(), Err(BinderErrorKind::NotEnoughData));
}

#[test]
fn interface_token_round_trip() {
    let descriptor = "android.os.IServiceManager";
    let mut parcel = OwnedParcel::new();
    parcel.write_interface_token(descriptor);
    assert_eq!(parcel.len(), (4 + 4 + 2 * (26 + 1) + 3) & !3);
    assert_eq!(parcel.len(), 64);
    parcel.set_position(0);
    assert_eq!(parcel.read_i32(), Ok(0));
    assert_eq!(parcel.read_string16().unwrap(), descriptor);
    assert_eq!(parcel.position(), 64);
}

#[test]
fn set_data_len_cuts_and_grows() {
    let mut parcel = OwnedParcel::new();
    parcel.write_buf(&[1, 2, 3, 4, 5, 6, 7, 8]);
    parcel.set_data_len(4);
    assert_eq!(parcel.as_data_slice(), &[1, 2, 3, 4][..]);
    parcel.set_data_len(6);
    assert_eq!(parcel.as_data_slice(), &[1, 2, 3, 4, 0, 0][..]);
    assert_eq!(parcel.position(), 8);
    assert_eq!(parcel.capacity(), 256);
}

#[test]
fn capacity_grows_with_the_data() {
    let mut parcel = OwnedParcel::new();
    parcel.write_buf(&[7u8; 300]);
    assert_eq!(parcel.len(), 300);
    assert_eq!(parcel.capacity(), 300);
}

#[test]
fn clear_empties_the_parcel() {
    let mut conn = connection();
    let proxy = conn.get_strong_proxy_for_handle(5);
    let mut parcel = OwnedParcel::new();
    parcel.write_i32(1);
    parcel.write_strong_binder(Some(&proxy));
    assert_eq!(parcel.objects(), &[4usize][..]);
    parcel.clear();
    assert_eq!(parcel.len(), 0);
    assert_eq!(parcel.position(), 0);
    assert_eq!(parcel.objects().len(), 0);
    assert_eq!(parcel.has_fds(), Some(false));
}

#[test]
fn receive_takes_the_window() {
    let mut parcel = OwnedParcel::new();
    parcel.write_i32(9);
    let window = [1u8, 2, 3, 4, 5, 6, 7, 8, 0, 0];
    assert_eq!(parcel.receive(&window, 8), Ok(()));
    assert_eq!(parcel.as_data_slice(), &window[..8]);
    assert_eq!(parcel.position(), 0);
    assert_eq!(parcel.has_fds(), None);
    assert_eq!(parcel.receive(&window, 11), Err(BinderErrorKind::BadValue));
    assert_eq!(parcel.as_data_slice(), &window[..8]);
}

#[test]
fn strong_binder_is_entered_in_the_object_table() {
    let mut conn = connection();
    let first = conn.get_strong_proxy_for_handle(7);
    let second = conn.get_strong_proxy_for_handle(9);
    let mut parcel = OwnedParcel::new();
    parcel.write_i32(0);
    parcel.write_strong_binder(Some(&first));
    assert_eq!(parcel.objects(), &[4usize][..]);
    assert_eq!(parcel.position(), 28);
    assert_eq!(
        &parcel.as_data_slice()[4..28],
        &object_bytes(BinderType::Handle.tag(), FLAT_BINDER_DEFAULT_FLAGS, 7, 0)[..]
    );
    parcel.write_strong_binder(Some(&second));
    assert_eq!(parcel.objects(), &[4usize, 28][..]);
    assert!(parcel.objects()[1] > parcel.objects()[0]);
    assert_eq!(
        &parcel.as_data_slice()[28..52],
        &object_bytes(BinderType::Handle.tag(), FLAT_BINDER_DEFAULT_FLAGS, 9, 0)[..]
    );
}

#[test]
fn null_binder_is_not_entered_in_the_object_table() {
    let mut parcel = OwnedParcel::new();
    parcel.write_i32(1);
    parcel.write_strong_binder(None);
    assert_eq!(parcel.objects().len(), 0);
    assert_eq!(parcel.position(), 28);
    assert_eq!(
        &parcel.as_data_slice()[4..],
        &object_bytes(BinderType::Handle.tag(), FLAT_BINDER_DEFAULT_FLAGS, 0, 0)[..]
    );
}

#[test]
fn reference_to_the_context_object_is_entered_in_the_object_table() {
    let mut conn = connection();
    let context = conn.get_strong_proxy_for_handle(0);
    let mut parcel = OwnedParcel::new();
    parcel.write_strong_binder(None);
    assert_eq!(parcel.objects().len(), 0);
    parcel.write_strong_binder(Some(&context));
    assert_eq!(parcel.objects(), &[24usize][..]);
    assert_eq!(parcel.position(), 48);
    assert_eq!(
        &parcel.as_data_slice()[24..48],
        &object_bytes(BinderType::Handle.tag(), FLAT_BINDER_DEFAULT_FLAGS, 0, 0)[..]
    );
}

#[test]
fn every_reference_appends_a_greater_offset() {
    let mut conn = connection();
    let mut parcel = OwnedParcel::new();
    let mut expected = Vec::new();
    for handle in [0u32, 1, 0, u32::MAX, 7] {
        let proxy = conn.get_strong_proxy_for_handle(handle);
        let at = parcel.position() as usize;
        parcel.write_strong_binder(Some(&proxy));
        expected.push(at);
        assert_eq!(parcel.objects(), &expected[..]);
        assert_eq!(parcel.position() as usize, at + 24);
        assert_eq!(
            &parcel.as_data_slice()[at..at + 24],
            &object_bytes(BinderType::Handle.tag(), FLAT_BINDER_DEFAULT_FLAGS, handle, 0)[..]
        );
    }
    assert!(expected.windows(2).all(|pair| pair[0] < pair[1]));
}

#[test]
fn only_the_null_object_is_left_out_of_the_object_table() {
    let kind = BinderType::Binder.tag();
    let mut parcel = OwnedParcel::new();
    let null = FlatBinderObject { type_: kind, flags: 0, target: 0, cookie: 0 };
    assert_eq!(parcel.write_object(null, false), Ok(()));
    assert_eq!(parcel.objects().len(), 0);
    let with_cookie = FlatBinderObject { cookie: 9, ..null };
    assert_eq!(parcel.write_object(with_cookie, false), Ok(()));
    assert_eq!(parcel.objects(), &[24usize][..]);
    let with_target = FlatBinderObject { target: 9, ..null };
    assert_eq!(parcel.write_object(with_target, false), Ok(()));
    assert_eq!(parcel.objects(), &[24usize, 48][..]);
    assert_eq!(parcel.write_object(null, true), Ok(()));
    assert_eq!(parcel.objects(), &[24usize, 48, 72][..]);
}

#[test]
fn strong_binder_round_trip() {
    let mut conn = connection();
    let proxy = conn.get_strong_proxy_for_handle(42);
    let mut parcel = OwnedParcel::new();
    parcel.write_strong_binder(Some(&proxy));
    parcel.set_position(0);
    let read = parcel.read_strong_binder(&mut conn).unwrap().unwrap();
    assert_eq!(read, proxy);
    assert_eq!(read.handle(), 42);
    assert_eq!(conn.strong_count(42), 2);
    assert_eq!(parcel.position(), 24);
}

#[test]
fn null_binder_reads_as_none() {
    let mut conn = connection();
    let mut parcel = OwnedParcel::new();
    parcel.write_strong_binder(None);
    parcel.set_position(0);
    assert_eq!(parcel.read_strong_binder(&mut conn), Ok(None));
    assert_eq!(conn.strong_count(0), 0);
    assert_eq!(conn.pending().len(), 0);
}

#[test]
fn binder_outside_the_object_table_is_bad_type() {
    let mut conn = connection();
    let mut parcel = OwnedParcel::new();
    parcel.write_buf(&object_bytes(BinderType::Handle.tag(), 0, 3, 0));
    parcel.set_position(0);
    assert_eq!(parcel.read_strong_binder(&mut conn), Err(BinderErrorKind::BadType));
    assert_eq!(parcel.position(), 24);
    assert_eq!(conn.strong_count(3), 0);
    parcel.set_position(0);
    assert_eq!(parcel.read_object(false), Err(BinderErrorKind::BadType));
}

#[test]
fn local_binder_is_bad_type() {
    let mut conn = connection();
    let mut parcel = OwnedParcel::new();
    let local = FlatBinderObject {
        type_: BinderType::Binder.tag(),
        flags: 0,
        target: 0x1000,
        cookie: 0x2000,
    };
    assert_eq!(parcel.write_object(local, false), Ok(()));
    assert_eq!(parcel.objects(), &[0usize][..]);
    parcel.set_position(0);
    assert_eq!(parcel.read_object(false), Ok(local));
    parcel.set_position(0);
    assert_eq!(parcel.read_strong_binder(&mut conn), Err(BinderErrorKind::BadType));
}

#[test]
fn read_object_cut_short_is_not_enough_data() {
    let mut parcel = OwnedParcel::new();
    parcel.write_buf(&[0u8; 20]);
    parcel.set_position(0);
    assert_eq!(parcel.read_object(true), Err(BinderErrorKind::NotEnoughData));
    assert_eq!(parcel.position(), 0);
}

#[test]
fn null_object_is_read_only_with_null_metadata() {
    let mut parcel = OwnedParcel::new();
    parcel.write_strong_binder(None);
    parcel.set_position(0);
    let null = parcel.read_object(true).unwrap();
    assert!(null.is_null());
    assert_eq!(null.type_, BinderType::Handle.tag());
    parcel.set_position(0);
    assert_eq!(parcel.read_object(false), Err(BinderErrorKind::BadType));
}

#[test]
fn null_object_is_entered_with_null_metadata() {
    let mut parcel = OwnedParcel::new();
    let null = FlatBinderObject { type_: BinderType::Handle.tag(), flags: 0, target: 0, cookie: 0 };
    assert_eq!(parcel.write_object(null, true), Ok(()));
    assert_eq!(parcel.objects(), &[0usize][..]);
}

#[test]
fn file_descriptors_are_refused_where_not_allowed() {
    let fd = FlatBinderObject { type_: BinderType::Fd.tag(), flags: 0, target: 5, cookie: 0 };
    let mut parcel = OwnedParcel::new();
    parcel.set_allow_fds(false);
    assert_eq!(parcel.write_object(fd, false), Err(BinderErrorKind::FdsNotAllowed));
    assert_eq!(parcel.len(), 0);
    assert_eq!(parcel.objects().len(), 0);
    assert_eq!(parcel.has_fds(), Some(false));
}

#[test]
fn file_descriptors_are_remembered_where_allowed() {
    let fd = FlatBinderObject { type_: BinderType::Fd.tag(), flags: 0, target: 5, cookie: 0 };
    let mut parcel = OwnedParcel::new();
    assert_eq!(parcel.write_object(fd, false), Ok(()));
    assert_eq!(parcel.has_fds(), Some(true));
    assert_eq!(parcel.objects(), &[0usize][..]);
    parcel.set_position(0);
    assert_eq!(parcel.read_object(false), Ok(fd));
}

#[test]
fn borrowed_parcel_reads_like_an_owned_one() {
    let mut data = Vec::new();
    data.extend_from_slice(&77i32.to_ne_bytes());
    data.extend_from_slice(&object_bytes(BinderType::Handle.tag(), 0, 6, 0));
    let offsets = [4usize];
    let mut conn = connection();
    let mut parcel = create_binder_parcel(&data, &offsets, 0xabcd_0000).unwrap();
    assert_eq!(parcel.len(), 28);
    assert_eq!(parcel.buffer(), 0xabcd_0000);
    assert_eq!(parcel.objects(), &offsets[..]);
    assert!(parcel.has_data());
    assert_eq!(parcel.read_i32(), Ok(77));
    let proxy = parcel.read_strong_binder(&mut conn).unwrap().unwrap();
    assert_eq!(proxy.handle(), 6);
    assert!(!parcel.has_data());
    assert_eq!(parcel.read_i32(), Err(BinderErrorKind::NotEnoughData));
    parcel.set_position(0);
    assert_eq!(parcel.position(), 0);
}

#[test]
fn borrowed_parcel_refuses_a_table_that_is_not_its_own() {
    let data = [0u8; 48];
    assert!(create_binder_parcel(&data, &[0, 24], 1).is_ok());
    assert!(create_binder_parcel(&data, &[], 1).is_ok());
    assert_eq!(create_binder_parcel(&data, &[24, 0], 1).err(), Some(BinderErrorKind::BadValue));
    assert_eq!(create_binder_parcel(&data, &[8, 8], 1).err(), Some(BinderErrorKind::BadValue));
    assert_eq!(create_binder_parcel(&data, &[2], 1).err(), Some(BinderErrorKind::BadValue));
    assert_eq!(create_binder_parcel(&data, &[28], 1).err(), Some(BinderErrorKind::BadValue));
    assert_eq!(create_binder_parcel(&data[..8], &[0], 1).err(), Some(BinderErrorKind::BadValue));
}

#[test]
fn releasing_a_borrowed_parcel_frees_its_buffer_once() {
    let data = [1u8, 2, 3, 4];
    let parcel = create_binder_parcel(&data, &[], 0x7f00_1234_5678).unwrap();
    let out = parcel.release();
    let mut expected = Vec::new();
    expected.extend_from_slice(&0x4008_6303u32.to_ne_bytes());
    expected.extend_from_slice(&0x7f00_1234_5678u64.to_ne_bytes());
    assert_eq!(out.as_data_slice(), &expected[..]);
    assert_eq!(out.len(), 12);
    assert_eq!(frame_free_buffer(0x7f00_1234_5678).as_data_slice(), &expected[..]);
}

#[test]
fn room_for_writes() {
    let mut parcel = OwnedParcel::new();
    assert!(parcel.can_write(0));
    assert!(parcel.can_write(1024));
    assert!(parcel.can_write(usize::MAX - 3));
    assert!(!parcel.can_write(usize::MAX - 2));
    assert!(!parcel.can_write(usize::MAX));
    parcel.set_position(usize::MAX - 10);
    assert!(parcel.can_write(7));
    assert!(!parcel.can_write(8));
    assert!(!parcel.string16_fits("a"));
    parcel.set_position(0);
    assert!(parcel.string16_fits("a"));
    assert!(parcel.string16_fits(""));
}

#[test]
fn room_of_a_string() {
    assert_eq!(measure_string16(""), Some(8));
    assert_eq!(measure_string16("a"), Some(8));
    assert_eq!(measure_string16("ab"), Some(12));
    assert_eq!(measure_string16("abc"), Some(12));
    assert_eq!(measure_string16("android.os.IServiceManager"), Some(60));
    assert_eq!(measure_string16("\u{1f600}"), Some(12));
    assert_eq!(measure_string16("\u{e9}"), Some(8));
}

#[test]
fn offsets_are_found_in_the_table() {
    let table = [0usize, 24, 48, 100, 1000];
    for offset in table {
        assert!(table_contains(&table, offset));
    }
    for offset in [1usize, 23, 25, 99, 101, 999, 1001, usize::MAX] {
        assert!(!table_contains(&table, offset));
    }
    assert!(!table_contains(&[], 0));
    assert!(table_contains(&[7], 7));
    assert!(!table_contains(&[7], 8));
}

#[test]
fn string16_units_are_written_low_byte_first() {
    let mut parcel = OwnedParcel::new();
    parcel.write_string16("\u{e9}");
    let mut expected = 1i32.to_ne_bytes().to_vec();
    expected.extend_from_slice(&[0xe9, 0x00, 0x00, 0x00]);
    assert_eq!(parcel.as_data_slice(), &expected[..]);

    let mut parcel = OwnedParcel::new();
    parcel.write_string16("\u{4e16}\u{ffff}");
    let mut expected = 2i32.to_ne_bytes().to_vec();
    expected.extend_from_slice(&[0x16, 0x4e, 0xff, 0xff, 0x00, 0x00, 0x00, 0x00]);
    assert_eq!(parcel.as_data_slice(), &expected[..]);
}

#[test]
fn string16_characters_above_the_first_plane_are_surrogate_pairs() {
    let mut parcel = OwnedParcel::new();
    parcel.write_string16("\u{1f600}");
    let mut expected = 2i32.to_ne_bytes().to_vec();
    expected.extend_from_slice(&[0x3d, 0xd8, 0x00, 0xde, 0x00, 0x00, 0x00, 0x00]);
    assert_eq!(parcel.as_data_slice(), &expected[..]);

    let mut parcel = OwnedParcel::new();
    parcel.write_string16("\u{10000}\u{10ffff}");
    let mut expected = 4i32.to_ne_bytes().to_vec();
    expected.extend_from_slice(&[0x00, 0xd8, 0x00, 0xdc, 0xff, 0xdb, 0xff, 0xdf, 0x00, 0x00]);
    expected.extend_from_slice(&[0x00, 0x00]);
    assert_eq!(parcel.as_data_slice(), &expected[..]);
}

#[test]
fn an_object_without_target_and_cookie_reads_as_no_binder() {
    let mut conn = connection();
    let context = conn.get_strong_proxy_for_handle(0);
    let mut parcel = OwnedParcel::new();
    parcel.write_strong_binder(Some(&context));
    assert_eq!(parcel.objects(), &[0usize][..]);
    parcel.set_position(0);
    assert_eq!(parcel.read_strong_binder(&mut conn), Ok(None));
    assert_eq!(conn.strong_count(0), 1);
    parcel.set_position(0);
    let record = parcel.read_object(false).unwrap();
    assert_eq!(record.type_, BinderType::Handle.tag());
    assert_eq!(record.target, 0);
    assert_eq!(record.flags & 0x100, 0x100);
}
