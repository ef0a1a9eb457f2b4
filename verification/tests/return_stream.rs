use binder::connection::BinderConnection;
use binder::error::BinderErrorKind;
use binder::parcel::{create_binder_parcel, OwnedParcel, Parcel, Reader};
use binder::protocol::{parse_one, ReturnProtocolValue};
use binder::sys::{
    BinderPriPtrCookie, BinderPtrCookie, BinderTransactionData, ReturnProtocol, TransactionTarget,
    TF_ONE_WAY, TF_STATUS_CODE,
};
use binder::transaction::{is_call_frame, CallState, CallStep, Transaction};

fn connection() -> BinderConnection {
    BinderConnection::open(3, 8, 0x7000_0000).unwrap()
}

fn stream(bytes: &[u8]) -> OwnedParcel {
    let mut parcel = OwnedParcel::new();
    assert_eq!(parcel.receive(bytes, bytes.len()), Ok(()));
    parcel
}

fn tag(tag: ReturnProtocol) -> Vec<u8> {
    tag.tag().to_ne_bytes().to_vec()
}

fn reply_descriptor(flags: u32, data_size: u64) -> BinderTransactionData {
    BinderTransactionData {
        target: TransactionTarget::Ptr(0),
        cookie: 0,
        code: 0,
        flags,
        sender_pid: 1234,
        sender_euid: 1000,
        data_size,
        offsets_size: 0,
        buffer: 0x7000_0040,
        offsets: 0x7000_0040 + data_size,
    }
}

fn frame(tag_of: ReturnProtocol, txn: &BinderTransactionData) -> Vec<u8> {
    let mut bytes = tag(tag_of);
    txn.encode(&mut bytes);
    bytes
}

#[test]
fn return_tags_have_their_numbers() {
    assert_eq!(ReturnProtocol::Error.tag(), 0x8004_7200);
    assert_eq!(ReturnProtocol::Okay.tag(), 0x7201);
    assert_eq!(ReturnProtocol::Transaction.tag(), 0x8040_7202);
    assert_eq!(ReturnProtocol::Reply.tag(), 0x8040_7203);
    assert_eq!(ReturnProtocol::AcquireResult.tag(), 0x8004_7204);
    assert_eq!(ReturnProtocol::DeadReply.tag(), 0x7205);
    assert_eq!(ReturnProtocol::TransactionComplete.tag(), 0x7206);
    assert_eq!(ReturnProtocol::IncRefs.tag(), 0x8010_7207);
    assert_eq!(ReturnProtocol::Acquire.tag(), 0x8010_7208);
    assert_eq!(ReturnProtocol::Release.tag(), 0x8010_7209);
    assert_eq!(ReturnProtocol::DecRefs.tag(), 0x8010_720a);
    assert_eq!(ReturnProtocol::AttemptAcquire.tag(), 0x8018_720b);
    assert_eq!(ReturnProtocol::Noop.tag(), 0x720c);
    assert_eq!(ReturnProtocol::SpawnLooper.tag(), 0x720d);
    assert_eq!(ReturnProtocol::Finished.tag(), 0x720e);
    assert_eq!(ReturnProtocol::DeadBinder.tag(), 0x8008_720f);
    assert_eq!(ReturnProtocol::ClearDeathNotificationDone.tag(), 0x8008_7210);
    assert_eq!(ReturnProtocol::FailedReply.tag(), 0x7211);
}

#[test]
fn every_return_tag_is_found_again() {
    let all = [
        ReturnProtocol::Error,
        ReturnProtocol::Okay,
        ReturnProtocol::Transaction,
        ReturnProtocol::Reply,
        ReturnProtocol::AcquireResult,
        ReturnProtocol::DeadReply,
        ReturnProtocol::TransactionComplete,
        ReturnProtocol::IncRefs,
        ReturnProtocol::Acquire,
        ReturnProtocol::Release,
        ReturnProtocol::DecRefs,
        ReturnProtocol::AttemptAcquire,
        ReturnProtocol::Noop,
        ReturnProtocol::SpawnLooper,
        ReturnProtocol::Finished,
        ReturnProtocol::DeadBinder,
        ReturnProtocol::ClearDeathNotificationDone,
        ReturnProtocol::FailedReply,
    ];
    for tag in all {
        assert_eq!(ReturnProtocol::from_primitive(tag.tag()), Some(tag));
        assert_eq!(((tag.tag() >> 16) & 0x3fff) as usize, tag.payload_len());
    }
    assert_eq!(ReturnProtocol::from_primitive(0), None);
    assert_eq!(ReturnProtocol::from_primitive(0x7212), None);
    assert_eq!(ReturnProtocol::from_primitive(0x4040_6300), None);
}

#[test]
fn frames_without_payload() {
    let cases = [
        (ReturnProtocol::Okay, ReturnProtocolValue::Okay),
        (ReturnProtocol::DeadReply, ReturnProtocolValue::DeadReply),
        (ReturnProtocol::TransactionComplete, ReturnProtocolValue::TransactionComplete),
        (ReturnProtocol::Noop, ReturnProtocolValue::Noop),
        (ReturnProtocol::SpawnLooper, ReturnProtocolValue::SpawnLooper),
        (ReturnProtocol::Finished, ReturnProtocolValue::Finished),
        (ReturnProtocol::FailedReply, ReturnProtocolValue::FailedReply),
    ];
    for (word, expected) in cases {
        let mut input = stream(&tag(word));
        assert_eq!(parse_one(&mut input), Ok(Some(expected)));
        assert_eq!(input.position(), 4);
        assert_eq!(parse_one(&mut input), Ok(None));
        assert_eq!(input.position(), 4);
    }
}

#[test]
fn frames_with_an_integer() {
    let mut bytes = tag(ReturnProtocol::Error);
    bytes.extend_from_slice(&(-32i32).to_ne_bytes());
    bytes.extend_from_slice(&tag(ReturnProtocol::AcquireResult));
    bytes.extend_from_slice(&1i32.to_ne_bytes());
    let mut input = stream(&bytes);
    assert_eq!(parse_one(&mut input), Ok(Some(ReturnProtocolValue::Error(-32))));
    assert_eq!(input.position(), 8);
    assert_eq!(parse_one(&mut input), Ok(Some(ReturnProtocolValue::AcquireResult(1))));
    assert_eq!(input.position(), 16);
    assert_eq!(parse_one(&mut input), Ok(None));
}

#[test]
fn frames_with_a_descriptor() {
    let txn = BinderTransactionData {
        target: TransactionTarget::Ptr(0x1111_2222_3333_4444),
        cookie: 0x5555_6666_7777_8888,
        code: 17,
        flags: 0x10,
        sender_pid: -5,
        sender_euid: 10_001,
        data_size: 128,
        offsets_size: 16,
        buffer: 0x7000_1000,
        offsets: 0x7000_1080,
    };
    let mut bytes = frame(ReturnProtocol::Transaction, &txn);
    bytes.extend_from_slice(&frame(ReturnProtocol::Reply, &txn));
    assert_eq!(bytes.len(), 136);
    let mut input = stream(&bytes);
    assert_eq!(parse_one(&mut input), Ok(Some(ReturnProtocolValue::Transaction(txn))));
    assert_eq!(input.position(), 68);
    assert_eq!(parse_one(&mut input), Ok(Some(ReturnProtocolValue::Reply(txn))));
    assert_eq!(input.position(), 136);
}

#[test]
fn frames_with_pointers() {
    let pair = BinderPtrCookie { ptr: 0xaaaa_0000_1111, cookie: 0xbbbb_0000_2222 };
    let mut bytes = Vec::new();
    for word in [
        ReturnProtocol::IncRefs,
        ReturnProtocol::Acquire,
        ReturnProtocol::Release,
        ReturnProtocol::DecRefs,
    ] {
        bytes.extend_from_slice(&tag(word));
        bytes.extend_from_slice(&pair.ptr.to_ne_bytes());
        bytes.extend_from_slice(&pair.cookie.to_ne_bytes());
    }
    bytes.extend_from_slice(&tag(ReturnProtocol::AttemptAcquire));
    bytes.extend_from_slice(&(-3i32).to_ne_bytes());
    bytes.extend_from_slice(&[0xff; 4]);
    bytes.extend_from_slice(&7u64.to_ne_bytes());
    bytes.extend_from_slice(&8u64.to_ne_bytes());
    bytes.extend_from_slice(&tag(ReturnProtocol::DeadBinder));
    bytes.extend_from_slice(&0xdead_0001u64.to_ne_bytes());
    bytes.extend_from_slice(&tag(ReturnProtocol::ClearDeathNotificationDone));
    bytes.extend_from_slice(&0xdead_0002u64.to_ne_bytes());
    let mut input = stream(&bytes);
    assert_eq!(parse_one(&mut input), Ok(Some(ReturnProtocolValue::IncRefs(pair))));
    assert_eq!(parse_one(&mut input), Ok(Some(ReturnProtocolValue::Acquire(pair))));
    assert_eq!(parse_one(&mut input), Ok(Some(ReturnProtocolValue::Release(pair))));
    assert_eq!(parse_one(&mut input), Ok(Some(ReturnProtocolValue::DecRefs(pair))));
    assert_eq!(input.position(), 80);
    assert_eq!(
        parse_one(&mut input),
        Ok(Some(ReturnProtocolValue::AttemptAcquire(BinderPriPtrCookie {
            priority: -3,
            ptr: 7,
            cookie: 8
        })))
    );
    assert_eq!(input.position(), 108);
    assert_eq!(parse_one(&mut input), Ok(Some(ReturnProtocolValue::DeadBinder(0xdead_0001))));
    assert_eq!(
        parse_one(&mut input),
        Ok(Some(ReturnProtocolValue::ClearDeathNotificationDone(0xdead_0002)))
    );
    assert_eq!(input.position() as usize, bytes.len());
    assert_eq!(parse_one(&mut input), Ok(None));
}

#[test]
fn unknown_tag_is_unknown_transaction() {
    let mut bytes = tag(ReturnProtocol::Noop);
    bytes.extend_from_slice(&0x1234_5678u32.to_ne_bytes());
    let mut input = stream(&bytes);
    assert_eq!(parse_one(&mut input), Ok(Some(ReturnProtocolValue::Noop)));
    assert_eq!(parse_one(&mut input), Err(BinderErrorKind::UnknownTransaction));
    assert_eq!(input.position(), 4);
}

#[test]
fn payload_cut_short_is_not_enough_data() {
    let mut bytes = tag(ReturnProtocol::Error);
    bytes.extend_from_slice(&[1, 2]);
    let mut input = stream(&bytes);
    assert_eq!(parse_one(&mut input), Err(BinderErrorKind::NotEnoughData));
    assert_eq!(input.position(), 0);
    let txn = reply_descriptor(0, 0);
    let whole = frame(ReturnProtocol::Reply, &txn);
    let mut input = stream(&whole[..67]);
    assert_eq!(parse_one(&mut input), Err(BinderErrorKind::NotEnoughData));
}

#[test]
fn a_suffix_shorter_than_a_tag_ends_the_stream() {
    for extra in 0usize..4 {
        let mut bytes = tag(ReturnProtocol::Noop);
        bytes.extend_from_slice(&tag(ReturnProtocol::TransactionComplete));
        bytes.extend_from_slice(&vec![0x72u8; extra]);
        let mut input = stream(&bytes);
        let mut frames = Vec::new();
        while let Some(frame) = parse_one(&mut input).unwrap() {
            frames.push(frame);
        }
        assert_eq!(frames, vec![ReturnProtocolValue::Noop, ReturnProtocolValue::TransactionComplete]);
        assert_eq!(input.position(), 8);
        assert_eq!(input.len() - input.position() as usize, extra);
    }
}

#[test]
fn the_interpreter_reads_a_borrowed_parcel_too() {
    let bytes = tag(ReturnProtocol::SpawnLooper);
    let mut input = create_binder_parcel(&bytes, &[], 0).unwrap();
    assert_eq!(parse_one(&mut input), Ok(Some(ReturnProtocolValue::SpawnLooper)));
    assert_eq!(parse_one(&mut input), Ok(None));
}

#[test]
fn reply_ends_the_call() {
    let mut conn = connection();
    let txn_data = reply_descriptor(0, 8);
    let mut bytes = tag(ReturnProtocol::Noop);
    bytes.extend_from_slice(&tag(ReturnProtocol::TransactionComplete));
    bytes.extend_from_slice(&frame(ReturnProtocol::Reply, &txn_data));
    bytes.extend_from_slice(&tag(ReturnProtocol::Noop));
    let mut input = stream(&bytes);
    let mut txn = Transaction::new(1, 2, 0);
    assert_eq!(txn.state(), CallState::Sending);
    assert_eq!(txn.drain(&mut conn, &mut input), CallStep::Reply(txn_data));
    assert_eq!(txn.state(), CallState::Replied);
    assert!(txn.state().is_terminal());
    assert_eq!(input.position(), 76);
}

#[test]
fn an_exhausted_stream_leaves_the_call_pending() {
    let mut conn = connection();
    let mut txn = Transaction::new(1, 2, 0);
    let mut input = stream(&[]);
    assert_eq!(txn.drain(&mut conn, &mut input), CallStep::Pending);
    assert_eq!(txn.state(), CallState::Sending);
    let mut bytes = tag(ReturnProtocol::Noop);
    bytes.extend_from_slice(&tag(ReturnProtocol::TransactionComplete));
    bytes.extend_from_slice(&tag(ReturnProtocol::SpawnLooper));
    let mut input = stream(&bytes);
    assert_eq!(txn.drain(&mut conn, &mut input), CallStep::Pending);
    assert_eq!(txn.state(), CallState::Awaiting);
    assert!(!txn.state().is_terminal());
    assert_eq!(input.position(), 12);
    let mut input = stream(&frame(ReturnProtocol::Reply, &reply_descriptor(0, 0)));
    assert_eq!(txn.drain(&mut conn, &mut input), CallStep::Reply(reply_descriptor(0, 0)));
    assert_eq!(txn.state(), CallState::Replied);
}

#[test]
fn a_dead_peer_ends_the_call_with_dead_object() {
    let mut conn = connection();
    let mut bytes = tag(ReturnProtocol::TransactionComplete);
    bytes.extend_from_slice(&tag(ReturnProtocol::DeadBinder));
    bytes.extend_from_slice(&0x55u64.to_ne_bytes());
    bytes.extend_from_slice(&tag(ReturnProtocol::DeadReply));
    let mut input = stream(&bytes);
    let mut txn = Transaction::new(9, 1, 0);
    assert_eq!(txn.drain(&mut conn, &mut input), CallStep::Fail(BinderErrorKind::DeadObject));
    assert_eq!(txn.state(), CallState::Dead);
    assert_eq!(input.position() as usize, bytes.len());
}

#[test]
fn a_failed_reply_ends_the_call_with_failed_transaction() {
    let mut conn = connection();
    let mut bytes = tag(ReturnProtocol::TransactionComplete);
    bytes.extend_from_slice(&tag(ReturnProtocol::FailedReply));
    let mut input = stream(&bytes);
    let mut txn = Transaction::new(9, 1, 0);
    assert_eq!(
        txn.drain(&mut conn, &mut input),
        CallStep::Fail(BinderErrorKind::FailedTransaction)
    );
    assert_eq!(txn.state(), CallState::Failed);
}

#[test]
fn a_status_from_the_driver_ends_the_call_with_its_kind() {
    let mut conn = connection();
    let mut bytes = tag(ReturnProtocol::Error);
    bytes.extend_from_slice(&(-12i32).to_ne_bytes());
    let mut input = stream(&bytes);
    let mut txn = Transaction::new(9, 1, 0);
    assert_eq!(txn.drain(&mut conn, &mut input), CallStep::Fail(BinderErrorKind::NoMemory));
    assert_eq!(txn.state(), CallState::Failed);
}

#[test]
fn finished_ends_the_call_with_a_timeout() {
    let mut conn = connection();
    let mut input = stream(&tag(ReturnProtocol::Finished));
    let mut txn = Transaction::new(9, 1, 0);
    assert_eq!(txn.drain(&mut conn, &mut input), CallStep::Fail(BinderErrorKind::TimedOut));
    assert_eq!(txn.state(), CallState::Failed);
}

#[test]
fn bytes_that_are_no_frame_fail_the_call() {
    let mut conn = connection();
    let mut input = stream(&0xffff_ffffu32.to_ne_bytes());
    let mut txn = Transaction::new(9, 1, 0);
    assert_eq!(
        txn.drain(&mut conn, &mut input),
        CallStep::Fail(BinderErrorKind::UnknownTransaction)
    );
    assert_eq!(txn.state(), CallState::Failed);
    assert_eq!(input.position(), 0);
}

#[test]
fn a_one_way_call_is_over_when_the_driver_has_taken_it() {
    let mut conn = connection();
    let mut bytes = tag(ReturnProtocol::Noop);
    bytes.extend_from_slice(&tag(ReturnProtocol::TransactionComplete));
    bytes.extend_from_slice(&tag(ReturnProtocol::Noop));
    let mut input = stream(&bytes);
    let mut txn = Transaction::new(9, 1, TF_ONE_WAY);
    assert!(txn.is_one_way());
    assert_eq!(txn.drain(&mut conn, &mut input), CallStep::Done);
    assert_eq!(txn.state(), CallState::Replied);
    assert_eq!(input.position(), 8);
}

#[test]
fn frames_in_passing_do_not_end_the_call() {
    let mut conn = connection();
    let pair = BinderPtrCookie { ptr: 1, cookie: 2 };
    let passing = [
        ReturnProtocolValue::Okay,
        ReturnProtocolValue::AcquireResult(0),
        ReturnProtocolValue::Transaction(reply_descriptor(0, 0)),
        ReturnProtocolValue::IncRefs(pair),
        ReturnProtocolValue::Acquire(pair),
        ReturnProtocolValue::Release(pair),
        ReturnProtocolValue::DecRefs(pair),
        ReturnProtocolValue::AttemptAcquire(BinderPriPtrCookie { priority: 0, ptr: 1, cookie: 2 }),
        ReturnProtocolValue::Noop,
        ReturnProtocolValue::SpawnLooper,
        ReturnProtocolValue::DeadBinder(3),
        ReturnProtocolValue::ClearDeathNotificationDone(3),
    ];
    for frame in passing {
        assert_eq!(conn.execute_command(frame), Ok(()));
        let mut txn = Transaction::new(1, 1, 0);
        assert_eq!(txn.on_frame(&mut conn, frame), CallStep::Pending);
        assert_eq!(txn.state(), CallState::Sending);
    }
    assert_eq!(
        conn.execute_command(ReturnProtocolValue::Error(-110)),
        Err(BinderErrorKind::TimedOut)
    );
    assert_eq!(
        conn.execute_command(ReturnProtocolValue::Error(-1000)),
        Err(BinderErrorKind::UnknownError(-1000))
    );
    assert_eq!(
        conn.execute_command(ReturnProtocolValue::Error(5)),
        Err(BinderErrorKind::UnknownError(5))
    );
    assert_eq!(conn.execute_command(ReturnProtocolValue::Finished), Err(BinderErrorKind::TimedOut));
}

#[test]
fn a_reply_that_is_a_status_is_an_error() {
    let status = (-32i32).to_ne_bytes();
    let reply = create_binder_parcel(&status, &[], 0x7000_0040).unwrap();
    match binder::connection::take_reply(TF_STATUS_CODE, reply) {
        Err((kind, out)) => {
            assert_eq!(kind, BinderErrorKind::DeadObject);
            let mut expected = 0x4008_6303u32.to_ne_bytes().to_vec();
            expected.extend_from_slice(&0x7000_0040u64.to_ne_bytes());
            assert_eq!(out.as_data_slice(), &expected[..]);
        }
        Ok(_) => panic!("a status is no reply"),
    }
    let empty = create_binder_parcel(&[], &[], 0x7000_0040).unwrap();
    match binder::connection::take_reply(TF_STATUS_CODE | 0x10, empty) {
        Err((kind, _)) => assert_eq!(kind, BinderErrorKind::NotEnoughData),
        Ok(_) => panic!("a status is no reply"),
    }
    let unknown = 77i32.to_ne_bytes();
    let reply = create_binder_parcel(&unknown, &[], 0x7000_0040).unwrap();
    match binder::connection::take_reply(TF_STATUS_CODE, reply) {
        Err((kind, _)) => assert_eq!(kind, BinderErrorKind::UnknownError(77)),
        Ok(_) => panic!("a status is no reply"),
    }
}

#[test]
fn a_reply_that_is_no_status_is_handed_on() {
    let payload = 5i32.to_ne_bytes();
    let reply = create_binder_parcel(&payload, &[], 0x7000_0040).unwrap();
    match binder::connection::take_reply(0x10, reply) {
        Ok(mut parcel) => {
            assert_eq!(parcel.position(), 0);
            assert_eq!(parcel.read_i32(), Ok(5));
            assert_eq!(parcel.buffer(), 0x7000_0040);
        }
        Err(_) => panic!("the reply is no status"),
    }
}

#[test]
fn frames_of_the_call_are_told_from_frames_in_passing() {
    assert!(is_call_frame(ReturnProtocolValue::Reply(reply_descriptor(0, 0))));
    assert!(is_call_frame(ReturnProtocolValue::DeadReply));
    assert!(is_call_frame(ReturnProtocolValue::FailedReply));
    assert!(is_call_frame(ReturnProtocolValue::TransactionComplete));
    assert!(!is_call_frame(ReturnProtocolValue::Transaction(reply_descriptor(0, 0))));
    assert!(!is_call_frame(ReturnProtocolValue::Noop));
    assert!(!is_call_frame(ReturnProtocolValue::Error(-1)));
    assert!(!is_call_frame(ReturnProtocolValue::Finished));
}
