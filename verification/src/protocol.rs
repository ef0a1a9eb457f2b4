//! The interpreter of the driver's return stream: a sequence of frames, each
//! a tag and the payload that the tag calls for.

use crate::codec::{get_i32, get_u32, get_u64, i32_at, readable, u32_at, u64_at};
use crate::error::BinderErrorKind;
use crate::parcel::{Parcel, Reader};
use crate::sys::{BinderPriPtrCookie, BinderPtrCookie, BinderTransactionData, ReturnProtocol};
use vstd::prelude::*;

verus! {

/// One frame of the return stream.
#[derive(Debug, Clone, Copy, PartialEq, Eq, Structural)]
pub enum ReturnProtocolValue {
    /// The command before was accepted.
    Okay,
    /// The driver reports a status.
    Error(i32),
    /// A request from another process.
    Transaction(BinderTransactionData),
    /// The reply to the transaction that was sent.
    Reply(BinderTransactionData),
    /// The result of an attempt to acquire.
    AcquireResult(i32),
    /// The target died before it replied.
    DeadReply,
    /// The driver has taken the transaction.
    TransactionComplete,
    IncRefs(BinderPtrCookie),
    Acquire(BinderPtrCookie),
    Release(BinderPtrCookie),
    DecRefs(BinderPtrCookie),
    AttemptAcquire(BinderPriPtrCookie),
    Noop,
    SpawnLooper,
    Finished,
    /// The peer with this cookie died.
    DeadBinder(u64),
    ClearDeathNotificationDone(u64),
    /// The other side reported that the transaction failed.
    FailedReply,
}

impl ReturnProtocolValue {
    /// The tag of the frame.
    pub open spec fn spec_tag(self) -> ReturnProtocol {
        match self {
            ReturnProtocolValue::Okay => ReturnProtocol::Okay,
            ReturnProtocolValue::Error(_) => ReturnProtocol::Error,
            ReturnProtocolValue::Transaction(_) => ReturnProtocol::Transaction,
            ReturnProtocolValue::Reply(_) => ReturnProtocol::Reply,
            ReturnProtocolValue::AcquireResult(_) => ReturnProtocol::AcquireResult,
            ReturnProtocolValue::DeadReply => ReturnProtocol::DeadReply,
            ReturnProtocolValue::TransactionComplete => ReturnProtocol::TransactionComplete,
            ReturnProtocolValue::IncRefs(_) => ReturnProtocol::IncRefs,
            ReturnProtocolValue::Acquire(_) => ReturnProtocol::Acquire,
            ReturnProtocolValue::Release(_) => ReturnProtocol::Release,
            ReturnProtocolValue::DecRefs(_) => ReturnProtocol::DecRefs,
            ReturnProtocolValue::AttemptAcquire(_) => ReturnProtocol::AttemptAcquire,
            ReturnProtocolValue::Noop => ReturnProtocol::Noop,
            ReturnProtocolValue::SpawnLooper => ReturnProtocol::SpawnLooper,
            ReturnProtocolValue::Finished => ReturnProtocol::Finished,
            ReturnProtocolValue::DeadBinder(_) => ReturnProtocol::DeadBinder,
            ReturnProtocolValue::ClearDeathNotificationDone(_) =>
                ReturnProtocol::ClearDeathNotificationDone,
            ReturnProtocolValue::FailedReply => ReturnProtocol::FailedReply,
        }
    }

    /// The bytes of the frame: the tag and the payload.
    pub open spec fn frame_len(self) -> int {
        4 + self.spec_tag().spec_payload_len()
    }
}

/// The frame with the tag `tag` whose payload lies at `pos`.
pub open spec fn frame_of(tag: ReturnProtocol, bytes: Seq<u8>, pos: int) -> ReturnProtocolValue {
    match tag {
        ReturnProtocol::Okay => ReturnProtocolValue::Okay,
        ReturnProtocol::Error => ReturnProtocolValue::Error(i32_at(bytes, pos)),
        ReturnProtocol::Transaction => ReturnProtocolValue::Transaction(
            BinderTransactionData::at(bytes, pos),
        ),
        ReturnProtocol::Reply => ReturnProtocolValue::Reply(BinderTransactionData::at(bytes, pos)),
        ReturnProtocol::AcquireResult => ReturnProtocolValue::AcquireResult(i32_at(bytes, pos)),
        ReturnProtocol::DeadReply => ReturnProtocolValue::DeadReply,
        ReturnProtocol::TransactionComplete => ReturnProtocolValue::TransactionComplete,
        ReturnProtocol::IncRefs => ReturnProtocolValue::IncRefs(BinderPtrCookie::at(bytes, pos)),
        ReturnProtocol::Acquire => ReturnProtocolValue::Acquire(BinderPtrCookie::at(bytes, pos)),
        ReturnProtocol::Release => ReturnProtocolValue::Release(BinderPtrCookie::at(bytes, pos)),
        ReturnProtocol::DecRefs => ReturnProtocolValue::DecRefs(BinderPtrCookie::at(bytes, pos)),
        ReturnProtocol::AttemptAcquire => ReturnProtocolValue::AttemptAcquire(
            BinderPriPtrCookie::at(bytes, pos),
        ),
        ReturnProtocol::Noop => ReturnProtocolValue::Noop,
        ReturnProtocol::SpawnLooper => ReturnProtocolValue::SpawnLooper,
        ReturnProtocol::Finished => ReturnProtocolValue::Finished,
        ReturnProtocol::DeadBinder => ReturnProtocolValue::DeadBinder(u64_at(bytes, pos)),
        ReturnProtocol::ClearDeathNotificationDone =>
            ReturnProtocolValue::ClearDeathNotificationDone(u64_at(bytes, pos)),
        ReturnProtocol::FailedReply => ReturnProtocolValue::FailedReply,
    }
}

/// What the interpreter makes of the bytes at `pos`: a frame and the
/// position behind it; nothing, where fewer than four bytes are left; or an
/// error, where the word at `pos` is no tag (`UnknownTransaction`) or the
/// stream ends inside the payload (`NotEnoughData`).
pub open spec fn frame_at(bytes: Seq<u8>, pos: int) -> Result<
    Option<(ReturnProtocolValue, int)>,
    BinderErrorKind,
> {
    if !readable(bytes, pos, 4) {
        Ok(None)
    } else {
        match ReturnProtocol::spec_from_primitive(u32_at(bytes, pos)) {
            None => Err(BinderErrorKind::UnknownTransaction),
            Some(tag) => if !readable(bytes, pos + 4, tag.spec_payload_len() as int) {
                Err(BinderErrorKind::NotEnoughData)
            } else {
                Ok(Some((frame_of(tag, bytes, pos + 4), pos + 4 + tag.spec_payload_len())))
            },
        }
    }
}

/// Reads the payload of a frame.
fn decode_frame(tag: ReturnProtocol, data: &[u8], pos: usize) -> (frame: ReturnProtocolValue)
    requires
        pos + tag.spec_payload_len() <= data.len(),
    ensures
        frame == frame_of(tag, data@, pos as int),
{
    match tag {
        ReturnProtocol::Okay => ReturnProtocolValue::Okay,
        ReturnProtocol::Error => ReturnProtocolValue::Error(get_i32(data, pos)),
        ReturnProtocol::Transaction => ReturnProtocolValue::Transaction(
            BinderTransactionData::decode(data, pos),
        ),
        ReturnProtocol::Reply => ReturnProtocolValue::Reply(
            BinderTransactionData::decode(data, pos),
        ),
        ReturnProtocol::AcquireResult => ReturnProtocolValue::AcquireResult(get_i32(data, pos)),
        ReturnProtocol::DeadReply => ReturnProtocolValue::DeadReply,
        ReturnProtocol::TransactionComplete => ReturnProtocolValue::TransactionComplete,
        ReturnProtocol::IncRefs => ReturnProtocolValue::IncRefs(BinderPtrCookie::decode(data, pos)),
        ReturnProtocol::Acquire => ReturnProtocolValue::Acquire(BinderPtrCookie::decode(data, pos)),
        ReturnProtocol::Release => ReturnProtocolValue::Release(BinderPtrCookie::decode(data, pos)),
        ReturnProtocol::DecRefs => ReturnProtocolValue::DecRefs(BinderPtrCookie::decode(data, pos)),
        ReturnProtocol::AttemptAcquire => ReturnProtocolValue::AttemptAcquire(
            BinderPriPtrCookie::decode(data, pos),
        ),
        ReturnProtocol::Noop => ReturnProtocolValue::Noop,
        ReturnProtocol::SpawnLooper => ReturnProtocolValue::SpawnLooper,
        ReturnProtocol::Finished => ReturnProtocolValue::Finished,
        ReturnProtocol::DeadBinder => ReturnProtocolValue::DeadBinder(get_u64(data, pos)),
        ReturnProtocol::ClearDeathNotificationDone =>
            ReturnProtocolValue::ClearDeathNotificationDone(get_u64(data, pos)),
        ReturnProtocol::FailedReply => ReturnProtocolValue::FailedReply,
    }
}

/// Reads one frame at the cursor and moves the cursor behind it. Where the
/// stream is exhausted, or the bytes at the cursor are no frame, the cursor
/// stays.
pub fn parse_one<T: Parcel>(input: &mut T) -> (r: Result<
    Option<ReturnProtocolValue>,
    BinderErrorKind,
>)
    requires
        old(input).wf(),
    ensures
        match (r, frame_at(old(input).bytes(), old(input).cursor())) {
            (Ok(Some(frame)), Ok(Some((expected, next)))) => frame == expected && *final(input)
                == old(input).at(next) && final(input).cursor() == old(input).cursor()
                + frame.frame_len(),
            (Ok(None), Ok(None)) => *final(input) == *old(input),
            (Err(e), Err(expected)) => e == expected && *final(input) == *old(input),
            _ => false,
        },
        final(input).wf(),
        final(input).bytes() == old(input).bytes(),
        final(input).offsets() == old(input).offsets(),
        old(input).cursor() % 4 == 0 ==> final(input).cursor() % 4 == 0,
{
    let pos: usize = input.position() as usize;
    let data = input.as_data_slice();
    proof {
        input.lemma_wf();
    }
    if data.len() < 4 || pos > data.len() - 4 {
        return Ok(None);
    }
    let word: u32 = get_u32(data, pos);
    match ReturnProtocol::from_primitive(word) {
        None => Err(BinderErrorKind::UnknownTransaction),
        Some(tag) => {
            let need: usize = tag.payload_len();
            if data.len() - pos - 4 < need {
                return Err(BinderErrorKind::NotEnoughData);
            }
            let frame = decode_frame(tag, data, pos + 4);
            let next: usize = pos + 4 + need;
            proof {
                input.lemma_at(next as int);
            }
            input.seek(next);
            Ok(Some(frame))
        },
    }
}

/// The frames that the interpreter reads from `pos` on, one after the
/// other, until fewer than four bytes are left or the bytes are no frame.
pub open spec fn frames_from(bytes: Seq<u8>, pos: int) -> Seq<ReturnProtocolValue>
    decreases bytes.len() - pos,
{
    match frame_at(bytes, pos) {
        Ok(Some((frame, next))) => seq![frame] + frames_from(bytes, next),
        _ => Seq::empty(),
    }
}

/// Where the interpreter stops when it reads from `pos` on.
pub open spec fn frames_end(bytes: Seq<u8>, pos: int) -> int
    decreases bytes.len() - pos,
{
    match frame_at(bytes, pos) {
        Ok(Some((frame, next))) => frames_end(bytes, next),
        _ => pos,
    }
}

/// Whether the interpreter reads from `pos` on without an error.
pub open spec fn frames_clean(bytes: Seq<u8>, pos: int) -> bool
    decreases bytes.len() - pos,
{
    match frame_at(bytes, pos) {
        Ok(Some((frame, next))) => frames_clean(bytes, next),
        Ok(None) => true,
        Err(_) => false,
    }
}

/// The bytes that a sequence of frames takes.
pub open spec fn frames_len(frames: Seq<ReturnProtocolValue>) -> int
    decreases frames.len(),
{
    if frames.len() == 0 {
        0
    } else {
        frames[0].frame_len() + frames_len(frames.drop_first())
    }
}

/// The interpreter leaves no byte out: the frames that it reads from `pos`
/// on lie one behind the other from `pos` to where it stops, and where it
/// stops without an error, fewer than four bytes are left, too few for
/// another tag.
pub proof fn lemma_interpreter_total(bytes: Seq<u8>, pos: int)
    requires
        0 <= pos <= bytes.len(),
    ensures
        pos + frames_len(frames_from(bytes, pos)) == frames_end(bytes, pos),
        frames_end(bytes, pos) <= bytes.len(),
        frames_clean(bytes, pos) ==> bytes.len() - frames_end(bytes, pos) < 4,
    decreases bytes.len() - pos,
{
    match frame_at(bytes, pos) {
        Ok(Some((frame, next))) => {
            lemma_interpreter_total(bytes, next);
            let rest = frames_from(bytes, next);
            assert((seq![frame] + rest).drop_first() =~= rest);
        },
        _ => {},
    }
}

} // verus!
