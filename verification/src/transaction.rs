//! The client's side of one transaction: what is written to start it, and
//! what each frame of the return stream means for it.

use crate::connection::BinderConnection;
use crate::error::{wire_kind, BinderErrorKind};
use crate::parcel::{Parcel, Reader};
use crate::protocol::{
    frame_at, frames_clean, frames_from, parse_one, ReturnProtocolValue,
};
use crate::sys::{BinderTransactionData, TransactionTarget, TF_ACCEPT_FDS, TF_ONE_WAY};
use vstd::prelude::*;

verus! {

/// The transactions that every Binder object answers.
#[derive(Debug, Clone, Copy, PartialEq, Eq, Hash, Structural)]
pub enum BinderProtocol {
    /// Asks whether the object is alive.
    PingTransaction,
    DumpTransaction,
    ShellCommandTransaction,
    /// Asks for the descriptor of the object's interface.
    InterfaceTransaction,
    SyspropsTransaction,
}

impl BinderProtocol {
    /// The transaction's code: an underscore and three letters, packed.
    pub open spec fn spec_code(self) -> u32 {
        match self {
            BinderProtocol::PingTransaction => 0x5f50_4e47u32,
            BinderProtocol::DumpTransaction => 0x5f44_4d50u32,
            BinderProtocol::ShellCommandTransaction => 0x5f43_4d44u32,
            BinderProtocol::InterfaceTransaction => 0x5f4e_5446u32,
            BinderProtocol::SyspropsTransaction => 0x5f53_5052u32,
        }
    }

    #[verifier::when_used_as_spec(spec_code)]
    pub fn code(self) -> (c: u32)
        ensures
            c == self.spec_code(),
    {
        match self {
            BinderProtocol::PingTransaction => 0x5f50_4e47u32,
            BinderProtocol::DumpTransaction => 0x5f44_4d50u32,
            BinderProtocol::ShellCommandTransaction => 0x5f43_4d44u32,
            BinderProtocol::InterfaceTransaction => 0x5f4e_5446u32,
            BinderProtocol::SyspropsTransaction => 0x5f53_5052u32,
        }
    }
}

/// Where a call stands.
#[derive(Debug, Clone, Copy, PartialEq, Eq, Structural)]
pub enum CallState {
    /// The transaction was written and the driver has not taken it yet.
    Sending,
    /// The driver has taken the transaction and the reply is awaited.
    Awaiting,
    /// The call is over: the reply came, or none was asked for.
    Replied,
    /// The call is over: the target died.
    Dead,
    /// The call is over: it failed.
    Failed,
}

impl CallState {
    /// Whether the call is over.
    pub open spec fn spec_is_terminal(self) -> bool {
        self == CallState::Replied || self == CallState::Dead || self == CallState::Failed
    }

    #[verifier::when_used_as_spec(spec_is_terminal)]
    pub fn is_terminal(self) -> (r: bool)
        ensures
            r == self.spec_is_terminal(),
    {
        match self {
            CallState::Replied | CallState::Dead | CallState::Failed => true,
            _ => false,
        }
    }
}

/// What the caller of a transaction does next.
#[derive(Debug, Clone, Copy, PartialEq, Eq, Structural)]
pub enum CallStep {
    /// Nothing has ended the call: read on, and ask the driver for more when
    /// the stream is exhausted.
    Pending,
    /// The reply came: its payload lies in the buffer that the descriptor
    /// names.
    Reply(BinderTransactionData),
    /// A one-way call is over.
    Done,
    /// The call ended with this error.
    Fail(BinderErrorKind),
}

/// Whether the frame is one of those that end or advance a call, and not
/// one that is handled in passing.
pub open spec fn spec_is_call_frame(frame: ReturnProtocolValue) -> bool {
    frame is Reply || frame is DeadReply || frame is FailedReply || frame is TransactionComplete
}

#[verifier::when_used_as_spec(spec_is_call_frame)]
pub fn is_call_frame(frame: ReturnProtocolValue) -> (r: bool)
    ensures
        r == spec_is_call_frame(frame),
{
    match frame {
        ReturnProtocolValue::Reply(_)
        | ReturnProtocolValue::DeadReply
        | ReturnProtocolValue::FailedReply
        | ReturnProtocolValue::TransactionComplete => true,
        _ => false,
    }
}

/// What a frame that is handled in passing comes to: a status from the
/// driver is an error of its kind, `Finished` is a timeout, and nothing else
/// stops the call.
pub open spec fn command_outcome(frame: ReturnProtocolValue) -> Result<(), BinderErrorKind> {
    match frame {
        ReturnProtocolValue::Error(status) => Err(wire_kind(status)),
        ReturnProtocolValue::Finished => Err(BinderErrorKind::TimedOut),
        _ => Ok(()),
    }
}

/// What a frame means for the caller of a transaction.
pub open spec fn step_of(frame: ReturnProtocolValue, one_way: bool) -> CallStep {
    match frame {
        ReturnProtocolValue::TransactionComplete => if one_way {
            CallStep::Done
        } else {
            CallStep::Pending
        },
        ReturnProtocolValue::DeadReply => CallStep::Fail(BinderErrorKind::DeadObject),
        ReturnProtocolValue::FailedReply => CallStep::Fail(BinderErrorKind::FailedTransaction),
        ReturnProtocolValue::Reply(txn) => CallStep::Reply(txn),
        other => match command_outcome(other) {
            Ok(_) => CallStep::Pending,
            Err(e) => CallStep::Fail(e),
        },
    }
}

/// Where a call stands after a frame.
pub open spec fn state_after(state: CallState, frame: ReturnProtocolValue, one_way: bool) -> CallState {
    match step_of(frame, one_way) {
        CallStep::Pending => if frame is TransactionComplete {
            CallState::Awaiting
        } else {
            state
        },
        CallStep::Reply(_) => CallState::Replied,
        CallStep::Done => CallState::Replied,
        CallStep::Fail(e) => if frame is DeadReply {
            CallState::Dead
        } else {
            CallState::Failed
        },
    }
}

/// A frame ends the call exactly where it asks the caller for anything but
/// to read on, and a call that has not ended does not go back to `Sending`.
pub proof fn lemma_step_ends_call(state: CallState, frame: ReturnProtocolValue, one_way: bool)
    requires
        !state.spec_is_terminal(),
    ensures
        state_after(state, frame, one_way).spec_is_terminal() <==> step_of(frame, one_way)
            != CallStep::Pending,
        state_after(state, frame, one_way) == CallState::Sending ==> state == CallState::Sending,
        state_after(state, frame, one_way) == CallState::Dead <==> frame is DeadReply,
        step_of(frame, one_way) is Reply ==> state_after(state, frame, one_way)
            == CallState::Replied,
{
}

/// What reading the return stream from `pos` on comes to for a call in
/// `state`: the step that the first frame that ends the call asks for, or
/// `Pending` where the stream is exhausted first; where the call then
/// stands; and where the cursor then is. Bytes that are no frame fail the
/// call.
pub open spec fn drained(bytes: Seq<u8>, pos: int, state: CallState, one_way: bool) -> (
    CallStep,
    CallState,
    int,
)
    decreases bytes.len() - pos,
{
    match frame_at(bytes, pos) {
        Err(e) => (CallStep::Fail(e), CallState::Failed, pos),
        Ok(None) => (CallStep::Pending, state, pos),
        Ok(Some((frame, next))) => match step_of(frame, one_way) {
            CallStep::Pending => drained(bytes, next, state_after(state, frame, one_way), one_way),
            step => (step, state_after(state, frame, one_way), next),
        },
    }
}

/// What a sequence of frames comes to for a call in `state`: the step that
/// the first frame that ends the call asks for, or `Pending` where none
/// does, and where the call then stands.
pub open spec fn run_frames(state: CallState, frames: Seq<ReturnProtocolValue>, one_way: bool) -> (
    CallStep,
    CallState,
)
    decreases frames.len(),
{
    if frames.len() == 0 {
        (CallStep::Pending, state)
    } else {
        match step_of(frames[0], one_way) {
            CallStep::Pending => run_frames(
                state_after(state, frames[0], one_way),
                frames.drop_first(),
                one_way,
            ),
            step => (step, state_after(state, frames[0], one_way)),
        }
    }
}

/// Reading a stream that is made of frames throughout comes to what its
/// frames come to, taken one after the other.
pub proof fn lemma_drained_runs_frames(bytes: Seq<u8>, pos: int, state: CallState, one_way: bool)
    requires
        0 <= pos <= bytes.len(),
        frames_clean(bytes, pos),
    ensures
        (drained(bytes, pos, state, one_way).0, drained(bytes, pos, state, one_way).1)
            == run_frames(state, frames_from(bytes, pos), one_way),
    decreases bytes.len() - pos,
{
    match frame_at(bytes, pos) {
        Ok(Some((frame, next))) => {
            let rest = frames_from(bytes, next);
            let all = frames_from(bytes, pos);
            assert(all =~= seq![frame] + rest);
            assert(all[0] == frame);
            assert(all.drop_first() =~= rest);
            if step_of(frame, one_way) == CallStep::Pending {
                lemma_drained_runs_frames(
                    bytes,
                    next,
                    state_after(state, frame, one_way),
                    one_way,
                );
            }
        },
        _ => {},
    }
}

/// A call that waits for a reply and whose peer has died: the driver takes
/// the transaction, tells of the death, and sends the dead reply. The
/// notice of the death is passed by, and the dead reply ends the call with
/// `DeadObject`; there is no reply.
pub proof fn lemma_dead_peer(state: CallState, cookie: u64)
    requires
        !state.spec_is_terminal(),
    ensures
        run_frames(
            state,
            seq![
                ReturnProtocolValue::TransactionComplete,
                ReturnProtocolValue::DeadBinder(cookie),
                ReturnProtocolValue::DeadReply,
            ],
            false,
        ) == (CallStep::Fail(BinderErrorKind::DeadObject), CallState::Dead),
        run_frames(
            state,
            seq![ReturnProtocolValue::DeadBinder(cookie), ReturnProtocolValue::DeadReply],
            false,
        ) == (CallStep::Fail(BinderErrorKind::DeadObject), CallState::Dead),
{
    let dead = seq![ReturnProtocolValue::DeadReply];
    let told = seq![ReturnProtocolValue::DeadBinder(cookie), ReturnProtocolValue::DeadReply];
    let all = seq![
        ReturnProtocolValue::TransactionComplete,
        ReturnProtocolValue::DeadBinder(cookie),
        ReturnProtocolValue::DeadReply,
    ];
    assert(all.drop_first() =~= told);
    assert(told.drop_first() =~= dead);
    assert(run_frames(state, dead, false) == (
        CallStep::Fail(BinderErrorKind::DeadObject),
        CallState::Dead,
    ));
    assert(run_frames(CallState::Awaiting, dead, false) == (
        CallStep::Fail(BinderErrorKind::DeadObject),
        CallState::Dead,
    ));
    assert(run_frames(state, told, false) == run_frames(state, dead, false));
    assert(run_frames(CallState::Awaiting, told, false) == run_frames(
        CallState::Awaiting,
        dead,
        false,
    ));
    assert(run_frames(state, all, false) == run_frames(CallState::Awaiting, told, false));
}

/// A call that waits for a reply and is answered: the driver takes the
/// transaction and hands the reply on. The call ends with the reply, and
/// frames behind it are not read.
pub proof fn lemma_reply_ends_call(
    state: CallState,
    reply: BinderTransactionData,
    behind: Seq<ReturnProtocolValue>,
)
    requires
        !state.spec_is_terminal(),
    ensures
        run_frames(
            state,
            seq![ReturnProtocolValue::TransactionComplete, ReturnProtocolValue::Reply(reply)]
                + behind,
            false,
        ) == (CallStep::Reply(reply), CallState::Replied),
{
    let answered = seq![ReturnProtocolValue::Reply(reply)] + behind;
    let all = seq![ReturnProtocolValue::TransactionComplete, ReturnProtocolValue::Reply(reply)]
        + behind;
    assert(all.drop_first() =~= answered);
    assert(answered[0] == ReturnProtocolValue::Reply(reply));
    assert(all[0] == ReturnProtocolValue::TransactionComplete);
    assert(run_frames(CallState::Awaiting, answered, false) == (
        CallStep::Reply(reply),
        CallState::Replied,
    ));
    assert(run_frames(state, all, false) == run_frames(CallState::Awaiting, answered, false));
}

/// What a transaction is, as a value.
pub struct TransactionView {
    pub handle: u32,
    pub code: u32,
    pub flags: u32,
    pub state: CallState,
}

/// One transaction on its way: whom it is for, what it asks, and where the
/// call stands.
#[derive(Debug)]
pub struct Transaction {
    handle: u32,
    code: u32,
    flags: u32,
    state: CallState,
}

impl View for Transaction {
    type V = TransactionView;

    closed spec fn view(&self) -> TransactionView {
        TransactionView {
            handle: self.handle,
            code: self.code,
            flags: self.flags,
            state: self.state,
        }
    }
}

impl Transaction {
    /// A transaction that is about to be written. Its flags are the caller's
    /// and the one that accepts file descriptors in the reply.
    pub fn new(handle: u32, code: u32, flags: u32) -> (txn: Transaction)
        ensures
            txn@ == (TransactionView {
                handle,
                code,
                flags: flags | TF_ACCEPT_FDS,
                state: CallState::Sending,
            }),
    {
        Transaction { handle, code, flags: flags | TF_ACCEPT_FDS, state: CallState::Sending }
    }

    /// What a transaction that is about to be written is.
    pub open spec fn new_view(handle: u32, code: u32, flags: u32) -> TransactionView {
        TransactionView { handle, code, flags: flags | TF_ACCEPT_FDS, state: CallState::Sending }
    }

    /// The handle of the object that the transaction is for.
    pub fn handle(&self) -> (h: u32)
        ensures
            h == self@.handle,
    {
        self.handle
    }

    /// What the transaction asks of the object.
    pub fn code(&self) -> (c: u32)
        ensures
            c == self@.code,
    {
        self.code
    }

    /// The flags that the descriptor carries.
    pub fn flags(&self) -> (f: u32)
        ensures
            f == self@.flags,
    {
        self.flags
    }

    /// Where the call stands.
    pub fn state(&self) -> (s: CallState)
        ensures
            s == self@.state,
    {
        self.state
    }

    /// Whether no reply is asked for.
    pub open spec fn spec_is_one_way(&self) -> bool {
        self@.flags & TF_ONE_WAY != 0
    }

    #[verifier::when_used_as_spec(spec_is_one_way)]
    pub fn is_one_way(&self) -> (r: bool)
        ensures
            r == self.spec_is_one_way(),
    {
        self.flags & TF_ONE_WAY != 0
    }

    /// The descriptor that is written for the transaction, for a payload of
    /// `data_size` bytes at `buffer` with `offsets_size` bytes of object
    /// table at `offsets`.
    pub open spec fn descriptor(
        v: TransactionView,
        data_size: u64,
        offsets_size: u64,
        buffer: u64,
        offsets: u64,
    ) -> BinderTransactionData {
        BinderTransactionData {
            target: TransactionTarget::Handle(v.handle),
            cookie: 0,
            code: v.code,
            flags: v.flags,
            sender_pid: 0,
            sender_euid: 0,
            data_size,
            offsets_size,
            buffer,
            offsets,
        }
    }

    /// Takes one frame of the return stream.
    pub fn on_frame(&mut self, conn: &mut BinderConnection, frame: ReturnProtocolValue) -> (step:
        CallStep)
        ensures
            step == step_of(frame, old(self).spec_is_one_way()),
            final(self)@ == (TransactionView {
                state: state_after(old(self)@.state, frame, old(self).spec_is_one_way()),
                ..old(self)@
            }),
            final(conn)@ == old(conn)@,
    {
        let one_way: bool = self.is_one_way();
        match frame {
            ReturnProtocolValue::TransactionComplete => {
                if one_way {
                    self.state = CallState::Replied;
                    CallStep::Done
                } else {
                    self.state = CallState::Awaiting;
                    CallStep::Pending
                }
            },
            ReturnProtocolValue::DeadReply => {
                self.state = CallState::Dead;
                CallStep::Fail(BinderErrorKind::DeadObject)
            },
            ReturnProtocolValue::FailedReply => {
                self.state = CallState::Failed;
                CallStep::Fail(BinderErrorKind::FailedTransaction)
            },
            ReturnProtocolValue::Reply(txn) => {
                self.state = CallState::Replied;
                CallStep::Reply(txn)
            },
            other => match conn.execute_command(other) {
                Ok(_) => CallStep::Pending,
                Err(e) => {
                    self.state = CallState::Failed;
                    CallStep::Fail(e)
                },
            },
        }
    }

    /// Reads the return stream at the cursor of `input` until a frame ends
    /// the call or the stream is exhausted.
    pub fn drain<T: Parcel>(&mut self, conn: &mut BinderConnection, input: &mut T) -> (step:
        CallStep)
        requires
            old(input).wf(),
        ensures
            final(conn)@ == old(conn)@,
            (step, final(self)@.state, final(input).cursor()) == drained(
                old(input).bytes(),
                old(input).cursor(),
                old(self)@.state,
                old(self).spec_is_one_way(),
            ),
            final(self)@ == (TransactionView { state: final(self)@.state, ..old(self)@ }),
            final(input).wf(),
            final(input).bytes() == old(input).bytes(),
            final(input).offsets() == old(input).offsets(),
    {
        loop
            invariant
                input.wf(),
                conn@ == old(conn)@,
                input.bytes() == old(input).bytes(),
                input.offsets() == old(input).offsets(),
                self@ == (TransactionView { state: self@.state, ..old(self)@ }),
                drained(
                    input.bytes(),
                    input.cursor(),
                    self@.state,
                    self.spec_is_one_way(),
                ) == drained(
                    old(input).bytes(),
                    old(input).cursor(),
                    old(self)@.state,
                    old(self).spec_is_one_way(),
                ),
            decreases input.bytes().len() - input.cursor(),
        {
            match parse_one(input) {
                Err(e) => {
                    self.state = CallState::Failed;
                    return CallStep::Fail(e);
                },
                Ok(None) => {
                    return CallStep::Pending;
                },
                Ok(Some(frame)) => {
                    match self.on_frame(conn, frame) {
                        CallStep::Pending => {},
                        step => {
                            return step;
                        },
                    }
                },
            }
        }
    }
}

} // verus!
