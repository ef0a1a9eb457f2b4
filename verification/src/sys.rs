//! The Binder driver's ABI: the tags of its two command streams, the type
//! tags and flags of what travels in a parcel, and the records that follow a
//! tag, each with its layout in bytes.

use crate::codec::{
    get_i32, get_u32, get_u64, i32_at, native_i32_bytes, put_i32, put_u32, put_u64, put_zeros,
    u32_at, u64_at, zeros,
};
use crate::wire::{native_u32_bytes, native_u64_bytes};
use vstd::prelude::*;

verus! {

/// A pointer as the driver writes it.
pub type BinderUintptr = u64;

/// A size as the driver writes it.
pub type BinderSize = u64;

/// The protocol version that this library speaks.
pub const CURRENT_PROTOCOL_VERSION: i32 = 8i32;

/// The ioctl that hands the driver a write buffer and a read buffer.
pub const BINDER_WRITE_READ: u32 = 0xc030_6201u32;

/// The ioctl that asks the driver for its protocol version.
pub const BINDER_VERSION: u32 = 0xc004_6209u32;

/// The transaction is one-way: no reply will come.
pub const TF_ONE_WAY: u32 = 0x01u32;

/// The payload is the root object of a component.
pub const TF_ROOT_OBJECT: u32 = 0x04u32;

/// The payload is a single status word.
pub const TF_STATUS_CODE: u32 = 0x08u32;

/// The sender accepts file descriptors in the reply.
pub const TF_ACCEPT_FDS: u32 = 0x10u32;

/// The priority bits of a flat object's flags.
pub const FLAT_BINDER_FLAG_PRIORITY_MASK: u32 = 0xffu32;

/// The object accepts file descriptors.
pub const FLAT_BINDER_FLAG_ACCEPTS_FDS: u32 = 0x100u32;

/// The flags of an object that a client writes: the lowest scheduling
/// priority that the driver may give, and file descriptors accepted.
pub const FLAT_BINDER_DEFAULT_FLAGS: u32 = 0x17fu32;

/// The bytes of a `flat_binder_object`.
pub const FLAT_BINDER_OBJECT_SIZE: usize = 24usize;

/// The bytes of a `binder_transaction_data`.
pub const TRANSACTION_DATA_SIZE: usize = 64usize;

/// The bytes of a `binder_ptr_cookie`.
pub const PTR_COOKIE_SIZE: usize = 16usize;

/// The bytes of a `binder_pri_ptr_cookie`.
pub const PRI_PTR_COOKIE_SIZE: usize = 24usize;

/// Four characters packed into a word, the first in the highest byte.
pub open spec fn spec_pack_chars(c1: u8, c2: u8, c3: u8, c4: u8) -> u32 {
    ((c1 as u32) << 24) | ((c2 as u32) << 16) | ((c3 as u32) << 8) | (c4 as u32)
}

#[verifier::when_used_as_spec(spec_pack_chars)]
pub fn pack_chars(c1: u8, c2: u8, c3: u8, c4: u8) -> (word: u32)
    ensures
        word == spec_pack_chars(c1, c2, c3, c4),
{
    ((c1 as u32) << 24) | ((c2 as u32) << 16) | ((c3 as u32) << 8) | (c4 as u32)
}

/// What a flat object refers to.
#[derive(Debug, Clone, Copy, PartialEq, Eq, Structural)]
pub enum BinderType {
    Binder,
    WeakBinder,
    Handle,
    WeakHandle,
    Fd,
}

impl BinderType {
    /// The tag on the wire: the characters `sb*`, `wb*`, `sh*`, `wh*` and
    /// `fd*`, each followed by the byte 0x85.
    pub open spec fn spec_tag(self) -> u32 {
        match self {
            BinderType::Binder => 0x7362_2a85u32,
            BinderType::WeakBinder => 0x7762_2a85u32,
            BinderType::Handle => 0x7368_2a85u32,
            BinderType::WeakHandle => 0x7768_2a85u32,
            BinderType::Fd => 0x6664_2a85u32,
        }
    }

    #[verifier::when_used_as_spec(spec_tag)]
    pub fn tag(self) -> (t: u32)
        ensures
            t == self.spec_tag(),
    {
        match self {
            BinderType::Binder => 0x7362_2a85u32,
            BinderType::WeakBinder => 0x7762_2a85u32,
            BinderType::Handle => 0x7368_2a85u32,
            BinderType::WeakHandle => 0x7768_2a85u32,
            BinderType::Fd => 0x6664_2a85u32,
        }
    }

    /// The type with the given tag, if there is one.
    pub fn from_primitive(tag: u32) -> (r: Option<BinderType>)
        ensures
            match r {
                Some(t) => t.spec_tag() == tag,
                None => forall|t: BinderType| t.spec_tag() != tag,
            },
    {
        if tag == 0x7362_2a85u32 {
            Some(BinderType::Binder)
        } else if tag == 0x7762_2a85u32 {
            Some(BinderType::WeakBinder)
        } else if tag == 0x7368_2a85u32 {
            Some(BinderType::Handle)
        } else if tag == 0x7768_2a85u32 {
            Some(BinderType::WeakHandle)
        } else if tag == 0x6664_2a85u32 {
            Some(BinderType::Fd)
        } else {
            None
        }
    }
}

/// The tags are what `pack_chars` makes of their characters.
pub proof fn lemma_binder_type_tags()
    ensures
        BinderType::Binder.spec_tag() == spec_pack_chars(0x73, 0x62, 0x2a, 0x85),
        BinderType::WeakBinder.spec_tag() == spec_pack_chars(0x77, 0x62, 0x2a, 0x85),
        BinderType::Handle.spec_tag() == spec_pack_chars(0x73, 0x68, 0x2a, 0x85),
        BinderType::WeakHandle.spec_tag() == spec_pack_chars(0x77, 0x68, 0x2a, 0x85),
        BinderType::Fd.spec_tag() == spec_pack_chars(0x66, 0x64, 0x2a, 0x85),
{
    assert(((0x73u8 as u32) << 24) | ((0x62u8 as u32) << 16) | ((0x2au8 as u32) << 8) | (0x85u8 as u32) == 0x7362_2a85u32) by (bit_vector);
    assert(((0x77u8 as u32) << 24) | ((0x62u8 as u32) << 16) | ((0x2au8 as u32) << 8) | (0x85u8 as u32) == 0x7762_2a85u32) by (bit_vector);
    assert(((0x73u8 as u32) << 24) | ((0x68u8 as u32) << 16) | ((0x2au8 as u32) << 8) | (0x85u8 as u32) == 0x7368_2a85u32) by (bit_vector);
    assert(((0x77u8 as u32) << 24) | ((0x68u8 as u32) << 16) | ((0x2au8 as u32) << 8) | (0x85u8 as u32) == 0x7768_2a85u32) by (bit_vector);
    assert(((0x66u8 as u32) << 24) | ((0x64u8 as u32) << 16) | ((0x2au8 as u32) << 8) | (0x85u8 as u32) == 0x6664_2a85u32) by (bit_vector);
}

/// The commands that a client writes to the driver.
#[derive(Debug, Clone, Copy, PartialEq, Eq, Structural)]
pub enum CommandProtocol {
    Transaction,
    Reply,
    AcquireResult,
    FreeBuffer,
    IncRefs,
    Acquire,
    Release,
    DecRefs,
    IncRefsDone,
    AcquireDone,
    AttemptAcquire,
    RegisterLooper,
    EnterLooper,
    ExitLooper,
    RequestDeathNotification,
    ClearDeathNotification,
    DeadBinderDone,
}

impl CommandProtocol {
    /// The tag on the wire: direction and payload size in the high half, the
    /// letter `c` and the command's number in the low half.
    pub open spec fn spec_tag(self) -> u32 {
        match self {
            CommandProtocol::Transaction => 0x4040_6300u32,
            CommandProtocol::Reply => 0x4040_6301u32,
            CommandProtocol::AcquireResult => 0x4004_6302u32,
            CommandProtocol::FreeBuffer => 0x4008_6303u32,
            CommandProtocol::IncRefs => 0x4004_6304u32,
            CommandProtocol::Acquire => 0x4004_6305u32,
            CommandProtocol::Release => 0x4004_6306u32,
            CommandProtocol::DecRefs => 0x4004_6307u32,
            CommandProtocol::IncRefsDone => 0x4010_6308u32,
            CommandProtocol::AcquireDone => 0x4010_6309u32,
            CommandProtocol::AttemptAcquire => 0x4008_630au32,
            CommandProtocol::RegisterLooper => 0x0000_630bu32,
            CommandProtocol::EnterLooper => 0x0000_630cu32,
            CommandProtocol::ExitLooper => 0x0000_630du32,
            CommandProtocol::RequestDeathNotification => 0x400c_630eu32,
            CommandProtocol::ClearDeathNotification => 0x400c_630fu32,
            CommandProtocol::DeadBinderDone => 0x4008_6310u32,
        }
    }

    #[verifier::when_used_as_spec(spec_tag)]
    pub fn tag(self) -> (t: u32)
        ensures
            t == self.spec_tag(),
    {
        match self {
            CommandProtocol::Transaction => 0x4040_6300u32,
            CommandProtocol::Reply => 0x4040_6301u32,
            CommandProtocol::AcquireResult => 0x4004_6302u32,
            CommandProtocol::FreeBuffer => 0x4008_6303u32,
            CommandProtocol::IncRefs => 0x4004_6304u32,
            CommandProtocol::Acquire => 0x4004_6305u32,
            CommandProtocol::Release => 0x4004_6306u32,
            CommandProtocol::DecRefs => 0x4004_6307u32,
            CommandProtocol::IncRefsDone => 0x4010_6308u32,
            CommandProtocol::AcquireDone => 0x4010_6309u32,
            CommandProtocol::AttemptAcquire => 0x4008_630au32,
            CommandProtocol::RegisterLooper => 0x0000_630bu32,
            CommandProtocol::EnterLooper => 0x0000_630cu32,
            CommandProtocol::ExitLooper => 0x0000_630du32,
            CommandProtocol::RequestDeathNotification => 0x400c_630eu32,
            CommandProtocol::ClearDeathNotification => 0x400c_630fu32,
            CommandProtocol::DeadBinderDone => 0x4008_6310u32,
        }
    }
}

/// The tags that the driver writes into the read buffer.
#[derive(Debug, Clone, Copy, PartialEq, Eq, Structural)]
pub enum ReturnProtocol {
    Error,
    Okay,
    Transaction,
    Reply,
    AcquireResult,
    DeadReply,
    TransactionComplete,
    IncRefs,
    Acquire,
    Release,
    DecRefs,
    AttemptAcquire,
    Noop,
    SpawnLooper,
    Finished,
    DeadBinder,
    ClearDeathNotificationDone,
    FailedReply,
}

impl ReturnProtocol {
    /// The tag on the wire: direction and payload size in the high half, the
    /// letter `r` and the tag's number in the low half.
    pub open spec fn spec_tag(self) -> u32 {
        match self {
            ReturnProtocol::Error => 0x8004_7200u32,
            ReturnProtocol::Okay => 0x0000_7201u32,
            ReturnProtocol::Transaction => 0x8040_7202u32,
            ReturnProtocol::Reply => 0x8040_7203u32,
            ReturnProtocol::AcquireResult => 0x8004_7204u32,
            ReturnProtocol::DeadReply => 0x0000_7205u32,
            ReturnProtocol::TransactionComplete => 0x0000_7206u32,
            ReturnProtocol::IncRefs => 0x8010_7207u32,
            ReturnProtocol::Acquire => 0x8010_7208u32,
            ReturnProtocol::Release => 0x8010_7209u32,
            ReturnProtocol::DecRefs => 0x8010_720au32,
            ReturnProtocol::AttemptAcquire => 0x8018_720bu32,
            ReturnProtocol::Noop => 0x0000_720cu32,
            ReturnProtocol::SpawnLooper => 0x0000_720du32,
            ReturnProtocol::Finished => 0x0000_720eu32,
            ReturnProtocol::DeadBinder => 0x8008_720fu32,
            ReturnProtocol::ClearDeathNotificationDone => 0x8008_7210u32,
            ReturnProtocol::FailedReply => 0x0000_7211u32,
        }
    }

    #[verifier::when_used_as_spec(spec_tag)]
    pub fn tag(self) -> (t: u32)
        ensures
            t == self.spec_tag(),
    {
        match self {
            ReturnProtocol::Error => 0x8004_7200u32,
            ReturnProtocol::Okay => 0x0000_7201u32,
            ReturnProtocol::Transaction => 0x8040_7202u32,
            ReturnProtocol::Reply => 0x8040_7203u32,
            ReturnProtocol::AcquireResult => 0x8004_7204u32,
            ReturnProtocol::DeadReply => 0x0000_7205u32,
            ReturnProtocol::TransactionComplete => 0x0000_7206u32,
            ReturnProtocol::IncRefs => 0x8010_7207u32,
            ReturnProtocol::Acquire => 0x8010_7208u32,
            ReturnProtocol::Release => 0x8010_7209u32,
            ReturnProtocol::DecRefs => 0x8010_720au32,
            ReturnProtocol::AttemptAcquire => 0x8018_720bu32,
            ReturnProtocol::Noop => 0x0000_720cu32,
            ReturnProtocol::SpawnLooper => 0x0000_720du32,
            ReturnProtocol::Finished => 0x0000_720eu32,
            ReturnProtocol::DeadBinder => 0x8008_720fu32,
            ReturnProtocol::ClearDeathNotificationDone => 0x8008_7210u32,
            ReturnProtocol::FailedReply => 0x0000_7211u32,
        }
    }

    /// The bytes that follow the tag.
    pub open spec fn spec_payload_len(self) -> usize {
        match self {
            ReturnProtocol::Error | ReturnProtocol::AcquireResult => 4,
            ReturnProtocol::Transaction | ReturnProtocol::Reply => 64,
            ReturnProtocol::IncRefs
            | ReturnProtocol::Acquire
            | ReturnProtocol::Release
            | ReturnProtocol::DecRefs => 16,
            ReturnProtocol::AttemptAcquire => 24,
            ReturnProtocol::DeadBinder | ReturnProtocol::ClearDeathNotificationDone => 8,
            _ => 0,
        }
    }

    #[verifier::when_used_as_spec(spec_payload_len)]
    pub fn payload_len(self) -> (n: usize)
        ensures
            n == self.spec_payload_len(),
    {
        match self {
            ReturnProtocol::Error | ReturnProtocol::AcquireResult => 4,
            ReturnProtocol::Transaction | ReturnProtocol::Reply => 64,
            ReturnProtocol::IncRefs
            | ReturnProtocol::Acquire
            | ReturnProtocol::Release
            | ReturnProtocol::DecRefs => 16,
            ReturnProtocol::AttemptAcquire => 24,
            ReturnProtocol::DeadBinder | ReturnProtocol::ClearDeathNotificationDone => 8,
            _ => 0,
        }
    }

    /// The tag that the given word is, if it is one.
    pub open spec fn spec_from_primitive(word: u32) -> Option<ReturnProtocol> {
        if word == 0x8004_7200u32 {
            Some(ReturnProtocol::Error)
        } else if word == 0x0000_7201u32 {
            Some(ReturnProtocol::Okay)
        } else if word == 0x8040_7202u32 {
            Some(ReturnProtocol::Transaction)
        } else if word == 0x8040_7203u32 {
            Some(ReturnProtocol::Reply)
        } else if word == 0x8004_7204u32 {
            Some(ReturnProtocol::AcquireResult)
        } else if word == 0x0000_7205u32 {
            Some(ReturnProtocol::DeadReply)
        } else if word == 0x0000_7206u32 {
            Some(ReturnProtocol::TransactionComplete)
        } else if word == 0x8010_7207u32 {
            Some(ReturnProtocol::IncRefs)
        } else if word == 0x8010_7208u32 {
            Some(ReturnProtocol::Acquire)
        } else if word == 0x8010_7209u32 {
            Some(ReturnProtocol::Release)
        } else if word == 0x8010_720au32 {
            Some(ReturnProtocol::DecRefs)
        } else if word == 0x8018_720bu32 {
            Some(ReturnProtocol::AttemptAcquire)
        } else if word == 0x0000_720cu32 {
            Some(ReturnProtocol::Noop)
        } else if word == 0x0000_720du32 {
            Some(ReturnProtocol::SpawnLooper)
        } else if word == 0x0000_720eu32 {
            Some(ReturnProtocol::Finished)
        } else if word == 0x8008_720fu32 {
            Some(ReturnProtocol::DeadBinder)
        } else if word == 0x8008_7210u32 {
            Some(ReturnProtocol::ClearDeathNotificationDone)
        } else if word == 0x0000_7211u32 {
            Some(ReturnProtocol::FailedReply)
        } else {
            None
        }
    }

    /// The tag that the given word is, if it is one: the tag whose word it
    /// is, and none where no tag has that word.
    #[verifier::when_used_as_spec(spec_from_primitive)]
    pub fn from_primitive(word: u32) -> (r: Option<ReturnProtocol>)
        ensures
            r == ReturnProtocol::spec_from_primitive(word),
            match r {
                Some(p) => p.spec_tag() == word,
                None => forall|p: ReturnProtocol| p.spec_tag() != word,
            },
    {
        if word == 0x8004_7200u32 {
            Some(ReturnProtocol::Error)
        } else if word == 0x0000_7201u32 {
            Some(ReturnProtocol::Okay)
        } else if word == 0x8040_7202u32 {
            Some(ReturnProtocol::Transaction)
        } else if word == 0x8040_7203u32 {
            Some(ReturnProtocol::Reply)
        } else if word == 0x8004_7204u32 {
            Some(ReturnProtocol::AcquireResult)
        } else if word == 0x0000_7205u32 {
            Some(ReturnProtocol::DeadReply)
        } else if word == 0x0000_7206u32 {
            Some(ReturnProtocol::TransactionComplete)
        } else if word == 0x8010_7207u32 {
            Some(ReturnProtocol::IncRefs)
        } else if word == 0x8010_7208u32 {
            Some(ReturnProtocol::Acquire)
        } else if word == 0x8010_7209u32 {
            Some(ReturnProtocol::Release)
        } else if word == 0x8010_720au32 {
            Some(ReturnProtocol::DecRefs)
        } else if word == 0x8018_720bu32 {
            Some(ReturnProtocol::AttemptAcquire)
        } else if word == 0x0000_720cu32 {
            Some(ReturnProtocol::Noop)
        } else if word == 0x0000_720du32 {
            Some(ReturnProtocol::SpawnLooper)
        } else if word == 0x0000_720eu32 {
            Some(ReturnProtocol::Finished)
        } else if word == 0x8008_720fu32 {
            Some(ReturnProtocol::DeadBinder)
        } else if word == 0x8008_7210u32 {
            Some(ReturnProtocol::ClearDeathNotificationDone)
        } else if word == 0x0000_7211u32 {
            Some(ReturnProtocol::FailedReply)
        } else {
            None
        }
    }
}

/// Bits 16 to 29 of a tag hold the size of its payload.
pub proof fn lemma_return_tag_holds_payload_len(p: ReturnProtocol)
    ensures
        (p.spec_tag() >> 16) & 0x3fff == p.spec_payload_len(),
{
    assert((0x8004_7200u32 >> 16) & 0x3fff == 4) by (bit_vector);
    assert((0x0000_7201u32 >> 16) & 0x3fff == 0) by (bit_vector);
    assert((0x8040_7202u32 >> 16) & 0x3fff == 64) by (bit_vector);
    assert((0x8040_7203u32 >> 16) & 0x3fff == 64) by (bit_vector);
    assert((0x8004_7204u32 >> 16) & 0x3fff == 4) by (bit_vector);
    assert((0x0000_7205u32 >> 16) & 0x3fff == 0) by (bit_vector);
    assert((0x0000_7206u32 >> 16) & 0x3fff == 0) by (bit_vector);
    assert((0x8010_7207u32 >> 16) & 0x3fff == 16) by (bit_vector);
    assert((0x8010_7208u32 >> 16) & 0x3fff == 16) by (bit_vector);
    assert((0x8010_7209u32 >> 16) & 0x3fff == 16) by (bit_vector);
    assert((0x8010_720au32 >> 16) & 0x3fff == 16) by (bit_vector);
    assert((0x8018_720bu32 >> 16) & 0x3fff == 24) by (bit_vector);
    assert((0x0000_720cu32 >> 16) & 0x3fff == 0) by (bit_vector);
    assert((0x0000_720du32 >> 16) & 0x3fff == 0) by (bit_vector);
    assert((0x0000_720eu32 >> 16) & 0x3fff == 0) by (bit_vector);
    assert((0x8008_720fu32 >> 16) & 0x3fff == 8) by (bit_vector);
    assert((0x8008_7210u32 >> 16) & 0x3fff == 8) by (bit_vector);
    assert((0x0000_7211u32 >> 16) & 0x3fff == 0) by (bit_vector);
}

/// Whether objects with this type tag name their target by a 32-bit handle
/// (or file descriptor) and not by a pointer.
pub open spec fn spec_names_handle(type_tag: u32) -> bool {
    type_tag == BinderType::Handle.spec_tag() || type_tag == BinderType::WeakHandle.spec_tag()
        || type_tag == BinderType::Fd.spec_tag()
}

#[verifier::when_used_as_spec(spec_names_handle)]
pub fn names_handle(type_tag: u32) -> (r: bool)
    ensures
        r == spec_names_handle(type_tag),
{
    type_tag == BinderType::Handle.tag() || type_tag == BinderType::WeakHandle.tag() || type_tag
        == BinderType::Fd.tag()
}

/// A `flat_binder_object`: what a parcel holds in place of a Binder, a handle
/// or a file descriptor. `target` is the union of the record: a handle or a
/// file descriptor where the type tag names one, a pointer otherwise.
#[derive(Debug, Clone, Copy, PartialEq, Eq, Structural)]
pub struct FlatBinderObject {
    pub type_: u32,
    pub flags: u32,
    pub target: BinderUintptr,
    pub cookie: BinderUintptr,
}

impl FlatBinderObject {
    /// A handle fits in 32 bits.
    pub open spec fn wf(self) -> bool {
        spec_names_handle(self.type_) ==> self.target <= u32::MAX
    }

    /// Whether the record stands for "no object": no target and no cookie.
    pub open spec fn spec_is_null(&self) -> bool {
        self.target == 0 && self.cookie == 0
    }

    #[verifier::when_used_as_spec(spec_is_null)]
    pub fn is_null(&self) -> (r: bool)
        ensures
            r == self.spec_is_null(),
    {
        self.target == 0 && self.cookie == 0
    }

    /// The eight bytes of the union.
    pub open spec fn target_bytes(self) -> Seq<u8> {
        if spec_names_handle(self.type_) {
            native_u32_bytes(self.target as u32) + zeros(4)
        } else {
            native_u64_bytes(self.target)
        }
    }

    /// The record on the wire: type tag, flags, union, cookie.
    pub open spec fn bytes(self) -> Seq<u8> {
        native_u32_bytes(self.type_) + native_u32_bytes(self.flags) + self.target_bytes()
            + native_u64_bytes(self.cookie)
    }

    /// The record in the 24 bytes at `pos`.
    pub open spec fn at(bytes: Seq<u8>, pos: int) -> FlatBinderObject {
        let type_ = u32_at(bytes, pos);
        FlatBinderObject {
            type_,
            flags: u32_at(bytes, pos + 4),
            target: if spec_names_handle(type_) {
                u32_at(bytes, pos + 8) as u64
            } else {
                u64_at(bytes, pos + 8)
            },
            cookie: u64_at(bytes, pos + 16),
        }
    }

    /// The record at `pos` is made of the 24 bytes there and of nothing else.
    pub proof fn lemma_at_window(bytes: Seq<u8>, pos: int)
        requires
            0 <= pos,
            pos + FLAT_BINDER_OBJECT_SIZE <= bytes.len(),
        ensures
            FlatBinderObject::at(bytes, pos) == FlatBinderObject::at(
                bytes.subrange(pos, pos + FLAT_BINDER_OBJECT_SIZE),
                0,
            ),
    {
        let w = bytes.subrange(pos, pos + FLAT_BINDER_OBJECT_SIZE);
        assert(w.subrange(0, 4) =~= bytes.subrange(pos, pos + 4));
        assert(w.subrange(4, 8) =~= bytes.subrange(pos + 4, pos + 8));
        assert(w.subrange(8, 12) =~= bytes.subrange(pos + 8, pos + 12));
        assert(w.subrange(8, 16) =~= bytes.subrange(pos + 8, pos + 16));
        assert(w.subrange(16, 24) =~= bytes.subrange(pos + 16, pos + 24));
    }

    /// Appends the record to `out`. Decoded where it was put, it is the same
    /// record again.
    pub fn encode(&self, out: &mut Vec<u8>)
        requires
            self.wf(),
        ensures
            final(out)@ == old(out)@ + self.bytes(),
            self.bytes().len() == FLAT_BINDER_OBJECT_SIZE,
            FlatBinderObject::at(self.bytes(), 0) == *self,
    {
        let ghost start = out@;
        put_u32(out, self.type_);
        put_u32(out, self.flags);
        if names_handle(self.type_) {
            put_u32(out, self.target as u32);
            put_zeros(out, 4);
        } else {
            put_u64(out, self.target);
        }
        put_u64(out, self.cookie);
        proof {
            let b = self.bytes();
            assert(out@ =~= start + b);
            assert(b.subrange(0, 4) =~= native_u32_bytes(self.type_));
            assert(b.subrange(4, 8) =~= native_u32_bytes(self.flags));
            if spec_names_handle(self.type_) {
                assert(b.subrange(8, 12) =~= native_u32_bytes(self.target as u32));
            } else {
                assert(b.subrange(8, 16) =~= native_u64_bytes(self.target));
            }
            assert(b.subrange(16, 24) =~= native_u64_bytes(self.cookie));
        }
    }

    /// Reads the record in the 24 bytes at `pos`.
    pub fn decode(data: &[u8], pos: usize) -> (obj: FlatBinderObject)
        requires
            pos + FLAT_BINDER_OBJECT_SIZE <= data.len(),
        ensures
            obj == FlatBinderObject::at(data@, pos as int),
            obj.wf(),
    {
        let type_: u32 = get_u32(data, pos);
        let flags: u32 = get_u32(data, pos + 4);
        let target: u64 = if names_handle(type_) {
            get_u32(data, pos + 8) as u64
        } else {
            get_u64(data, pos + 8)
        };
        let cookie: u64 = get_u64(data, pos + 16);
        FlatBinderObject { type_, flags, target, cookie }
    }
}

/// Whom a transaction is for: a remote object by its handle, or an object of
/// this process by its pointer.
#[derive(Debug, Clone, Copy, PartialEq, Eq, Structural)]
pub enum TransactionTarget {
    Handle(u32),
    Ptr(BinderUintptr),
}

/// A `binder_transaction_data`: the descriptor of a transaction or a reply.
#[derive(Debug, Clone, Copy, PartialEq, Eq, Structural)]
pub struct BinderTransactionData {
    pub target: TransactionTarget,
    pub cookie: BinderUintptr,
    pub code: u32,
    pub flags: u32,
    pub sender_pid: i32,
    pub sender_euid: u32,
    pub data_size: BinderSize,
    pub offsets_size: BinderSize,
    pub buffer: BinderUintptr,
    pub offsets: BinderUintptr,
}

impl BinderTransactionData {
    /// The eight bytes of the target union.
    pub open spec fn target_bytes(self) -> Seq<u8> {
        match self.target {
            TransactionTarget::Handle(handle) => native_u32_bytes(handle) + zeros(4),
            TransactionTarget::Ptr(ptr) => native_u64_bytes(ptr),
        }
    }

    /// The descriptor on the wire, field after field.
    pub open spec fn bytes(self) -> Seq<u8> {
        self.target_bytes() + native_u64_bytes(self.cookie) + native_u32_bytes(self.code)
            + native_u32_bytes(self.flags) + native_i32_bytes(self.sender_pid) + native_u32_bytes(
            self.sender_euid,
        ) + native_u64_bytes(self.data_size) + native_u64_bytes(self.offsets_size)
            + native_u64_bytes(self.buffer) + native_u64_bytes(self.offsets)
    }

    /// The descriptor in the 64 bytes at `pos`, as the driver hands one out:
    /// with a pointer for its target.
    pub open spec fn at(bytes: Seq<u8>, pos: int) -> BinderTransactionData {
        BinderTransactionData {
            target: TransactionTarget::Ptr(u64_at(bytes, pos)),
            cookie: u64_at(bytes, pos + 8),
            code: u32_at(bytes, pos + 16),
            flags: u32_at(bytes, pos + 20),
            sender_pid: i32_at(bytes, pos + 24),
            sender_euid: u32_at(bytes, pos + 28),
            data_size: u64_at(bytes, pos + 32),
            offsets_size: u64_at(bytes, pos + 40),
            buffer: u64_at(bytes, pos + 48),
            offsets: u64_at(bytes, pos + 56),
        }
    }

    /// The handle in the first four bytes of the descriptor at `pos`.
    pub open spec fn handle_at(bytes: Seq<u8>, pos: int) -> u32 {
        u32_at(bytes, pos)
    }

    /// Appends the descriptor to `out`. Decoded where it was put, every field
    /// but the target is itself again; so is a target by pointer, and a
    /// target by handle is found again by `handle_at`.
    pub fn encode(&self, out: &mut Vec<u8>)
        ensures
            final(out)@ == old(out)@ + self.bytes(),
            self.bytes().len() == TRANSACTION_DATA_SIZE,
            match self.target {
                TransactionTarget::Handle(handle) => BinderTransactionData::handle_at(
                    self.bytes(),
                    0,
                ) == handle,
                TransactionTarget::Ptr(_) => BinderTransactionData::at(self.bytes(), 0).target
                    == self.target,
            },
            BinderTransactionData::at(self.bytes(), 0) == (BinderTransactionData {
                target: BinderTransactionData::at(self.bytes(), 0).target,
                ..*self
            }),
    {
        let ghost start = out@;
        match self.target {
            TransactionTarget::Handle(handle) => {
                put_u32(out, handle);
                put_zeros(out, 4);
            },
            TransactionTarget::Ptr(ptr) => {
                put_u64(out, ptr);
            },
        }
        put_u64(out, self.cookie);
        put_u32(out, self.code);
        put_u32(out, self.flags);
        put_i32(out, self.sender_pid);
        put_u32(out, self.sender_euid);
        put_u64(out, self.data_size);
        put_u64(out, self.offsets_size);
        put_u64(out, self.buffer);
        put_u64(out, self.offsets);
        proof {
            let b = self.bytes();
            assert(out@ =~= start + b);
            match self.target {
                TransactionTarget::Handle(handle) => {
                    assert(b.subrange(0, 4) =~= native_u32_bytes(handle));
                },
                TransactionTarget::Ptr(ptr) => {
                    assert(b.subrange(0, 8) =~= native_u64_bytes(ptr));
                },
            }
            assert(b.subrange(8, 16) =~= native_u64_bytes(self.cookie));
            assert(b.subrange(16, 20) =~= native_u32_bytes(self.code));
            assert(b.subrange(20, 24) =~= native_u32_bytes(self.flags));
            assert(b.subrange(24, 28) =~= native_i32_bytes(self.sender_pid));
            assert(native_i32_bytes(self.sender_pid).subrange(0, 4) =~= native_i32_bytes(
                self.sender_pid,
            ));
            assert(b.subrange(28, 32) =~= native_u32_bytes(self.sender_euid));
            assert(b.subrange(32, 40) =~= native_u64_bytes(self.data_size));
            assert(b.subrange(40, 48) =~= native_u64_bytes(self.offsets_size));
            assert(b.subrange(48, 56) =~= native_u64_bytes(self.buffer));
            assert(b.subrange(56, 64) =~= native_u64_bytes(self.offsets));
        }
    }

    /// Reads the descriptor in the 64 bytes at `pos`.
    pub fn decode(data: &[u8], pos: usize) -> (txn: BinderTransactionData)
        requires
            pos + TRANSACTION_DATA_SIZE <= data.len(),
        ensures
            txn == BinderTransactionData::at(data@, pos as int),
    {
        BinderTransactionData {
            target: TransactionTarget::Ptr(get_u64(data, pos)),
            cookie: get_u64(data, pos + 8),
            code: get_u32(data, pos + 16),
            flags: get_u32(data, pos + 20),
            sender_pid: get_i32(data, pos + 24),
            sender_euid: get_u32(data, pos + 28),
            data_size: get_u64(data, pos + 32),
            offsets_size: get_u64(data, pos + 40),
            buffer: get_u64(data, pos + 48),
            offsets: get_u64(data, pos + 56),
        }
    }
}

/// A `binder_ptr_cookie`: a local object by its pointer and its cookie.
#[derive(Debug, Clone, Copy, PartialEq, Eq, Structural)]
pub struct BinderPtrCookie {
    pub ptr: BinderUintptr,
    pub cookie: BinderUintptr,
}

impl BinderPtrCookie {
    /// The record in the 16 bytes at `pos`.
    pub open spec fn at(bytes: Seq<u8>, pos: int) -> BinderPtrCookie {
        BinderPtrCookie { ptr: u64_at(bytes, pos), cookie: u64_at(bytes, pos + 8) }
    }

    /// Reads the record in the 16 bytes at `pos`.
    pub fn decode(data: &[u8], pos: usize) -> (r: BinderPtrCookie)
        requires
            pos + PTR_COOKIE_SIZE <= data.len(),
        ensures
            r == BinderPtrCookie::at(data@, pos as int),
    {
        BinderPtrCookie { ptr: get_u64(data, pos), cookie: get_u64(data, pos + 8) }
    }
}

/// A `binder_pri_ptr_cookie`: a priority, four bytes that align what
/// follows, a pointer and a cookie.
#[derive(Debug, Clone, Copy, PartialEq, Eq, Structural)]
pub struct BinderPriPtrCookie {
    pub priority: i32,
    pub ptr: BinderUintptr,
    pub cookie: BinderUintptr,
}

impl BinderPriPtrCookie {
    /// The record in the 24 bytes at `pos`.
    pub open spec fn at(bytes: Seq<u8>, pos: int) -> BinderPriPtrCookie {
        BinderPriPtrCookie {
            priority: i32_at(bytes, pos),
            ptr: u64_at(bytes, pos + 8),
            cookie: u64_at(bytes, pos + 16),
        }
    }

    /// Reads the record in the 24 bytes at `pos`.
    pub fn decode(data: &[u8], pos: usize) -> (r: BinderPriPtrCookie)
        requires
            pos + PRI_PTR_COOKIE_SIZE <= data.len(),
        ensures
            r == BinderPriPtrCookie::at(data@, pos as int),
    {
        BinderPriPtrCookie {
            priority: get_i32(data, pos),
            ptr: get_u64(data, pos + 8),
            cookie: get_u64(data, pos + 16),
        }
    }
}

/// A `binder_write_read`: the argument of the ioctl that sends and receives.
#[derive(Debug, Clone, Copy, PartialEq, Eq, Structural)]
pub struct BinderWriteRead {
    pub write_size: BinderSize,
    pub write_consumed: BinderSize,
    pub write_buffer: BinderUintptr,
    pub read_size: BinderSize,
    pub read_consumed: BinderSize,
    pub read_buffer: BinderUintptr,
}

impl BinderWriteRead {
    /// Whether the driver has read all that was handed to it. It always
    /// does: a write buffer of which a part is left is a breach of the
    /// protocol.
    pub open spec fn spec_fully_written(&self) -> bool {
        self.write_consumed == self.write_size
    }

    #[verifier::when_used_as_spec(spec_fully_written)]
    pub fn fully_written(&self) -> (r: bool)
        ensures
            r == self.spec_fully_written(),
    {
        self.write_consumed == self.write_size
    }
}

} // verus!
