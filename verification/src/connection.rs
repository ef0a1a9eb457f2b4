//! A connection's state on this side of the driver: the registry of the
//! proxies that are alive, the reference commands that wait for the next
//! write, and what is handed to the driver and taken from it around a
//! transaction.

use crate::codec::{put_u32, readable, i32_at};
use crate::error::{status_kind, wire_kind, BinderErrorKind, Error, EINTR};
use crate::parcel::{
    command_parcel, frame_free_buffer, free_buffer_frame, lemma_overwrite_at_end, BinderParcel,
    OwnedParcel, Parcel, Reader,
};
use crate::protocol::ReturnProtocolValue;
use crate::service_manager::ServiceManager;
use crate::sys::{
    BinderTransactionData, BinderWriteRead, CommandProtocol, CURRENT_PROTOCOL_VERSION,
    TF_STATUS_CODE, TRANSACTION_DATA_SIZE,
};
use crate::transaction::{command_outcome, spec_is_call_frame, BinderProtocol, Transaction};
use crate::wire::native_u32_bytes;
use std::collections::HashMap;
use vstd::prelude::*;

verus! {

broadcast use vstd::std_specs::hash::group_hash_axioms;

/// The size of the arena in which the driver hands out its buffers: one
/// mebibyte less two pages.
pub const BINDER_VM_SIZE: usize = 1040384usize;

/// The first code that a service may give to a transaction of its own.
pub const FIRST_CALL_TRANSACTION: u32 = 1u32;

/// A strong reference to a remote object: the handle that the driver gave
/// it, and the serial number of the proxy that stands for it here. Two
/// references are equal where they share a proxy.
#[derive(Debug, PartialEq, Eq, Structural)]
pub struct Handle {
    handle: u32,
    serial: u64,
}

/// What a reference is, as a value.
pub struct HandleView {
    pub handle: u32,
    pub serial: u64,
}

impl View for Handle {
    type V = HandleView;

    closed spec fn view(&self) -> HandleView {
        HandleView { handle: self.handle, serial: self.serial }
    }
}

impl Handle {
    fn new(handle: u32, serial: u64) -> (h: Handle)
        ensures
            h@ == (HandleView { handle, serial }),
    {
        Handle { handle, serial }
    }

    /// The number by which the driver knows the remote object.
    pub fn handle(&self) -> (h: u32)
        ensures
            h == self@.handle,
    {
        self.handle
    }

    /// The serial number of the proxy.
    pub fn serial(&self) -> (s: u64)
        ensures
            s == self@.serial,
    {
        self.serial
    }

    /// Starts a transaction to the remote object: see
    /// `BinderConnection::call`.
    pub fn transact<T: Parcel>(
        &self,
        conn: &mut BinderConnection,
        code: u32,
        data: &T,
        flags: u32,
        buffer: u64,
        offsets: u64,
    ) -> (r: Result<(Transaction, OwnedParcel), BinderErrorKind>)
        ensures
            call_started(
                old(conn)@,
                self@.handle,
                code,
                flags,
                data.bytes().len(),
                data.offsets().len(),
                buffer,
                offsets,
                r,
                final(conn)@,
            ),
    {
        conn.call(self.handle, code, data, flags, buffer, offsets)
    }
}

/// The client's side of a service: a type that is made of a reference to
/// the remote object, and knows the descriptor of the interface that the
/// object speaks.
pub trait IInterface: Sized {
    /// The descriptor of the interface.
    spec fn descriptor() -> Seq<char>;

    /// The reference that the client holds.
    spec fn proxy(&self) -> HandleView;

    fn get_interface_descriptor() -> (d: &'static str)
        ensures
            d@ == Self::descriptor(),
    ;

    fn from_handle(handle: Handle) -> (client: Self)
        ensures
            client.proxy() == handle@,
    ;
}

/// A command that keeps the driver's count of strong references in step.
#[derive(Debug, Clone, Copy, PartialEq, Eq, Structural)]
pub enum RefCommand {
    /// A proxy for the handle was made.
    Acquire(u32),
    /// The last reference to the handle's proxy is gone.
    Release(u32),
}

/// A proxy that is alive: its serial number and how many references to it
/// are out.
#[derive(Debug, Clone, Copy, PartialEq, Eq, Structural)]
pub struct ProxyEntry {
    pub serial: u64,
    pub strong: usize,
}

/// What a connection holds.
pub struct ConnectionView {
    pub fd: i32,
    pub vm_start: u64,
    /// The proxies that are alive, by handle.
    pub live: Map<u32, ProxyEntry>,
    /// How many proxies were made so far.
    pub minted: u64,
    /// The reference commands that were not written yet, oldest first.
    pub pending: Seq<RefCommand>,
}

/// The connection after a reference to `handle` was asked for: one more
/// reference to the proxy that is alive, or a new proxy with the next serial
/// number and an `Acquire` for the driver.
pub open spec fn acquired(v: ConnectionView, handle: u32) -> ConnectionView {
    if v.live.contains_key(handle) {
        ConnectionView {
            live: v.live.insert(
                handle,
                ProxyEntry {
                    serial: v.live[handle].serial,
                    strong: (v.live[handle].strong + 1) as usize,
                },
            ),
            ..v
        }
    } else {
        ConnectionView {
            live: v.live.insert(handle, ProxyEntry { serial: v.minted, strong: 1 }),
            minted: (v.minted + 1) as u64,
            pending: v.pending.push(RefCommand::Acquire(handle)),
            ..v
        }
    }
}

/// The reference that asking for `handle` gives.
pub open spec fn acquired_proxy(v: ConnectionView, handle: u32) -> HandleView {
    HandleView {
        handle,
        serial: if v.live.contains_key(handle) {
            v.live[handle].serial
        } else {
            v.minted
        },
    }
}

/// Whether the reference is one to a proxy that is alive in the connection.
pub open spec fn holds(v: ConnectionView, proxy: HandleView) -> bool {
    v.live.contains_key(proxy.handle) && v.live[proxy.handle].serial == proxy.serial
}

/// The connection after a reference was given back: one reference less, and
/// with the last one the proxy is gone and a `Release` waits for the driver.
/// A reference that the connection does not hold changes nothing.
pub open spec fn released(v: ConnectionView, proxy: HandleView) -> ConnectionView {
    if !holds(v, proxy) {
        v
    } else if v.live[proxy.handle].strong > 1 {
        ConnectionView {
            live: v.live.insert(
                proxy.handle,
                ProxyEntry {
                    serial: proxy.serial,
                    strong: (v.live[proxy.handle].strong - 1) as usize,
                },
            ),
            ..v
        }
    } else {
        ConnectionView {
            live: v.live.remove(proxy.handle),
            pending: v.pending.push(RefCommand::Release(proxy.handle)),
            ..v
        }
    }
}

/// The registry's invariant: a proxy that is alive has a reference out, and
/// its serial number is one that was given.
pub open spec fn registry_ok(v: ConnectionView) -> bool {
    forall|h: u32| #[trigger]
        v.live.contains_key(h) ==> v.live[h].strong >= 1 && v.live[h].serial < v.minted
}

/// Whether the counters leave room for one more reference to `handle`.
pub open spec fn has_room(v: ConnectionView, handle: u32) -> bool {
    if v.live.contains_key(handle) {
        v.live[handle].strong < usize::MAX
    } else {
        v.minted < u64::MAX
    }
}

/// A connection to the Binder driver, as far as this side of it goes: the
/// descriptor, the arena, and the registry of proxies.
pub struct BinderConnection {
    fd: i32,
    vm_start: u64,
    handle_map: HashMap<u32, ProxyEntry>,
    minted: u64,
    pending: Vec<RefCommand>,
}

impl View for BinderConnection {
    type V = ConnectionView;

    closed spec fn view(&self) -> ConnectionView {
        ConnectionView {
            fd: self.fd,
            vm_start: self.vm_start,
            live: self.handle_map@,
            minted: self.minted,
            pending: self.pending@,
        }
    }
}

impl BinderConnection {
    /// The connection's invariant.
    pub open spec fn wf(&self) -> bool {
        registry_ok(self@)
    }

    /// Whether the driver's protocol version is the one that this library
    /// speaks.
    pub fn check_protocol_version(protocol_version: i32) -> (r: Result<(), Error>)
        ensures
            r == (if protocol_version == CURRENT_PROTOCOL_VERSION {
                Ok::<(), Error>(())
            } else {
                Err::<(), Error>(Error::WrongProtocolVersion)
            }),
    {
        if protocol_version == CURRENT_PROTOCOL_VERSION {
            Ok(())
        } else {
            Err(Error::WrongProtocolVersion)
        }
    }

    /// The connection over a device that was opened as `fd`, reported the
    /// protocol version `protocol_version`, and mapped its arena at
    /// `vm_start`. A driver that speaks another version is refused.
    pub fn open(fd: i32, protocol_version: i32, vm_start: u64) -> (r: Result<
        BinderConnection,
        Error,
    >)
        ensures
            match r {
                Ok(conn) => protocol_version == CURRENT_PROTOCOL_VERSION && conn@ == (
                ConnectionView {
                    fd,
                    vm_start,
                    live: Map::empty(),
                    minted: 0,
                    pending: Seq::empty(),
                }) && conn.wf(),
                Err(e) => protocol_version != CURRENT_PROTOCOL_VERSION && e
                    == Error::WrongProtocolVersion,
            },
    {
        if protocol_version != CURRENT_PROTOCOL_VERSION {
            return Err(Error::WrongProtocolVersion);
        }
        Ok(
            BinderConnection {
                fd,
                vm_start,
                handle_map: HashMap::new(),
                minted: 0,
                pending: Vec::new(),
            },
        )
    }

    /// The descriptor of the device.
    pub fn fd(&self) -> (fd: i32)
        ensures
            fd == self@.fd,
    {
        self.fd
    }

    /// Where the arena is mapped.
    pub fn vm_start(&self) -> (start: u64)
        ensures
            start == self@.vm_start,
    {
        self.vm_start
    }

    /// Whether the counters leave room for one more reference to `handle`.
    pub fn can_acquire(&self, handle: u32) -> (r: bool)
        ensures
            r == has_room(self@, handle),
    {
        match self.handle_map.get(&handle) {
            Some(entry) => entry.strong < usize::MAX,
            None => self.minted < u64::MAX,
        }
    }

    /// A strong reference to `handle`: one more to the proxy that is alive,
    /// or the first to a new proxy, for which an `Acquire` is queued.
    pub fn get_strong_proxy_for_handle(&mut self, handle: u32) -> (proxy: Handle)
        requires
            old(self).wf(),
            has_room(old(self)@, handle),
        ensures
            final(self)@ == acquired(old(self)@, handle),
            proxy@ == acquired_proxy(old(self)@, handle),
            holds(final(self)@, proxy@),
            final(self).wf(),
    {
        let found: Option<ProxyEntry> = match self.handle_map.get(&handle) {
            Some(entry) => Some(*entry),
            None => None,
        };
        match found {
            Some(entry) => {
                self.handle_map.insert(
                    handle,
                    ProxyEntry { serial: entry.serial, strong: entry.strong + 1 },
                );
                Handle::new(handle, entry.serial)
            },
            None => {
                let serial: u64 = self.minted;
                self.handle_map.insert(handle, ProxyEntry { serial, strong: 1 });
                self.minted = serial + 1;
                self.pending.push(RefCommand::Acquire(handle));
                Handle::new(handle, serial)
            },
        }
    }

    /// Gives a reference back. With the last reference to a proxy the proxy
    /// is gone, and a `Release` is queued.
    pub fn release_proxy(&mut self, proxy: Handle)
        requires
            old(self).wf(),
        ensures
            final(self)@ == released(old(self)@, proxy@),
            final(self).wf(),
    {
        let found: Option<ProxyEntry> = match self.handle_map.get(&proxy.handle) {
            Some(entry) => Some(*entry),
            None => None,
        };
        match found {
            Some(entry) => {
                if entry.serial == proxy.serial {
                    if entry.strong > 1 {
                        self.handle_map.insert(
                            proxy.handle,
                            ProxyEntry { serial: entry.serial, strong: entry.strong - 1 },
                        );
                    } else {
                        self.handle_map.remove(&proxy.handle);
                        self.pending.push(RefCommand::Release(proxy.handle));
                    }
                }
            },
            None => {},
        }
    }

    /// How many references to `handle` are out.
    pub fn strong_count(&self, handle: u32) -> (n: usize)
        ensures
            n == (if self@.live.contains_key(handle) {
                self@.live[handle].strong
            } else {
                0
            }),
    {
        match self.handle_map.get(&handle) {
            Some(entry) => entry.strong,
            None => 0,
        }
    }

    /// Handles a frame of the return stream that neither ends nor advances
    /// a call: a status from the driver is an error of its kind, `Finished`
    /// is a timeout, and every other frame is taken note of and passed by.
    pub fn execute_command(&mut self, cmd: ReturnProtocolValue) -> (r: Result<
        (),
        BinderErrorKind,
    >)
        requires
            !spec_is_call_frame(cmd),
        ensures
            r == command_outcome(cmd),
            final(self)@ == old(self)@,
    {
        match cmd {
            ReturnProtocolValue::Error(status) => Err(BinderErrorKind::from_wire(status)),
            ReturnProtocolValue::Finished => Err(BinderErrorKind::TimedOut),
            _ => Ok(()),
        }
    }

    /// Starts a transaction to `handle`: gives the transaction and the parcel
    /// that is to be written to the driver, which holds the reference
    /// commands that were waiting and then the transaction itself. `msg` is
    /// the payload; `buffer` and `offsets` are the addresses at which its
    /// data and its object table lie. Where the commands do not fit a parcel
    /// the call fails with `NoMemory` and nothing changes.
    pub fn call<T: Parcel>(
        &mut self,
        handle: u32,
        code: u32,
        msg: &T,
        flags: u32,
        buffer: u64,
        offsets: u64,
    ) -> (r: Result<(Transaction, OwnedParcel), BinderErrorKind>)
        ensures
            call_started(
                old(self)@,
                handle,
                code,
                flags,
                msg.bytes().len(),
                msg.offsets().len(),
                buffer,
                offsets,
                r,
                final(self)@,
            ),
    {
        let queued: usize = self.pending.len();
        let listed: usize = msg.objects().len();
        if queued > (usize::MAX - 71) / 8 || listed as u64 > u64::MAX / 8 {
            return Err(BinderErrorKind::NoMemory);
        }
        let txn = Transaction::new(handle, code, flags);
        let descriptor = BinderTransactionData {
            target: crate::sys::TransactionTarget::Handle(handle),
            cookie: 0,
            code,
            flags: txn.flags(),
            sender_pid: 0,
            sender_euid: 0,
            data_size: msg.as_data_slice().len() as u64,
            offsets_size: 8 * (listed as u64),
            buffer,
            offsets,
        };
        let mut bytes: Vec<u8> = Vec::new();
        let mut i: usize = 0;
        while i < queued
            invariant
                i <= queued,
                queued == self.pending@.len(),
                self@ == old(self)@,
                bytes@ == ref_commands_bytes(self.pending@.take(i as int)),
                bytes@.len() == 8 * i,
            decreases queued - i,
        {
            let ghost before = bytes@;
            match self.pending[i] {
                RefCommand::Acquire(h) => {
                    put_u32(&mut bytes, CommandProtocol::Acquire.tag());
                    put_u32(&mut bytes, h);
                },
                RefCommand::Release(h) => {
                    put_u32(&mut bytes, CommandProtocol::Release.tag());
                    put_u32(&mut bytes, h);
                },
            }
            proof {
                let grown = self.pending@.take(i + 1);
                assert(grown.drop_last() =~= self.pending@.take(i as int));
                assert(grown.last() == self.pending@[i as int]);
                assert(bytes@ =~= before + ref_command_bytes(self.pending@[i as int]));
            }
            i += 1;
        }
        proof {
            assert(self.pending@.take(queued as int) =~= self.pending@);
        }
        put_u32(&mut bytes, CommandProtocol::Transaction.tag());
        descriptor.encode(&mut bytes);
        let mut out = OwnedParcel::new();
        proof {
            let framed = call_frame(old(self)@.pending, descriptor);
            assert(bytes@ =~= framed);
            assert(crate::codec::padded(bytes@) =~= bytes@);
            lemma_overwrite_at_end(Seq::empty(), bytes@);
            assert(Seq::<u8>::empty() + bytes@ =~= bytes@);
        }
        out.write_buf(bytes.as_slice());
        self.pending.clear();
        Ok((txn, out))
    }

    /// The parcel that is to be written to the driver to give it the buffer
    /// at `buf` back: one `FreeBuffer` command.
    pub fn free_buffer(&mut self, buf: u64) -> (out: OwnedParcel)
        ensures
            out@ == command_parcel(free_buffer_frame(buf)),
            out.wf(),
            final(self)@ == old(self)@,
    {
        frame_free_buffer(buf)
    }

    /// The argument of the ioctl that writes `out` and reads into the window
    /// of `input`: the length and the address of what is written, the size
    /// and the address of the window, and nothing consumed yet. A side that
    /// is absent has no size and no address. `out_address` and `in_address`
    /// are the addresses of the two buffers.
    pub fn binder_send_receive_bufs(
        &self,
        out: Option<&OwnedParcel>,
        out_address: u64,
        input: Option<&OwnedParcel>,
        in_address: u64,
    ) -> (bwr: BinderWriteRead)
        ensures
            bwr == (BinderWriteRead {
                write_size: match out {
                    Some(parcel) => parcel@.data.len() as u64,
                    None => 0,
                },
                write_consumed: 0,
                write_buffer: if out is Some {
                    out_address
                } else {
                    0
                },
                read_size: match input {
                    Some(parcel) => parcel@.capacity as u64,
                    None => 0,
                },
                read_consumed: 0,
                read_buffer: if input is Some {
                    in_address
                } else {
                    0
                },
            }),
    {
        let (write_size, write_buffer): (u64, u64) = match out {
            Some(parcel) => (parcel.len() as u64, out_address),
            None => (0, 0),
        };
        let (read_size, read_buffer): (u64, u64) = match input {
            Some(parcel) => (parcel.capacity() as u64, in_address),
            None => (0, 0),
        };
        BinderWriteRead {
            write_size,
            write_consumed: 0,
            write_buffer,
            read_size,
            read_consumed: 0,
            read_buffer,
        }
    }

    /// Where the payload of a reply lies: the length of its data and the
    /// number of offsets in its object table. A reply that names memory
    /// outside the arena, or a table that is not made of whole offsets on an
    /// eight-byte boundary, is refused with `BadValue`.
    pub fn reply_window(&self, reply: &BinderTransactionData) -> (r: Result<
        (usize, usize),
        BinderErrorKind,
    >)
        ensures
            match r {
                Ok((data_len, offsets_len)) => reply_in_arena(self@.vm_start, *reply) && data_len
                    == reply.data_size && offsets_len == reply.offsets_size / 8,
                Err(e) => e == BinderErrorKind::BadValue && !reply_in_arena(
                    self@.vm_start,
                    *reply,
                ),
            },
    {
        let size: u64 = BINDER_VM_SIZE as u64;
        let start: u64 = self.vm_start;
        if reply.buffer < start || reply.offsets < start {
            return Err(BinderErrorKind::BadValue);
        }
        let data_at: u64 = reply.buffer - start;
        let table_at: u64 = reply.offsets - start;
        if data_at > size || reply.data_size > size - data_at {
            return Err(BinderErrorKind::BadValue);
        }
        if table_at > size || reply.offsets_size > size - table_at {
            return Err(BinderErrorKind::BadValue);
        }
        if reply.offsets % 8 != 0 || reply.offsets_size % 8 != 0 {
            return Err(BinderErrorKind::BadValue);
        }
        Ok((reply.data_size as usize, (reply.offsets_size / 8) as usize))
    }

    /// The context object, after it was pinged: a reference to handle 0,
    /// unless the ping found nobody there.
    pub fn get_context_object(&mut self, ping: Result<(), BinderErrorKind>) -> (r: Option<Handle>)
        requires
            old(self).wf(),
            has_room(old(self)@, 0),
        ensures
            match r {
                None => ping == Err::<(), BinderErrorKind>(BinderErrorKind::DeadObject)
                    && final(self)@ == old(self)@,
                Some(proxy) => ping != Err::<(), BinderErrorKind>(BinderErrorKind::DeadObject)
                    && proxy@ == acquired_proxy(old(self)@, 0) && final(self)@ == acquired(
                    old(self)@,
                    0,
                ),
            },
            final(self).wf(),
    {
        match ping {
            Err(BinderErrorKind::DeadObject) => None,
            _ => Some(self.get_strong_proxy_for_handle(0)),
        }
    }

    /// Starts the transaction that asks whether the context object, which
    /// is the object with handle 0, is there: a ping with the payload `data`.
    pub fn probe_context_object(&mut self, data: &OwnedParcel, buffer: u64, offsets: u64) -> (r:
        Result<(Transaction, OwnedParcel), BinderErrorKind>)
        ensures
            call_started(
                old(self)@,
                0,
                BinderProtocol::PingTransaction.spec_code(),
                0,
                data.bytes().len(),
                data.offsets().len(),
                buffer,
                offsets,
                r,
                final(self)@,
            ),
    {
        self.call(0, BinderProtocol::PingTransaction.code(), data, 0, buffer, offsets)
    }

    /// The Service Manager, after the context object was pinged: the client
    /// made of a reference to handle 0, unless the ping found nobody there.
    pub fn get_service_manager(&mut self, ping: Result<(), BinderErrorKind>) -> (r: Option<
        ServiceManager,
    >)
        requires
            old(self).wf(),
            has_room(old(self)@, 0),
        ensures
            match r {
                None => ping == Err::<(), BinderErrorKind>(BinderErrorKind::DeadObject)
                    && final(self)@ == old(self)@,
                Some(manager) => ping != Err::<(), BinderErrorKind>(BinderErrorKind::DeadObject)
                    && manager.proxy() == acquired_proxy(old(self)@, 0) && final(self)@
                    == acquired(old(self)@, 0),
            },
            final(self).wf(),
    {
        match self.get_context_object(ping) {
            Some(proxy) => Some(ServiceManager::from_handle(proxy)),
            None => None,
        }
    }

    /// The reference commands that wait for the next write.
    pub fn pending(&self) -> (queue: &[RefCommand])
        ensures
            queue@ == self@.pending,
    {
        self.pending.as_slice()
    }
}

/// Asking for a handle twice gives two references to one proxy, and the
/// second asking tells the driver nothing and adds no handle to the
/// registry; asking for a handle whose proxy is alive tells the driver
/// nothing either.
pub proof fn lemma_live_proxy_is_shared(v: ConnectionView, handle: u32)
    ensures
        acquired_proxy(acquired(v, handle), handle) == acquired_proxy(v, handle),
        acquired(acquired(v, handle), handle).pending == acquired(v, handle).pending,
        acquired(acquired(v, handle), handle).live.dom() == acquired(v, handle).live.dom(),
        v.live.contains_key(handle) ==> acquired(v, handle).pending == v.pending && acquired(
            v,
            handle,
        ).live.dom() == v.live.dom(),
{
    let once = acquired(v, handle);
    assert(once.live.contains_key(handle));
    assert(acquired(once, handle).live.dom() =~= once.live.dom());
    if v.live.contains_key(handle) {
        assert(once.live.dom() =~= v.live.dom());
    }
}

/// Once the last reference to a proxy was given back, asking for its handle
/// makes a proxy that is not the old one, and between them the driver is
/// told of one release and then of one acquire.
pub proof fn lemma_new_proxy_after_last_release(v: ConnectionView, proxy: HandleView)
    requires
        registry_ok(v),
        holds(v, proxy),
        v.live[proxy.handle].strong == 1,
    ensures
        !released(v, proxy).live.contains_key(proxy.handle),
        acquired_proxy(released(v, proxy), proxy.handle).serial != proxy.serial,
        acquired(released(v, proxy), proxy.handle).pending == v.pending.push(
            RefCommand::Release(proxy.handle),
        ).push(RefCommand::Acquire(proxy.handle)),
{
}

/// The connection after `n` references to the proxy were given back.
pub open spec fn released_times(v: ConnectionView, proxy: HandleView, n: nat) -> ConnectionView
    decreases n,
{
    if n == 0 {
        v
    } else {
        released_times(released(v, proxy), proxy, (n - 1) as nat)
    }
}

/// Once every reference to a proxy was given back, however many there were,
/// the proxy is gone and the driver is told of one release; asking for the
/// handle then makes a proxy that is not the old one, which the registry
/// holds, and the driver is told of one acquire after the release.
pub proof fn lemma_new_proxy_after_all_released(v: ConnectionView, proxy: HandleView)
    requires
        registry_ok(v),
        holds(v, proxy),
    ensures
        ({
            let gone = released_times(v, proxy, v.live[proxy.handle].strong as nat);
            let again = acquired_proxy(gone, proxy.handle);
            &&& !gone.live.contains_key(proxy.handle)
            &&& gone.pending == v.pending.push(RefCommand::Release(proxy.handle))
            &&& again.handle == proxy.handle
            &&& again.serial != proxy.serial
            &&& holds(acquired(gone, proxy.handle), again)
            &&& acquired(gone, proxy.handle).pending == v.pending.push(
                RefCommand::Release(proxy.handle),
            ).push(RefCommand::Acquire(proxy.handle))
        }),
    decreases v.live[proxy.handle].strong,
{
    let n = v.live[proxy.handle].strong as nat;
    let next = released(v, proxy);
    assert(released_times(v, proxy, n) == released_times(next, proxy, (n - 1) as nat));
    if n == 1 {
        assert(released_times(next, proxy, 0) == next);
        lemma_new_proxy_after_last_release(v, proxy);
    } else {
        assert(registry_ok(next));
        lemma_new_proxy_after_all_released(next, proxy);
    }
}

/// At most one proxy is alive for a handle: every reference that the
/// connection holds to a handle is to the same proxy.
pub proof fn lemma_one_proxy_per_handle(v: ConnectionView, a: HandleView, b: HandleView)
    requires
        holds(v, a),
        holds(v, b),
        a.handle == b.handle,
    ensures
        a == b,
{
}

/// The bytes of a reference command: its tag and the handle.
pub open spec fn ref_command_bytes(cmd: RefCommand) -> Seq<u8> {
    match cmd {
        RefCommand::Acquire(handle) => native_u32_bytes(CommandProtocol::Acquire.spec_tag())
            + native_u32_bytes(handle),
        RefCommand::Release(handle) => native_u32_bytes(CommandProtocol::Release.spec_tag())
            + native_u32_bytes(handle),
    }
}

/// The bytes of a queue of reference commands, oldest first.
pub open spec fn ref_commands_bytes(queue: Seq<RefCommand>) -> Seq<u8>
    decreases queue.len(),
{
    if queue.len() == 0 {
        Seq::empty()
    } else {
        ref_commands_bytes(queue.drop_last()) + ref_command_bytes(queue.last())
    }
}

/// What is written to start a transaction: the reference commands that were
/// waiting, the tag of a transaction, and the descriptor.
pub open spec fn call_frame(queue: Seq<RefCommand>, descriptor: BinderTransactionData) -> Seq<u8> {
    ref_commands_bytes(queue) + native_u32_bytes(CommandProtocol::Transaction.spec_tag())
        + descriptor.bytes()
}

/// Whether a transaction can be framed: the commands fit a parcel, and the
/// size of the object table fits the descriptor.
pub open spec fn call_fits(queued: nat, listed: nat) -> bool {
    8 * queued + 4 + TRANSACTION_DATA_SIZE + 3 <= usize::MAX && 8 * listed <= u64::MAX
}

/// What starting a transaction comes to. Where the commands fit, the
/// transaction is about to be written, the parcel for the driver holds the
/// reference commands that were waiting and the transaction with its
/// descriptor, and no reference command waits any more. Where they do not
/// fit, the call fails with `NoMemory` and the connection is as it was.
pub open spec fn call_started(
    before: ConnectionView,
    handle: u32,
    code: u32,
    flags: u32,
    data_len: nat,
    listed: nat,
    buffer: u64,
    offsets: u64,
    r: Result<(Transaction, OwnedParcel), BinderErrorKind>,
    after: ConnectionView,
) -> bool {
    match r {
        Ok((txn, out)) => {
            &&& call_fits(before.pending.len(), listed)
            &&& txn@ == Transaction::new_view(handle, code, flags)
            &&& out@ == command_parcel(
                call_frame(
                    before.pending,
                    Transaction::descriptor(
                        txn@,
                        data_len as u64,
                        (8 * listed) as u64,
                        buffer,
                        offsets,
                    ),
                ),
            )
            &&& out.wf()
            &&& after == (ConnectionView { pending: Seq::empty(), ..before })
        },
        Err(e) => {
            &&& e == BinderErrorKind::NoMemory
            &&& !call_fits(before.pending.len(), listed)
            &&& after == before
        },
    }
}

/// What the caller of the ioctl does after it failed.
#[derive(Debug, Clone, Copy, PartialEq, Eq, Structural)]
pub enum IoctlStep {
    /// The call was interrupted: make it again.
    Retry,
    /// The call failed with this error.
    Fail(BinderErrorKind),
}

/// What an `errno` of the ioctl means: an interrupted call is made again,
/// and any other number is the error of its kind.
pub fn after_ioctl_error(errno: i32) -> (step: IoctlStep)
    ensures
        step == (if errno == EINTR {
            IoctlStep::Retry
        } else if errno > 0 {
            IoctlStep::Fail(status_kind((-errno) as i32))
        } else {
            IoctlStep::Fail(BinderErrorKind::UnknownError(errno))
        }),
{
    if errno == EINTR {
        IoctlStep::Retry
    } else if errno > 0 {
        IoctlStep::Fail(BinderErrorKind::from_status(-errno))
    } else {
        IoctlStep::Fail(BinderErrorKind::UnknownError(errno))
    }
}

/// Whether the arena that starts at `vm_start` holds `size` bytes at
/// `address`.
pub open spec fn arena_holds(vm_start: u64, address: u64, size: u64) -> bool {
    vm_start <= address && address + size <= vm_start + BINDER_VM_SIZE
}

/// Whether the buffer and the object table that a reply names lie in the
/// arena, with the table on an eight-byte boundary and made of whole offsets.
pub open spec fn reply_in_arena(vm_start: u64, reply: BinderTransactionData) -> bool {
    &&& arena_holds(vm_start, reply.buffer, reply.data_size)
    &&& arena_holds(vm_start, reply.offsets, reply.offsets_size)
    &&& reply.offsets % 8 == 0
    &&& reply.offsets_size % 8 == 0
}

/// What the status word of a reply says: the error of its kind, or
/// `NotEnoughData` where the reply holds no word.
pub open spec fn reply_status(bytes: Seq<u8>, pos: int) -> BinderErrorKind {
    if readable(bytes, pos, 4) {
        wire_kind(i32_at(bytes, pos))
    } else {
        BinderErrorKind::NotEnoughData
    }
}

/// Takes the reply of a transaction. A reply whose flags say that it is a
/// status gives the error that the status stands for, and the parcel to
/// write to the driver so that it has its buffer back; any other reply is
/// handed on as it is.
pub fn take_reply<'a>(flags: u32, reply: BinderParcel<'a>) -> (r: Result<
    BinderParcel<'a>,
    (BinderErrorKind, OwnedParcel),
>)
    requires
        reply.wf(),
    ensures
        match r {
            Ok(parcel) => flags & TF_STATUS_CODE == 0 && parcel == reply,
            Err((kind, out)) => flags & TF_STATUS_CODE != 0 && kind == reply_status(
                reply@.data,
                reply@.position,
            ) && out@ == command_parcel(free_buffer_frame(reply@.buffer)) && out.wf(),
        },
{
    if flags & TF_STATUS_CODE == 0 {
        Ok(reply)
    } else {
        let ghost lent = reply;
        let mut reply = reply;
        let kind = match reply.read_i32() {
            Ok(status) => BinderErrorKind::from_wire(status),
            Err(e) => e,
        };
        proof {
            if readable(lent@.data, lent@.position, 4) {
                lent.lemma_at_view(lent@.position + 4);
            }
        }
        Err((kind, reply.release()))
    }
}

} // verus!
