//! The Service Manager: the directory of system services, which is the
//! context object of a connection. Each request is built here and each reply
//! is read here; sending the one and receiving the other is the caller's.

use crate::codec::{i32_at, native_i32_bytes, lemma_ascii_units};
use crate::connection::{
    acquired, acquired_proxy, has_room, BinderConnection, Handle, HandleView, IInterface,
    FIRST_CALL_TRANSACTION,
};
use crate::error::BinderErrorKind;
use crate::parcel::{
    fits, fresh, measure_string16, object_written, strong_binder_at, strong_binder_object, string16_at,
    string16_room, with_string16, with_token, written, OwnedParcel, OwnedParcelView, Parcel,
    Reader,
};
use crate::wire::{is_ascii_text, utf16_units};
use vstd::prelude::*;

verus! {

/// The client of the Service Manager.
pub struct ServiceManager {
    handle: Handle,
}

/// The transactions of the Service Manager.
#[derive(Debug, Clone, Copy, PartialEq, Eq, Hash, Structural)]
pub enum ServiceManagerProtocol {
    GetService,
    CheckService,
    AddService,
    ListServices,
}

impl ServiceManagerProtocol {
    /// The transaction's code: the four are counted from the first code that
    /// a service may use.
    pub open spec fn spec_code(self) -> u32 {
        match self {
            ServiceManagerProtocol::GetService => FIRST_CALL_TRANSACTION,
            ServiceManagerProtocol::CheckService => (FIRST_CALL_TRANSACTION + 1) as u32,
            ServiceManagerProtocol::AddService => (FIRST_CALL_TRANSACTION + 2) as u32,
            ServiceManagerProtocol::ListServices => (FIRST_CALL_TRANSACTION + 3) as u32,
        }
    }

    #[verifier::when_used_as_spec(spec_code)]
    pub fn code(self) -> (c: u32)
        ensures
            c == self.spec_code(),
    {
        match self {
            ServiceManagerProtocol::GetService => FIRST_CALL_TRANSACTION,
            ServiceManagerProtocol::CheckService => FIRST_CALL_TRANSACTION + 1,
            ServiceManagerProtocol::AddService => FIRST_CALL_TRANSACTION + 2,
            ServiceManagerProtocol::ListServices => FIRST_CALL_TRANSACTION + 3,
        }
    }
}

/// The descriptor of the Service Manager's interface.
pub open spec fn service_manager_descriptor() -> Seq<char> {
    "android.os.IServiceManager"@
}

/// The descriptor is 26 characters of ASCII.
pub proof fn lemma_service_manager_descriptor()
    ensures
        service_manager_descriptor().len() == 26,
        is_ascii_text(service_manager_descriptor()),
        utf16_units(service_manager_descriptor()) == 26,
        string16_room(service_manager_descriptor()) == 60,
{
    reveal_strlit("android.os.IServiceManager");
    lemma_ascii_units(service_manager_descriptor());
}

/// Whether a request that names `name` can be built: the name's count of
/// units fits the `i32` that is written before it, and the request fits a
/// parcel.
pub open spec fn name_fits(name: Seq<char>) -> bool {
    utf16_units(name) <= i32::MAX && 64 + string16_room(name) + 32 <= usize::MAX
}

/// Whether a request that names `name` can be built.
pub fn check_name(name: &str) -> (r: bool)
    ensures
        r == name_fits(name@),
{
    match measure_string16(name) {
        Some(room) => room <= usize::MAX - 96,
        None => false,
    }
}

/// The head of every request to the Service Manager: the token of its
/// interface.
pub open spec fn request_head() -> OwnedParcelView {
    with_token(fresh(), service_manager_descriptor())
}

impl IInterface for ServiceManager {
    open spec fn descriptor() -> Seq<char> {
        service_manager_descriptor()
    }

    closed spec fn proxy(&self) -> HandleView {
        self.handle@
    }

    fn get_interface_descriptor() -> (d: &'static str) {
        "android.os.IServiceManager"
    }

    fn from_handle(handle: Handle) -> (client: ServiceManager) {
        ServiceManager { handle }
    }
}

impl ServiceManager {
    /// The reference to the Service Manager.
    pub fn handle(&self) -> (h: &Handle)
        ensures
            h@ == self.proxy(),
    {
        &self.handle
    }

    /// Gives the reference back.
    pub fn into_handle(self) -> (h: Handle)
        ensures
            h@ == self.proxy(),
    {
        self.handle
    }

    /// A parcel that holds the token of the interface and nothing else.
    fn request() -> (data: OwnedParcel)
        ensures
            data@ == request_head(),
            data@.position == 64,
            data@.objects.len() == 0,
            data.wf(),
    {
        let mut data = OwnedParcel::new();
        proof {
            lemma_service_manager_descriptor();
        }
        data.write_interface_token(ServiceManager::get_interface_descriptor());
        data
    }

    /// The request that asks for the service `name`: the token and the name.
    /// It is sent as `CheckService`.
    pub fn check_service(&self, name: &str) -> (data: OwnedParcel)
        requires
            name_fits(name@),
        ensures
            data@ == with_string16(request_head(), name@),
            data@.position == 64 + string16_room(name@),
            is_ascii_text(name@) ==> string16_at(data@.data, 64) == Ok::<
                (Seq<char>, int),
                BinderErrorKind,
            >((name@, data@.position)),
            data.wf(),
    {
        let mut data = ServiceManager::request();
        data.write_string16(name);
        data
    }

    /// Reads the reply to `CheckService`: the client of the service, made of
    /// a reference to the handle in the reply, or nothing where the reply
    /// holds a null object, which says that no such service is registered.
    pub fn check_service_reply<I: IInterface, P: Parcel>(
        reply: &mut P,
        conn: &mut BinderConnection,
    ) -> (r: Result<Option<I>, BinderErrorKind>)
        requires
            old(reply).wf(),
            old(conn).wf(),
        ensures
            match (r, strong_binder_at(old(reply).bytes(), old(reply).offsets(), old(reply).cursor())) {
                (Ok(Some(client)), Ok(Some(handle))) => has_room(old(conn)@, handle)
                    && client.proxy() == acquired_proxy(old(conn)@, handle) && final(conn)@
                    == acquired(old(conn)@, handle),
                (Ok(None), Ok(None)) => final(conn)@ == old(conn)@,
                (Err(e), Err(expected)) => e == expected && final(conn)@ == old(conn)@,
                (Err(e), Ok(Some(handle))) => e == BinderErrorKind::NoMemory && !has_room(
                    old(conn)@,
                    handle,
                ) && final(conn)@ == old(conn)@,
                _ => false,
            },
            final(reply).wf(),
            final(conn).wf(),
            final(reply).bytes() == old(reply).bytes(),
            final(reply).offsets() == old(reply).offsets(),
    {
        match reply.read_strong_binder(conn) {
            Err(e) => Err(e),
            Ok(None) => Ok(None),
            Ok(Some(proxy)) => Ok(Some(I::from_handle(proxy))),
        }
    }

    /// The request that registers the object behind `handle` as the service
    /// `name`: the token, the name, the object, and whether isolated
    /// processes may reach the service. It is sent as `AddService`.
    pub fn add_service(&self, name: &str, handle: &Handle, allow_isolated: bool) -> (data:
        OwnedParcel)
        requires
            name_fits(name@),
        ensures
            data@ == written(
                object_written(
                    with_string16(request_head(), name@),
                    strong_binder_object(Some(handle)),
                    true,
                ),
                native_i32_bytes(if allow_isolated { 1i32 } else { 0i32 }),
            ),
            data@.position == 64 + string16_room(name@) + 28,
            data@.objects == seq![(64 + string16_room(name@)) as usize],
            i32_at(data@.data, 64 + string16_room(name@) + 24) == (if allow_isolated {
                1i32
            } else {
                0i32
            }),
            data.wf(),
    {
        let mut data = ServiceManager::request();
        data.write_string16(name);
        data.write_strong_binder(Some(handle));
        data.write_i32(if allow_isolated { 1 } else { 0 });
        proof {
            assert(data@.objects =~= seq![(64 + string16_room(name@)) as usize]);
        }
        data
    }

    /// The request that asks for the name of the service at `index` of the
    /// directory: the token and the index. It is sent as `ListServices`.
    pub fn list_services(&self, index: i32) -> (data: OwnedParcel)
        ensures
            data@ == written(request_head(), native_i32_bytes(index)),
            data@.position == 68,
            i32_at(data@.data, 64) == index,
            data.wf(),
    {
        let mut data = ServiceManager::request();
        data.write_i32(index);
        data
    }
}

/// What a listing of the directory has gathered.
pub struct ServiceListView {
    /// The names, in the order in which they came.
    pub names: Seq<Seq<char>>,
    /// The index that is asked for next.
    pub next: i32,
    /// Whether the listing is over.
    pub done: bool,
}

/// A listing of the directory on its way. The directory is asked for its
/// entries from index 0 on, one request for each, until a request fails;
/// a name that came before is not taken again.
pub struct ServiceList {
    names: Vec<String>,
    next: i32,
    done: bool,
}

impl View for ServiceList {
    type V = ServiceListView;

    closed spec fn view(&self) -> ServiceListView {
        ServiceListView { names: self.names.deep_view(), next: self.next, done: self.done }
    }
}

/// The listing after the reply to the request for its next index was read
/// as `name`.
pub open spec fn listed(v: ServiceListView, name: Seq<char>) -> ServiceListView {
    ServiceListView {
        names: if v.names.contains(name) {
            v.names
        } else {
            v.names.push(name)
        },
        next: if v.next < i32::MAX {
            (v.next + 1) as i32
        } else {
            v.next
        },
        done: v.done || v.next == i32::MAX,
    }
}

/// The listing after the replies to its requests were read as `names`, one
/// after the other.
pub open spec fn listed_all(v: ServiceListView, names: Seq<Seq<char>>) -> ServiceListView
    decreases names.len(),
{
    if names.len() == 0 {
        v
    } else {
        listed(listed_all(v, names.drop_last()), names.last())
    }
}

/// A directory that answers its first requests with names of which none
/// comes twice is listed as it answered: the names in the order of their
/// indices, as many as there were answers, and the next request asks for
/// the index behind them.
pub proof fn lemma_listing_keeps_order(names: Seq<Seq<char>>)
    requires
        names.no_duplicates(),
        names.len() <= i32::MAX,
    ensures
        listed_all(
            ServiceListView { names: Seq::empty(), next: 0, done: false },
            names,
        ) == (ServiceListView {
            names,
            next: names.len() as i32,
            done: false,
        }),
    decreases names.len(),
{
    let start = ServiceListView { names: Seq::empty(), next: 0, done: false };
    if names.len() == 0 {
        assert(names =~= Seq::empty());
    } else {
        let front = names.drop_last();
        lemma_listing_keeps_order(front);
        assert(!front.contains(names.last())) by {
            if front.contains(names.last()) {
                let i = choose|i: int| 0 <= i < front.len() && front[i] == names.last();
                assert(names[i] == names[names.len() - 1]);
            }
        }
        assert(front.push(names.last()) =~= names);
    }
}

/// A listing never holds a name twice, whatever the directory answers.
pub proof fn lemma_listing_has_no_duplicates(v: ServiceListView, name: Seq<char>)
    requires
        v.names.no_duplicates(),
    ensures
        listed(v, name).names.no_duplicates(),
        listed(v, name).names.contains(name),
{
    let grown = listed(v, name).names;
    if v.names.contains(name) {
    } else {
        assert(grown[v.names.len() as int] == name);
        assert forall|i: int, j: int|
            0 <= i < grown.len() && 0 <= j < grown.len() && i != j implies grown[i]
            != grown[j] by {
            if i < v.names.len() {
                assert(v.names.contains(grown[i]));
            }
            if j < v.names.len() {
                assert(v.names.contains(grown[j]));
            }
        }
    }
}

impl ServiceList {
    /// The listing's invariant: no name twice, and no index below zero.
    pub open spec fn wf(&self) -> bool {
        self@.names.no_duplicates() && self@.next >= 0
    }

    /// A listing that has asked for nothing yet.
    pub fn new() -> (list: ServiceList)
        ensures
            list@ == (ServiceListView { names: Seq::empty(), next: 0, done: false }),
            list.wf(),
    {
        let list = ServiceList { names: Vec::new(), next: 0, done: false };
        proof {
            assert(list.names.deep_view() =~= Seq::empty());
        }
        list
    }

    /// The index to ask for next, unless the listing is over.
    pub fn next_index(&self) -> (r: Option<i32>)
        ensures
            r == (if self@.done {
                None
            } else {
                Some(self@.next)
            }),
    {
        if self.done {
            None
        } else {
            Some(self.next)
        }
    }

    /// Takes the reply to the request for the next index: the name in it
    /// joins the names, unless it is among them. A reply that holds no
    /// string ends the listing with the error of the read.
    pub fn accept<P: Parcel>(&mut self, reply: &mut P) -> (r: Result<(), BinderErrorKind>)
        requires
            old(self).wf(),
            old(reply).wf(),
        ensures
            match (r, string16_at(old(reply).bytes(), old(reply).cursor())) {
                (Ok(_), Ok((name, next))) => final(self)@ == listed(old(self)@, name),
                (Err(e), Err(expected)) => e == expected && final(self)@ == (ServiceListView {
                    done: true,
                    ..old(self)@
                }),
                _ => false,
            },
            final(self).wf(),
            final(reply).wf(),
    {
        match reply.read_string16() {
            Err(e) => {
                self.done = true;
                Err(e)
            },
            Ok(name) => {
                let ghost before = self.names.deep_view();
                if !contains_name(&self.names, &name) {
                    self.names.push(name);
                    proof {
                        let grown = before.push(name@);
                        assert(self.names.deep_view() =~= grown);
                        assert forall|i: int, j: int|
                            0 <= i < grown.len() && 0 <= j < grown.len() && i != j implies grown[i]
                            != grown[j] by {
                            if i < before.len() {
                                assert(before.contains(grown[i]));
                            }
                            if j < before.len() {
                                assert(before.contains(grown[j]));
                            }
                        }
                    }
                }
                if self.next < i32::MAX {
                    self.next = self.next + 1;
                } else {
                    self.done = true;
                }
                Ok(())
            },
        }
    }

    /// Ends the listing: the request for the next index failed, which is how
    /// the directory says that it has no more entries.
    pub fn stop(&mut self)
        ensures
            final(self)@ == (ServiceListView { done: true, ..old(self)@ }),
            old(self).wf() ==> final(self).wf(),
    {
        self.done = true;
    }

    /// The names that were gathered.
    pub fn into_names(self) -> (names: Vec<String>)
        ensures
            names.deep_view() == self@.names,
    {
        self.names
    }
}

/// Whether `name` is among `names`.
fn contains_name(names: &Vec<String>, name: &String) -> (found: bool)
    ensures
        found == names.deep_view().contains(name@),
{
    let mut i: usize = 0;
    while i < names.len()
        invariant
            i <= names@.len(),
            forall|k: int| 0 <= k < i ==> names.deep_view()[k] != name@,
        decreases names@.len() - i,
    {
        if names[i] == *name {
            proof {
                assert(names.deep_view()[i as int] == name@);
            }
            return true;
        }
        i += 1;
    }
    false
}

} // verus!
