//! A client for the Android Binder IPC driver: the parcel codec, the
//! interpreter for the driver's return stream, the per-connection registry of
//! remote handles and the decisions of the transaction engine, each stated
//! with a contract and proved.
//!
//! The library speaks the 64-bit Binder ABI: pointers and sizes on the wire
//! are eight bytes wide, integers are in the byte order of the machine, and
//! every item of a parcel starts on a four-byte boundary.

pub mod activity_manager;
pub mod codec;
pub mod connection;
pub mod error;
pub mod parcel;
pub mod protocol;
pub mod service_manager;
pub mod sys;
pub mod transaction;
pub mod wire;

pub use connection::{BinderConnection, Handle, IInterface, BINDER_VM_SIZE, FIRST_CALL_TRANSACTION};
pub use error::{BinderErrorKind, BinderResult, Error};
pub use parcel::{BinderParcel, OwnedParcel, Parcel, Reader};
pub use protocol::{parse_one, ReturnProtocolValue};
pub use service_manager::ServiceManager;
pub use transaction::BinderProtocol;
