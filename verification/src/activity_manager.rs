//! The Activity Manager, as far as a client needs it to name the service:
//! its descriptor, its transaction codes, and the intent that a request to
//! start an activity carries.

use crate::connection::{Handle, HandleView, IInterface, FIRST_CALL_TRANSACTION};
use vstd::prelude::*;

verus! {

/// The client of the Activity Manager.
pub struct ActivityManager {
    handle: Handle,
}

/// What an application asks to be done, and on what.
pub struct Intent {
    pub action: String,
    pub data: String,
    pub mime_type: String,
    pub package: Option<String>,
    pub flags: u32,
    pub categories: Vec<String>,
    pub selector: Option<Box<Intent>>,
}

impl Intent {
    /// The intent to do `action` on `data`, with nothing else said.
    pub fn new(action: String, data: String) -> (intent: Intent)
        ensures
            intent.action == action,
            intent.data == data,
            intent.mime_type@.len() == 0,
            intent.package is None,
            intent.flags == 0,
            intent.categories@.len() == 0,
            intent.selector is None,
    {
        Intent {
            action,
            data,
            mime_type: String::new(),
            package: None,
            flags: 0,
            categories: Vec::new(),
            selector: None,
        }
    }
}

/// The transactions of the Activity Manager.
#[derive(Debug, Clone, Copy, PartialEq, Eq, Hash, Structural)]
pub enum ActivityManagerProtocol {
    StartActivity,
}

impl ActivityManagerProtocol {
    /// The transaction's code, counted from the first code that a service
    /// may use.
    pub open spec fn spec_code(self) -> u32 {
        match self {
            ActivityManagerProtocol::StartActivity => (FIRST_CALL_TRANSACTION + 2) as u32,
        }
    }

    #[verifier::when_used_as_spec(spec_code)]
    pub fn code(self) -> (c: u32)
        ensures
            c == self.spec_code(),
    {
        match self {
            ActivityManagerProtocol::StartActivity => FIRST_CALL_TRANSACTION + 2,
        }
    }
}

impl IInterface for ActivityManager {
    open spec fn descriptor() -> Seq<char> {
        "android.app.IActivityManager"@
    }

    closed spec fn proxy(&self) -> HandleView {
        self.handle@
    }

    fn get_interface_descriptor() -> (d: &'static str) {
        "android.app.IActivityManager"
    }

    fn from_handle(handle: Handle) -> (client: ActivityManager) {
        ActivityManager { handle }
    }
}

impl ActivityManager {
    /// The reference to the Activity Manager.
    pub fn handle(&self) -> (h: &Handle)
        ensures
            h@ == self.proxy(),
    {
        &self.handle
    }

    /// Gives the reference back.
    pub fn into_handle(self) -> (h: Handle)
        ensures
            h@ == self.proxy(),
    {
        self.handle
    }
}

} // verus!
