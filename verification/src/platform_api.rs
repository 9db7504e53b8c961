//! What the router asks of a platform: opening a link in a browser, and
//! the receipts and errors that come back.

use vstd::prelude::*;

use crate::browser::OpenDisposition;
use crate::ids::{BrowserId, ProfileId};
use crate::routing::RuntimeSnapshot;
use crate::web_url::WebUrl;

verus! {

/// A request to open a link in a browser (and profile) with the given
/// command-line arguments.
#[derive(Debug)]
pub struct BrowserOpenIntent {
    pub browser_id: BrowserId,
    pub profile_id: Option<ProfileId>,
    pub url: WebUrl,
    pub args: Vec<String>,
    pub disposition: OpenDisposition,
}

/// Why an open could not be confirmed.
#[derive(Debug, Clone, PartialEq, Eq)]
pub enum ExecutionError {
    UnsupportedCapability,
    ProfileUnavailable,
    WindowUnavailable,
    ExecutionUnconfirmed,
    LaunchFailed(String),
}

/// The outcome of an open.
#[derive(Debug, Clone, PartialEq, Eq)]
pub struct ExecutionReceipt {
    pub confirmed: bool,
    pub error: Option<ExecutionError>,
}

impl ExecutionReceipt {
    /// An open that was confirmed.
    pub fn confirmed() -> (r: Self)
        ensures
            r.confirmed,
            r.error is None,
    {
        ExecutionReceipt { confirmed: true, error: None }
    }

    /// An open that was not confirmed, with the reason.
    pub fn unconfirmed(error: ExecutionError) -> (r: Self)
        ensures
            !r.confirmed,
            r.error == Some(error),
    {
        ExecutionReceipt { confirmed: false, error: Some(error) }
    }
}

/// A failed platform operation.
#[derive(Debug, Clone, PartialEq, Eq)]
pub enum PlatformError {
    Failed(String),
    Unsupported,
    NotImplemented(String),
}

impl PlatformError {
    /// The error's message.
    pub open spec fn message_spec(&self) -> Seq<char> {
        match self {
            PlatformError::Failed(m) => "platform operation failed: "@ + m@,
            PlatformError::Unsupported => "capability is not supported on this platform"@,
            PlatformError::NotImplemented(m) => "not implemented yet: "@ + m@,
        }
    }

    /// The error's message.
    pub fn message(&self) -> (r: String)
        ensures
            r@ == self.message_spec(),
    {
        match self {
            PlatformError::Failed(m) => {
                let mut s = String::from_str("platform operation failed: ");
                s.append(m.as_str());
                s
            },
            PlatformError::Unsupported => String::from_str(
                "capability is not supported on this platform",
            ),
            PlatformError::NotImplemented(m) => {
                let mut s = String::from_str("not implemented yet: ");
                s.append(m.as_str());
                s
            },
        }
    }
}

/// Where a platform keeps a browser's data, and which profile directories
/// it holds.
pub trait PlatformQuery {
    fn browser_data_dir(&self, browser_id: &BrowserId) -> Option<String>;

    fn list_profile_dirs(&self, data_dir: &str) -> Vec<String>;
}

/// Receives what a platform observes.
pub trait PlatformEventSink {
    fn on_activation(&self, snapshot: RuntimeSnapshot);

    fn on_route_executed(&self, receipt: ExecutionReceipt);
}

} // verus!
