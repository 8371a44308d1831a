//! The error taxonomy. Outside failures reach this crate as the message
//! strings of their sources; the taxonomy tag is the variant.

use vstd::prelude::*;
use vstd::string::StrSliceExecFns;
use vstd::string::StringExecFns;

use crate::ids::GroupId;
use crate::ids::PeerId;

verus! {

/// One way a proposed setting is invalid.
#[derive(Debug)]
pub enum SettingErrorKind {
    /// The path, as its string form, does not exist.
    InvalidPath(String),
}

/// The rendering of one validation failure.
pub open spec fn spec_kind_text(k: SettingErrorKind) -> Seq<char> {
    match k {
        SettingErrorKind::InvalidPath(p) => "invalid path: "@ + p@,
    }
}

/// The renderings of many validation failures, joined by commas.
pub open spec fn spec_kinds_text(ks: Seq<SettingErrorKind>) -> Seq<char>
    decreases ks.len(),
{
    if ks.len() == 0 {
        Seq::<char>::empty()
    } else if ks.len() == 1 {
        spec_kind_text(ks[0])
    } else {
        spec_kinds_text(ks.drop_last()) + ", "@ + spec_kind_text(ks.last())
    }
}

impl SettingErrorKind {
    /// This failure as a human-readable string.
    pub fn describe(&self) -> (r: String)
        ensures
            r@ == spec_kind_text(*self),
    {
        match self {
            SettingErrorKind::InvalidPath(p) => String::from_str("invalid path: ").concat(
                p.as_str(),
            ),
        }
    }
}

/// The collected validation failures of one settings change.
#[derive(Debug)]
pub struct SettingError {
    kinds: Vec<SettingErrorKind>,
}

impl SettingError {
    pub closed spec fn kinds_spec(&self) -> Seq<SettingErrorKind> {
        self.kinds@
    }

    pub fn new(kinds: Vec<SettingErrorKind>) -> (r: SettingError)
        ensures
            r.kinds_spec() == kinds@,
    {
        SettingError { kinds }
    }

    pub fn kinds(&self) -> (r: &Vec<SettingErrorKind>)
        ensures
            r@ == self.kinds_spec(),
    {
        &self.kinds
    }

    /// This error as a human-readable string, the taxonomy tag preserved.
    pub fn describe(&self) -> (r: String)
        ensures
            r@ == "Setting error: "@ + spec_kinds_text(self.kinds_spec()),
    {
        let mut acc = String::new();
        let n = self.kinds.len();
        let mut i: usize = 0;
        while i < n
            invariant
                i <= n,
                n == self.kinds@.len(),
                acc@ == spec_kinds_text(self.kinds@.take(i as int)),
            decreases n - i,
        {
            proof {
                assert(self.kinds@.take(i + 1).drop_last() =~= self.kinds@.take(i as int));
                assert(self.kinds@.take(i + 1).last() == self.kinds@[i as int]);
            }
            if i > 0 {
                acc.append(", ");
            }
            let part = self.kinds[i].describe();
            acc.append(part.as_str());
            i += 1;
        }
        proof {
            assert(self.kinds@.take(n as int) =~= self.kinds@);
        }
        String::from_str("Setting error: ").concat(acc.as_str())
    }
}

/// A failure of a manager's command surface.
#[derive(Debug)]
pub enum ManagerError {
    GroupNotExist(GroupId),
    PeerNotExist(PeerId),
    /// The parameters did not parse; carries the parser's message.
    InvalidParams(String),
    /// No action of this name; carries the name.
    InvalidAction(String),
}

/// The rendering of a manager failure.
pub open spec fn spec_manager_error_text(e: ManagerError) -> Seq<char> {
    match e {
        ManagerError::GroupNotExist(g) => "Group not exist "@ + g@,
        ManagerError::PeerNotExist(p) => "Peer not exist "@ + p@,
        ManagerError::InvalidParams(m) => "invalid params: "@ + m@,
        ManagerError::InvalidAction(a) => "invalid action: "@ + a@,
    }
}

impl ManagerError {
    /// This error as a human-readable string, the taxonomy tag preserved.
    pub fn describe(&self) -> (r: String)
        ensures
            r@ == spec_manager_error_text(*self),
    {
        match self {
            ManagerError::GroupNotExist(g) => String::from_str("Group not exist ").concat(
                g.id.as_str(),
            ),
            ManagerError::PeerNotExist(p) => String::from_str("Peer not exist ").concat(
                p.id.as_str(),
            ),
            ManagerError::InvalidParams(m) => String::from_str("invalid params: ").concat(
                m.as_str(),
            ),
            ManagerError::InvalidAction(a) => String::from_str("invalid action: ").concat(
                a.as_str(),
            ),
        }
    }
}

/// A failure surfaced to whoever raised a command.
#[derive(Debug)]
pub enum NetworkError {
    /// Listening could not start; carries the transport's message.
    ListeningError(String),
    /// An outgoing dial failed; carries the transport's message.
    DialError(String),
    IOError(String),
    /// The pub/sub layer refused a publish.
    PublishError(String),
    /// The pub/sub layer refused a subscription change.
    SubscriptionError(String),
    /// An outbound request failed before a response was framed.
    RequestError(String),
    SettingError(SettingError),
    ManagerError(ManagerError),
    /// The address does not end in a peer identifier where one is required.
    InvalidAddress(String),
    /// The command surface knows no manager of this name.
    CommandNotFound(String),
    /// A wrapped unforeseen error.
    Other(String),
}

/// The rendering of a network failure.
pub open spec fn spec_network_error_text(e: NetworkError) -> Seq<char> {
    match e {
        NetworkError::ListeningError(m) => "Listening error: "@ + m@,
        NetworkError::DialError(m) => m@,
        NetworkError::IOError(m) => "IO error: "@ + m@,
        NetworkError::PublishError(m) => m@,
        NetworkError::SubscriptionError(m) => m@,
        NetworkError::RequestError(m) => "Request error: "@ + m@,
        NetworkError::SettingError(e) => "Setting error: "@ + spec_kinds_text(e.kinds_spec()),
        NetworkError::ManagerError(e) => "Manager error: "@ + spec_manager_error_text(e),
        NetworkError::InvalidAddress(m) => "invalid address: "@ + m@,
        NetworkError::CommandNotFound(m) => "command not found: "@ + m@,
        NetworkError::Other(m) => m@,
    }
}

impl NetworkError {
    /// This error as a human-readable string, the taxonomy tag preserved;
    /// how external callers see every error.
    pub fn describe(&self) -> (r: String)
        ensures
            r@ == spec_network_error_text(*self),
    {
        match self {
            NetworkError::ListeningError(m) => String::from_str("Listening error: ").concat(
                m.as_str(),
            ),
            NetworkError::DialError(m) => m.clone(),
            NetworkError::IOError(m) => String::from_str("IO error: ").concat(m.as_str()),
            NetworkError::PublishError(m) => m.clone(),
            NetworkError::SubscriptionError(m) => m.clone(),
            NetworkError::RequestError(m) => String::from_str("Request error: ").concat(
                m.as_str(),
            ),
            NetworkError::SettingError(e) => e.describe(),
            NetworkError::ManagerError(e) => {
                let inner = e.describe();
                String::from_str("Manager error: ").concat(inner.as_str())
            },
            NetworkError::InvalidAddress(m) => String::from_str("invalid address: ").concat(
                m.as_str(),
            ),
            NetworkError::CommandNotFound(m) => String::from_str("command not found: ").concat(
                m.as_str(),
            ),
            NetworkError::Other(m) => m.clone(),
        }
    }
}

} // verus!
