//! A folder being read in the background, and what its reading gave.
use vstd::prelude::*;

use crate::directory::Directory;

verus! {

#[verifier::external_type_specification]
#[verifier::external_body]
#[verifier::reject_recursive_types(T)]
pub struct ExReceiver<T>(std::sync::mpsc::Receiver<T>);

/// What the reading of a folder gave: the directory, or why it failed.
pub type ScanResult = Result<Directory, String>;

/// What a look at the channel of a scan found.
pub enum Received {
    Value(ScanResult),
    Nothing,
    Closed,
}

/// `Receiver::try_recv`: a value if one was sent, nothing while the sender
/// is still working, closed once it has gone. What comes back depends on
/// the other thread, so nothing is stated of it.
#[verifier::external_body]
fn try_receive(rx: &std::sync::mpsc::Receiver<ScanResult>) -> (r: Received) {
    match rx.try_recv() {
        Ok(v) => Received::Value(v),
        Err(std::sync::mpsc::TryRecvError::Empty) => Received::Nothing,
        Err(std::sync::mpsc::TryRecvError::Disconnected) => Received::Closed,
    }
}

/// `Receiver::recv`: waits for a value, or for the sender to go; it never
/// comes back empty-handed.
#[verifier::external_body]
fn receive(rx: &std::sync::mpsc::Receiver<ScanResult>) -> (r: Received)
    ensures
        !(r is Nothing),
{
    match rx.recv() {
        Ok(v) => Received::Value(v),
        Err(_) => Received::Closed,
    }
}

/// The message for a scan whose thread went away without an answer.
pub open spec fn scan_failed_text() -> Seq<char> {
    "directory scan failed"@
}

/// What a look at the channel means for the scan: its result, nothing yet,
/// or a failure when the scanning thread went away without an answer.
pub fn settle_scan(received: Received) -> (r: Option<ScanResult>)
    ensures
        match received {
            Received::Value(v) => r == Some(v),
            Received::Nothing => r is None,
            Received::Closed => r matches Some(Err(m)) && m@ == scan_failed_text(),
        },
{
    match received {
        Received::Value(v) => Some(v),
        Received::Nothing => None,
        Received::Closed => Some(Err(String::from_str("directory scan failed"))),
    }
}

/// A folder being read on another thread, and the file to show once it is.
pub struct PendingScan {
    target: Option<String>,
    receiver: std::sync::mpsc::Receiver<ScanResult>,
}

impl PendingScan {
    /// The file to show once the folder is read.
    pub closed spec fn shows(&self) -> Option<Seq<char>> {
        crate::paths::opt_text(self.target)
    }

    /// A scan whose result comes through `receiver`.
    pub fn new(target: Option<String>, receiver: std::sync::mpsc::Receiver<ScanResult>) -> (r: PendingScan)
        ensures
            r.shows() == crate::paths::opt_text(target),
    {
        PendingScan { target, receiver }
    }

    pub fn target(&self) -> (r: Option<&str>)
        ensures
            match r {
                Some(t) => self.shows() == Some(t@),
                None => self.shows() is None,
            },
    {
        match &self.target {
            Some(t) => Some(t.as_str()),
            None => None,
        }
    }

    /// The scan's result if it has come, without waiting.
    pub fn take(&mut self) -> (r: Option<ScanResult>)
        ensures
            final(self).shows() == old(self).shows(),
    {
        settle_scan(try_receive(&self.receiver))
    }

    /// Waits for the scan's result.
    pub fn wait(&mut self) -> (r: ScanResult)
        ensures
            final(self).shows() == old(self).shows(),
    {
        match settle_scan(receive(&self.receiver)) {
            Some(v) => v,
            None => Err(String::from_str("directory scan failed")),
        }
    }
}

} // verus!
