//! A pluggable message store. No store is wired in yet: history lives in the
//! group manager's mirror. The trait fixes the surface a persistent store
//! would implement.

use vstd::prelude::*;

verus! {

pub trait MessageStore {
    type Message;

    type Error;

    fn get(&self, id: &str) -> Result<Option<Self::Message>, Self::Error>;

    fn put(&mut self, id: &str, message: Self::Message) -> Result<(), Self::Error>;

    fn remove(&mut self, id: &str) -> Result<Option<Self::Message>, Self::Error>;
}

} // verus!
