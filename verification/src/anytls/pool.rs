//! A pool of connections, numbered as they were made.

use crate::error::Error;
use vstd::prelude::*;

verus! {

/// The connections of a pool.
#[derive(Debug)]
pub struct ConnectionPool {
    /// The numbers of the connections.
    pub ids: Vec<u64>,
    /// The number of the next connection.
    pub next_id: u64,
}

impl ConnectionPool {
    /// No connections.
    pub fn new() -> (p: ConnectionPool)
        ensures
            p.ids@ == Seq::<u64>::empty(),
            p.next_id == 0,
    {
        ConnectionPool { ids: Vec::new(), next_id: 0 }
    }

    /// The number for a connection that is about to be made.
    pub fn begin(&mut self) -> (id: u64)
        ensures
            id == old(self).next_id,
            final(self).ids@ == old(self).ids@,
            final(self).next_id == (old(self).next_id + 1) % 0x1_0000_0000_0000_0000,
    {
        let id: u64 = self.next_id;
        self.next_id = self.next_id.wrapping_add(1);
        id
    }

    /// Takes a connection in that was made.
    pub fn add_connection(&mut self, id: u64)
        ensures
            final(self).ids@ == old(self).ids@.push(id),
            final(self).next_id == old(self).next_id,
    {
        self.ids.push(id);
    }

    /// The connection on which a stream is opened: the first.
    pub fn open_stream(&self) -> (r: Result<u64, Error>)
        ensures
            self.ids@.len() > 0 ==> r == Ok::<u64, Error>(self.ids@[0]),
            self.ids@.len() == 0 ==> (r matches Err(e) && e.is_unexpected("no connections"@)),
    {
        if self.ids.len() == 0 {
            Err(Error::unexpected("no connections"))
        } else {
            Ok(self.ids[0])
        }
    }
}

} // verus!
