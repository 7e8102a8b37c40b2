//! The connections that engines share.
use vstd::hash_map::StringHashMap;
use vstd::prelude::*;

verus! {

/// Where a database is: its URL, and the path of the database file that the URL names.
#[derive(Debug, PartialEq, Eq)]
pub struct ConnectionString {
    pub url: String,
    pub path: String,
}

impl Clone for ConnectionString {
    fn clone(&self) -> (res: Self)
        ensures
            res == *self,
    {
        ConnectionString { url: self.url.clone(), path: self.path.clone() }
    }
}

/// What to do next to get a connection.
pub enum Step<'a, C> {
    /// Open a database of its own in memory, and use that connection.
    OpenInMemory,
    /// Open the database at the path, and put that connection into the pool.
    Open { path: String },
    /// Clone the pool's connection, and use the clone.
    CloneFrom { shared: &'a C },
}

/// The first connection to each database, from which all others to that database are cloned: two
/// connections that open one file separately may miss each other's changes.
#[verifier::reject_recursive_types(C)]
pub struct ConnectionPool<C> {
    conns: StringHashMap<C>,
}

impl<C> View for ConnectionPool<C> {
    type V = Map<Seq<char>, C>;

    closed spec fn view(&self) -> Map<Seq<char>, C> {
        self.conns@
    }
}

/// Whether `step` is what to do next for the database that is asked for, given the connections of
/// the pool.
pub open spec fn is_next_step<C>(
    conns: Map<Seq<char>, C>,
    database: Option<ConnectionString>,
    step: Step<C>,
) -> bool {
    match database {
        None => step is OpenInMemory,
        Some(conn_str) => if conns.contains_key(conn_str.url@) {
            step matches Step::CloneFrom { shared } && *shared == conns[conn_str.url@]
        } else {
            step matches Step::Open { path } && path == conn_str.path
        },
    }
}

impl<C> ConnectionPool<C> {
    /// A pool without connections.
    pub fn new() -> (res: ConnectionPool<C>)
        ensures
            res@ == Map::<Seq<char>, C>::empty(),
    {
        ConnectionPool { conns: StringHashMap::new() }
    }

    /// What to do next to get a connection to the given database, or to one in memory if none is
    /// given.
    pub fn next_step<'a>(&'a self, database: &Option<ConnectionString>) -> (res: Step<'a, C>)
        ensures
            is_next_step(self@, *database, res),
            res is OpenInMemory <==> *database is None,
            match *database {
                Some(conn_str) => if self@.contains_key(conn_str.url@) {
                    res is CloneFrom && *res->shared == self@[conn_str.url@]
                } else {
                    res is Open && res->path == conn_str.path
                },
                None => true,
            },
    {
        match database {
            None => Step::OpenInMemory,
            Some(conn_str) => match self.conns.get(conn_str.url.as_str()) {
                Some(shared) => Step::CloneFrom { shared },
                None => Step::Open { path: conn_str.path.clone() },
            },
        }
    }

    /// Puts the connection to a database that was opened into the pool, which has none to it yet.
    pub fn opened(&mut self, conn_str: ConnectionString, conn: C)
        requires
            !old(self)@.contains_key(conn_str.url@),
        ensures
            final(self)@ == old(self)@.insert(conn_str.url@, conn),
    {
        self.conns.insert(conn_str.url, conn);
    }
}

} // verus!
