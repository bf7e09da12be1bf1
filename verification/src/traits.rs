//! The store behind the callouts: what a backend is asked for, and the
//! error it answers with.

use vstd::prelude::*;
use vstd::string::*;

verus! {

/// The error of a backend: a message.
#[derive(Debug)]
pub struct Error {
    message: String,
}

impl View for Error {
    type V = Seq<char>;

    closed spec fn view(&self) -> Seq<char> {
        self.message@
    }
}

impl Error {
    pub fn new(message: String) -> (r: Error)
        ensures
            r@ == message@,
    {
        Error { message }
    }

    pub fn into_string(self) -> (r: String)
        ensures
            r@ == self@,
    {
        self.message
    }

    pub fn as_str(&self) -> (r: &str)
        ensures
            r@ == self@,
    {
        self.message.as_str()
    }
}

/// Access to the node's backend db. A backend may say by the four
/// relations what its operations answer; one that does not may answer
/// anything. What the operations do to the store is the backend's own
/// matter.
pub trait Db {
    /// Whether `r` may answer a read of `key`.
    open spec fn gets(&self, key: Seq<u8>, r: Result<Option<Vec<u8>>, Error>) -> bool {
        true
    }

    /// Whether `r` may answer a write of `value` under `key`.
    open spec fn puts(&self, key: Seq<u8>, value: Seq<u8>, r: Result<(), Error>) -> bool {
        true
    }

    /// Whether `r` may answer the removal of `key`.
    open spec fn deletes(&self, key: Seq<u8>, r: Result<(), Error>) -> bool {
        true
    }

    /// Whether `r` may answer a flush.
    open spec fn flushes(&self, r: Result<(), Error>) -> bool {
        true
    }

    fn get(&self, key: &[u8]) -> (r: Result<Option<Vec<u8>>, Error>)
        ensures
            self.gets(key@, r),
    ;

    fn put(&self, key: &[u8], value: &[u8]) -> (r: Result<(), Error>)
        ensures
            self.puts(key@, value@, r),
    ;

    fn delete(&self, key: &[u8]) -> (r: Result<(), Error>)
        ensures
            self.deletes(key@, r),
    ;

    fn flush(&self) -> (r: Result<(), Error>)
        ensures
            self.flushes(r),
    ;
}

/// The backend that the callouts are served from: it answers what the
/// backend it wraps answers.
pub struct DbInstance<D: Db> {
    db: D,
}

impl<D: Db> DbInstance<D> {
    /// The backend that is wrapped.
    pub closed spec fn inner(&self) -> D {
        self.db
    }

    pub fn new(db: D) -> (r: Self)
        ensures
            r.inner() == db,
    {
        Self { db }
    }

    /// The backend, for what is not asked through [`Db`].
    pub fn backend(&self) -> (r: &D)
        ensures
            *r == self.inner(),
    {
        &self.db
    }
}

impl<D: Db> Db for DbInstance<D> {
    open spec fn gets(&self, key: Seq<u8>, r: Result<Option<Vec<u8>>, Error>) -> bool {
        self.inner().gets(key, r)
    }

    open spec fn puts(&self, key: Seq<u8>, value: Seq<u8>, r: Result<(), Error>) -> bool {
        self.inner().puts(key, value, r)
    }

    open spec fn deletes(&self, key: Seq<u8>, r: Result<(), Error>) -> bool {
        self.inner().deletes(key, r)
    }

    open spec fn flushes(&self, r: Result<(), Error>) -> bool {
        self.inner().flushes(r)
    }

    fn get(&self, key: &[u8]) -> (r: Result<Option<Vec<u8>>, Error>) {
        self.db.get(key)
    }

    fn put(&self, key: &[u8], value: &[u8]) -> (r: Result<(), Error>) {
        self.db.put(key, value)
    }

    fn delete(&self, key: &[u8]) -> (r: Result<(), Error>) {
        self.db.delete(key)
    }

    fn flush(&self) -> (r: Result<(), Error>) {
        self.db.flush()
    }
}

} // verus!
