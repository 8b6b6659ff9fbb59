//! Obtaining the reference schema for a run: a readable cache artifact is
//! taken verbatim and a remote fetch is only a fallback; a schema obtained
//! remotely is to be written back to the cache, best effort. Reading,
//! fetching and writing are the caller's; the choice between them is here.

use vstd::prelude::*;
use crate::node::Node;

verus! {

/// The fatal startup failure: no readable cache artifact and no parsable
/// remote schema.
#[derive(Debug, PartialEq, Eq, Structural)]
pub enum SchemaError {
    Unavailable,
}

/// Where the schema of a run came from.
#[derive(Debug, PartialEq, Eq, Structural)]
pub enum SchemaSource {
    /// Read from the local cache artifact, unchecked and unexpired.
    Cache,
    /// Fetched from the remote source; the caller should write it back to
    /// the cache, though a failure to do so is not fatal.
    Remote,
}

/// Settles which schema a run uses. A parsed cache artifact wins and is
/// returned verbatim; otherwise a parsed remote document is taken; with
/// neither, the run cannot start.
pub fn resolve_schema(cached: Option<Node>, fetched: Option<Node>) -> (r: Result<
    (Node, SchemaSource),
    SchemaError,
>)
    ensures
        cached matches Some(c) ==> r == Ok::<(Node, SchemaSource), SchemaError>(
            (c, SchemaSource::Cache),
        ),
        cached is None ==> (fetched matches Some(f) ==> r == Ok::<(Node, SchemaSource), SchemaError>(
            (f, SchemaSource::Remote),
        )),
        cached is None && fetched is None ==> r == Err::<(Node, SchemaSource), SchemaError>(
            SchemaError::Unavailable,
        ),
{
    match cached {
        Some(c) => Ok((c, SchemaSource::Cache)),
        None => match fetched {
            Some(f) => Ok((f, SchemaSource::Remote)),
            None => Err(SchemaError::Unavailable),
        },
    }
}

} // verus!
