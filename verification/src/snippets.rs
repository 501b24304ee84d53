//! The requests and answers of the snippet endpoints, and the decisions of
//! their handlers that need no storage.

use crate::auth::Rejection;
use vstd::prelude::*;

verus! {

/// The body of a request that creates a snippet.
#[derive(Clone, Debug, PartialEq, Eq)]
pub struct CreateSnippetRequest {
    pub title: String,
    pub code: String,
}

/// The body of a request that replaces a snippet's title and code.
#[derive(Clone, Debug, PartialEq, Eq)]
pub struct UpdateSnippetRequest {
    pub title: String,
    pub code: String,
}

/// The body of a request that changes some of a snippet's fields.
#[derive(Clone, Debug, PartialEq, Eq)]
pub struct PatchSnippetRequest {
    pub title: Option<String>,
    pub code: Option<String>,
}

/// The answer to the creation of a snippet.
#[derive(Clone, Debug, PartialEq, Eq)]
pub struct CreateSnippetResponse {
    pub id: String,
}

impl PatchSnippetRequest {
    /// The title and code of a snippet after the patch: each field the patch
    /// names is replaced, each other one kept.
    pub fn apply(self, title: String, code: String) -> (patched: (String, String))
        ensures
            patched.0 == match self.title {
                Some(new_title) => new_title,
                None => title,
            },
            patched.1 == match self.code {
                Some(new_code) => new_code,
                None => code,
            },
    {
        let title = match self.title {
            Some(new_title) => new_title,
            None => title,
        };
        let code = match self.code {
            Some(new_code) => new_code,
            None => code,
        };
        (title, code)
    }
}

/// Decides a lookup: the row, or the rejection for a snippet that is not
/// there or not the caller's.
pub fn found<T>(row: Option<T>) -> (snippet: Result<T, Rejection>)
    ensures
        match row {
            Some(value) => snippet == Ok::<T, Rejection>(value),
            None => snippet matches Err(Rejection::SnippetNotFound),
        },
{
    match row {
        Some(value) => Ok(value),
        None => Err(Rejection::SnippetNotFound),
    }
}

/// Decides an update or a deletion by the number of rows it changed: none
/// means that no snippet of that identifier belongs to the caller.
pub fn changed(rows_affected: u64) -> (done: Result<(), Rejection>)
    ensures
        rows_affected == 0 ==> done matches Err(Rejection::SnippetUntouched),
        rows_affected != 0 ==> done is Ok,
{
    if rows_affected == 0 {
        Err(Rejection::SnippetUntouched)
    } else {
        Ok(())
    }
}

} // verus!
