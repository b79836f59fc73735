use vstd::prelude::*;

verus! {

/// The page size used when a listing query gives none.
pub const DEFAULT_LIMIT: i64 = 20;

pub fn default_limit() -> (r: i64)
    ensures
        r == DEFAULT_LIMIT,
{
    DEFAULT_LIMIT
}

/// The fields of a new catalogue entry.
#[derive(Debug, Clone)]
pub struct CreateBookRequest {
    pub title: String,
    pub author: String,
    pub isbn: String,
    pub description: String,
}

impl CreateBookRequest {
    pub open spec fn valid(&self) -> bool {
        self.title@.len() > 0 && self.author@.len() > 0 && self.isbn@.len() > 0
    }

    /// Title, author and ISBN must be non-empty; the description may be.
    pub fn is_valid(&self) -> (r: bool)
        ensures
            r == self.valid(),
    {
        !self.title.as_str().is_empty() && !self.author.as_str().is_empty()
            && !self.isbn.as_str().is_empty()
    }
}

/// Paging of a listing.
#[derive(Debug, Clone, Copy, PartialEq, Eq, Structural)]
pub struct BookListQuery {
    pub limit: i64,
    pub offset: i64,
}

impl BookListQuery {
    /// A query with the default page size, from the start.
    pub fn new_default() -> (r: BookListQuery)
        ensures
            r.limit == DEFAULT_LIMIT,
            r.offset == 0,
    {
        BookListQuery { limit: default_limit(), offset: 0 }
    }

    /// Neither the page size nor the offset may be negative.
    pub fn is_valid(&self) -> (r: bool)
        ensures
            r == (self.limit >= 0 && self.offset >= 0),
    {
        self.limit >= 0 && self.offset >= 0
    }
}

} // verus!
