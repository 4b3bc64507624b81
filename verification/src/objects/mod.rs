//! Data objects of the backend and the rules attached to them.
use vstd::prelude::*;
use vstd::string::*;

use crate::error::Error;

pub mod channel;
pub mod guild;
pub mod invite;
pub mod links;
pub mod mail;
pub mod me;
pub mod member;
pub mod password_reset_token;
pub mod role;
pub mod signature;
pub mod storage;

verus! {

/// An object that is identified by a uuid (held as its 128-bit value).
pub trait HasUuid {
    /// The uuid of the object.
    spec fn uuid_of(&self) -> u128;

    fn uuid(&self) -> (r: u128)
        ensures
            r == self.uuid_of(),
    ;
}

/// An object that sits in an ordered list by naming the object directly below it.
pub trait HasIsAbove {
    /// The uuid of the object directly below this one, if any.
    spec fn is_above_of(&self) -> Option<u128>;

    fn is_above(&self) -> (r: Option<u128>)
        ensures
            r == self.is_above_of(),
    ;
}


/// A query that found no rows yields no rows; any other failure stays a failure.
pub fn load_or_empty<T>(query_result: Result<Vec<T>, Error>) -> (r: Result<Vec<T>, Error>)
    ensures
        match query_result {
            Ok(v) => r == Ok::<Vec<T>, Error>(v),
            Err(Error::SqlError { not_found: true, .. }) => r matches Ok(v) && v@.len() == 0,
            Err(e) => r == Err::<Vec<T>, Error>(e),
        },
{
    match query_result {
        Ok(vec) => Ok(vec),
        Err(Error::SqlError { not_found: true, .. }) => Ok(Vec::new()),
        Err(e) => Err(e),
    }
}

/// One page of a listing.
pub struct Pagination<T> {
    objects: Vec<T>,
    amount: i32,
    pages: i32,
    page: i32,
}

impl<T> Pagination<T> {
    /// A page holding `objects`, page number `page` of `pages`; its amount is the
    /// number of objects on it.
    pub fn new(objects: Vec<T>, pages: i32, page: i32) -> (p: Self)
        ensures
            p.objects() == objects@,
            p.amount_of() == objects@.len() as i32,
            p.pages_of() == pages,
            p.page_of() == page,
    {
        let amount = objects.len() as i32;
        Pagination { objects, amount, pages, page }
    }

    pub closed spec fn objects(&self) -> Seq<T> {
        self.objects@
    }

    pub closed spec fn amount_of(&self) -> i32 {
        self.amount
    }

    pub closed spec fn pages_of(&self) -> i32 {
        self.pages
    }

    pub closed spec fn page_of(&self) -> i32 {
        self.page
    }

    /// The objects, the amount, the number of pages and the page number.
    pub fn into_parts(self) -> (r: (Vec<T>, i32, i32, i32))
        ensures
            r.0@ == self.objects(),
            r.1 == self.amount_of(),
            r.2 == self.pages_of(),
            r.3 == self.page_of(),
    {
        (self.objects, self.amount, self.pages, self.page)
    }
}

/// The page a listing request asks for, and how many objects a page holds.
#[derive(Debug, Clone, Copy)]
pub struct PaginationRequest {
    pub page: i32,
    pub per_page: Option<i32>,
}

/// Where a listing starts and how many objects it holds.
#[derive(Debug, Clone, Copy)]
pub struct StartAmountQuery {
    pub start: Option<i64>,
    pub amount: Option<i64>,
}

/// How mail is sent to the SMTP server.
#[derive(PartialEq, Eq, Structural, Clone, Copy, Debug)]
pub enum MailTls {
    StartTls,
    Tls,
}

/// The text `str::to_lowercase` makes of `s`.
pub uninterp spec fn lowercased(s: Seq<char>) -> Seq<char>;

/// `str::to_lowercase`: claims that the result is the named lower-case text.
#[verifier::external_body]
pub(crate) fn to_lowercase(s: &str) -> (r: String)
    ensures
        r@ == lowercased(s@),
{
    s.to_lowercase()
}

impl From<String> for MailTls {
    /// "starttls" in any case means STARTTLS; anything else means TLS.
    fn from(value: String) -> (r: Self) {
        let lower = to_lowercase(value.as_str());
        if lower == String::from_str("starttls") {
            Self::StartTls
        } else {
            Self::Tls
        }
    }
}

impl vstd::std_specs::convert::FromSpecImpl<String> for MailTls {
    open spec fn obeys_from_spec() -> bool {
        true
    }

    open spec fn from_spec(v: String) -> MailTls {
        if lowercased(v@) == "starttls"@ {
            MailTls::StartTls
        } else {
            MailTls::Tls
        }
    }
}

} // verus!
