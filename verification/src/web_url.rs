//! Parsed web addresses, known to the proofs by their text.
use vstd::prelude::*;

verus! {

#[verifier::external_type_specification]
#[verifier::external_body]
pub struct ExUrl(url::Url);

/// The text (`as_str`) of the URL that `url::Url::parse` makes of `input`, or `None`
/// when it refuses `input`.
pub uninterp spec fn parsed_url(input: Seq<char>) -> Option<Seq<char>>;

/// The text of the URL that `url::Url::join` makes of `input` taken relative to the
/// URL whose text is `base`, or `None` when it refuses.
pub uninterp spec fn joined_url(base: Seq<char>, input: Seq<char>) -> Option<Seq<char>>;

/// The path (`url::Url::path`) of the URL whose text is `text`.
pub uninterp spec fn url_path(text: Seq<char>) -> Seq<char>;

/// The text of the URL whose text is `text` after `url::Url::set_query` was given
/// `Some(query)`.
pub uninterp spec fn queried_url(text: Seq<char>, query: Seq<char>) -> Seq<char>;

/// `url::Url::parse`: succeeds exactly when the named result is some text; the
/// error is handed back as its text.
#[verifier::external_body]
fn url_parse(input: &str) -> (r: Result<url::Url, String>)
    ensures
        r is Ok <==> parsed_url(input@) is Some,
{
    url::Url::parse(input).map_err(|e| e.to_string())
}

/// `url::Url::join`: succeeds exactly when the named result is some text; the
/// error is handed back as its text.
#[verifier::external_body]
fn url_join(base: &WebUrl, input: &str) -> (r: Result<url::Url, String>)
    ensures
        r is Ok <==> joined_url(base@, input@) is Some,
{
    base.url.join(input).map_err(|e| e.to_string())
}

/// `url::Url::as_str`: the text of the URL, which is the text it was made with
/// (a `WebUrl` is only made from the result of a parse or a join).
#[verifier::external_body]
fn url_text(u: &WebUrl) -> (s: &str)
    ensures
        s@ == u@,
{
    u.url.as_str()
}

/// `url::Url::path`: the path of the URL, as named.
#[verifier::external_body]
fn url_path_text(u: &WebUrl) -> (s: &str)
    ensures
        s@ == url_path(u@),
{
    u.url.path()
}

/// `url::Url::set_query` with `Some(query)`: the URL's text becomes the named one.
#[verifier::external_body]
fn url_set_query(u: &mut WebUrl, query: &str)
    ensures
        final(u)@ == queried_url(old(u)@, query@),
{
    u.url.set_query(Some(query))
}

/// A parsed URL.
pub struct WebUrl {
    url: url::Url,
    text: Ghost<Seq<char>>,
}

impl View for WebUrl {
    type V = Seq<char>;

    closed spec fn view(&self) -> Seq<char> {
        self.text@
    }
}

impl WebUrl {
    /// Parses `input` as an absolute URL; the error is the parser's text.
    pub fn parse(input: &str) -> (r: Result<WebUrl, String>)
        ensures
            match parsed_url(input@) {
                Some(text) => r matches Ok(u) && u@ == text,
                None => r is Err,
            },
    {
        match url_parse(input) {
            Ok(url) => Ok(WebUrl { url, text: Ghost(parsed_url(input@)->0) }),
            Err(e) => Err(e),
        }
    }

    /// `input` taken relative to this URL; the error is the parser's text.
    pub fn join(&self, input: &str) -> (r: Result<WebUrl, String>)
        ensures
            match joined_url(self@, input@) {
                Some(text) => r matches Ok(u) && u@ == text,
                None => r is Err,
            },
    {
        match url_join(self, input) {
            Ok(url) => Ok(WebUrl { url, text: Ghost(joined_url(self@, input@)->0) }),
            Err(e) => Err(e),
        }
    }

    /// The path of the URL.
    pub fn path(&self) -> (s: &str)
        ensures
            s@ == url_path(self@),
    {
        url_path_text(self)
    }

    /// Sets the query of the URL to `query`.
    pub fn set_query(&mut self, query: &str)
        ensures
            final(self)@ == queried_url(old(self)@, query@),
    {
        url_set_query(self, query)
    }

    /// The text of the URL.
    pub fn as_str(&self) -> (s: &str)
        ensures
            s@ == self@,
    {
        url_text(self)
    }
}

} // verus!
