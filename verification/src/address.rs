//! URLs as plain values.

use vstd::prelude::*;

use crate::text::view_option;

verus! {

/// A parsed URL: its serialization and the parts that the client's rules look
/// at.
#[derive(Debug)]
pub struct Url {
    pub text: String,
    pub scheme: String,
    pub username: String,
    pub password: Option<String>,
    pub host: Option<String>,
    pub path: String,
    pub query: Option<String>,
    pub fragment: Option<String>,
}

#[verifier::ext_equal]
pub struct UrlView {
    pub text: Seq<char>,
    pub scheme: Seq<char>,
    pub username: Seq<char>,
    pub password: Option<Seq<char>>,
    pub host: Option<Seq<char>>,
    pub path: Seq<char>,
    pub query: Option<Seq<char>>,
    pub fragment: Option<Seq<char>>,
}

impl View for Url {
    type V = UrlView;

    open spec fn view(&self) -> UrlView {
        UrlView {
            text: self.text@,
            scheme: self.scheme@,
            username: self.username@,
            password: view_option(self.password),
            host: view_option(self.host),
            path: self.path@,
            query: view_option(self.query),
            fragment: view_option(self.fragment),
        }
    }
}

pub open spec fn view_url(url: Option<Url>) -> Option<UrlView> {
    match url {
        Some(url) => Some(url@),
        None => None,
    }
}

/// The URL that the text stands for, if it stands for one.
pub uninterp spec fn parsed_url(text: Seq<char>) -> Option<UrlView>;

/// The URL with its path replaced, if the text is a URL.
pub uninterp spec fn url_with_path(text: Seq<char>, path: Seq<char>) -> Option<Seq<char>>;

/// The URL that a relative reference stands for under a base, or what is wrong
/// with it.
pub uninterp spec fn joined_url(base: Seq<char>, relative: Seq<char>) -> Result<
    Seq<char>,
    Seq<char>,
>;

/// The URL with two pairs appended to its query, if the text is a URL.
pub uninterp spec fn url_with_pairs(
    text: Seq<char>,
    first: (Seq<char>, Seq<char>),
    second: (Seq<char>, Seq<char>),
) -> Option<Seq<char>>;

/// `url::Url::parse` and the accessors of its result: a function of the text,
/// `None` where it reports an error.
#[verifier::external_body]
fn parse_url(text: &str) -> (r: Option<Url>)
    ensures
        match r {
            Some(url) => parsed_url(text@) == Some(url@),
            None => parsed_url(text@) is None,
        },
{
    let url = url::Url::parse(text).ok()?;
    Some(Url {
        text: url.as_str().to_owned(),
        scheme: url.scheme().to_owned(),
        username: url.username().to_owned(),
        password: url.password().map(str::to_owned),
        host: url.host_str().map(str::to_owned),
        path: url.path().to_owned(),
        query: url.query().map(str::to_owned),
        fragment: url.fragment().map(str::to_owned),
    })
}

/// `url::Url::set_path` on a parsed text: a function of the two texts, `None`
/// where the first is no URL. It panics on a URL of four gigabytes, which the
/// bound on the lengths rules out.
#[verifier::external_body]
pub(crate) fn replace_path(text: &str, path: &str) -> (r: Option<String>)
    requires
        text@.len() <= 0x0400_0000,
        path@.len() <= 0x0400_0000,
    ensures
        match r {
            Some(url) => url_with_path(text@, path@) == Some(url@),
            None => url_with_path(text@, path@) is None,
        },
{
    let mut url = url::Url::parse(text).ok()?;
    url.set_path(path);
    Some(String::from(url))
}

/// `url::Url::join` on a parsed base: a function of the two texts, with the
/// parser's message where one of them is refused.
#[verifier::external_body]
pub(crate) fn join_url(base: &str, relative: &str) -> (r: Result<String, String>)
    ensures
        match r {
            Ok(url) => joined_url(base@, relative@) == Ok::<Seq<char>, Seq<char>>(url@),
            Err(message) => joined_url(base@, relative@) == Err::<Seq<char>, Seq<char>>(message@),
        },
{
    let joined = url::Url::parse(base).and_then(|url| url.join(relative));
    joined.map(String::from).map_err(|error| error.to_string())
}

/// `append_pair` of `url::Url::query_pairs_mut` on a parsed text, twice: a
/// function of the texts, `None` where the first is no URL. It panics on a URL
/// of four gigabytes, which the bound on the lengths rules out.
#[verifier::external_body]
pub(crate) fn append_query_pairs(text: &str, first: (&str, &str), second: (&str, &str)) -> (r:
    Option<String>)
    requires
        text@.len() <= 0x0100_0000,
        first.0@.len() <= 0x0100_0000,
        first.1@.len() <= 0x0100_0000,
        second.0@.len() <= 0x0100_0000,
        second.1@.len() <= 0x0100_0000,
    ensures
        match r {
            Some(url) => url_with_pairs(
                text@,
                (first.0@, first.1@),
                (second.0@, second.1@),
            ) == Some(url@),
            None => url_with_pairs(
                text@,
                (first.0@, first.1@),
                (second.0@, second.1@),
            ) is None,
        },
{
    let mut url = url::Url::parse(text).ok()?;
    url.query_pairs_mut().append_pair(first.0, first.1).append_pair(second.0, second.1);
    Some(String::from(url))
}

impl Url {
    /// The URL that the text stands for, if it stands for one.
    pub fn parse(text: &str) -> (r: Option<Url>)
        ensures
            match r {
                Some(url) => parsed_url(text@) == Some(url@),
                None => parsed_url(text@) is None,
            },
    {
        parse_url(text)
    }

    pub fn as_str(&self) -> (r: &str)
        ensures
            r@ == self@.text,
    {
        self.text.as_str()
    }
}

impl Clone for Url {
    fn clone(&self) -> (r: Url)
        ensures
            r == *self,
    {
        Url {
            text: self.text.clone(),
            scheme: self.scheme.clone(),
            username: self.username.clone(),
            password: self.password.clone(),
            host: self.host.clone(),
            path: self.path.clone(),
            query: self.query.clone(),
            fragment: self.fragment.clone(),
        }
    }
}

} // verus!
