//! The location of a table: the `file:` URL of the directory that holds it.

use url::Url;
use vstd::prelude::*;

verus! {

#[verifier::external_type_specification]
#[verifier::external_body]
pub struct ExUrl(Url);

/// A table's location: the URL, kept together with its serialization, as
/// `url::Url::from_directory_path` made them (see `directory_table_url`).
pub struct TableUrl {
    url: Url,
    serialization: String,
}

impl View for TableUrl {
    type V = Seq<char>;

    /// The URL's serialization.
    closed spec fn view(&self) -> Seq<char> {
        self.serialization@
    }
}

impl TableUrl {
    /// The URL's serialization.
    pub fn as_str(&self) -> (s: &str)
        ensures
            s@ == self@,
    {
        self.serialization.as_str()
    }

    /// The URL itself.
    pub closed spec fn url(&self) -> Url {
        self.url
    }

    /// The URL itself, the one whose serialization is `self@`.
    pub fn into_url(self) -> (u: Url)
        ensures
            u == self.url(),
    {
        self.url
    }
}

/// Whether a path is absolute on a unix-like system: it starts at the root.
pub open spec fn is_absolute_path(path: Seq<char>) -> bool {
    path.len() > 0 && path[0] == '/'
}

/// The `file:` URL that `url::Url::from_directory_path` makes of an absolute
/// directory path, with its serialization (the path's components, percent-encoded).
pub uninterp spec fn directory_table_url(path: Seq<char>) -> TableUrl;

/// The serialization of the `file:` URL of an absolute directory path.
pub open spec fn directory_file_url(path: Seq<char>) -> Seq<char> {
    directory_table_url(path)@
}

/// The scheme and empty host that begin every `file:` URL.
pub open spec fn file_url_prefix() -> Seq<char> {
    seq!['f', 'i', 'l', 'e', ':', '/', '/']
}

/// Calls `url::Url::from_directory_path` on `path`, and keeps the URL with its
/// serialization (`Url::as_str`).
///
/// Claimed of it, as its source shows on unix-like systems: it succeeds exactly on
/// absolute paths; the URL it makes depends on the path alone, starts with
/// `file://` and ends with `/`. How the path's components are percent-encoded is
/// not stated: the result, URL and text together, is named by `directory_table_url`.
/// That the kept string is the URL's own serialization rests on `Url::as_str`.
#[verifier::external_body]
fn url_from_directory_path(path: &str) -> (r: Option<TableUrl>)
    ensures
        r is Some <==> is_absolute_path(path@),
        r matches Some(u) ==> {
            &&& u == directory_table_url(path@)
            &&& u@.len() > file_url_prefix().len()
            &&& u@.take(7) == file_url_prefix()
            &&& u@.last() == '/'
        },
{
    match Url::from_directory_path(path) {
        Ok(url) => {
            let serialization = String::from(url.as_str());
            Some(TableUrl { url, serialization })
        },
        Err(()) => None,
    }
}

/// The URL of the table in the directory `path`, which the caller has already made
/// canonical; `None` where the path is not absolute. The URL ends with `/`, so that
/// the whole directory is taken as the base of the table's files.
pub fn parse_path_as_url(path: &str) -> (r: Option<TableUrl>)
    ensures
        r is Some <==> is_absolute_path(path@),
        r matches Some(u) ==> {
            &&& u == directory_table_url(path@)
            &&& u@ == directory_file_url(path@)
            &&& u@.take(7) == file_url_prefix()
            &&& u@.last() == '/'
        },
{
    url_from_directory_path(path)
}

} // verus!
