//! Addresses, as the `url` crate reads them.

use vstd::prelude::*;

verus! {

/// What `Url::parse` makes of a text: the scheme and the path of the address, or the text of
/// the error.
pub uninterp spec fn parsed_url(raw: Seq<char>) -> Result<(Seq<char>, Seq<char>), Seq<char>>;

/// Whether a text is an absolute address.
pub open spec fn is_url(raw: Seq<char>) -> bool {
    parsed_url(raw) is Ok
}

/// The parts of an address.
#[derive(Debug)]
pub struct Address {
    pub scheme: String,
    pub path: String,
}

/// `Url::parse`, with the `scheme` and the `path` of the address, or the text of the error.
#[verifier::external_body]
pub(crate) fn parse_url(raw: &str) -> (r: Result<Address, String>)
    ensures
        match r {
            Ok(a) => parsed_url(raw@) == Ok::<(Seq<char>, Seq<char>), Seq<char>>(
                (a.scheme@, a.path@),
            ),
            Err(e) => parsed_url(raw@) == Err::<(Seq<char>, Seq<char>), Seq<char>>(e@),
        },
{
    match url::Url::parse(raw) {
        Ok(u) => Ok(Address { scheme: u.scheme().to_string(), path: u.path().to_string() }),
        Err(e) => Err(e.to_string()),
    }
}

/// What `Url::to_file_path` makes of the address that a text is: the bytes of the path that it
/// leads to on the system that the program is built for, if it leads to one.
pub uninterp spec fn file_path(raw: Seq<char>) -> Option<Seq<u8>>;

/// `Url::parse` and `Url::to_file_path`: the path that the address of a file leads to, by its
/// bytes. There is none where the text is no address, or where the address leads to no path.
#[verifier::external_body]
pub(crate) fn local_path(raw: &str) -> (r: Option<Vec<u8>>)
    ensures
        match r {
            Some(path) => file_path(raw@) == Some(path@),
            None => file_path(raw@) is None,
        },
{
    let url = url::Url::parse(raw).ok()?;
    let path = url.to_file_path().ok()?;
    Some(path.into_os_string().into_encoded_bytes())
}

} // verus!
