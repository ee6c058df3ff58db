use vstd::prelude::*;
use vstd::string::StringSliceAdditionalSpecFns;

use crate::drm::ioctl::drm::CLIENT_NAME_MAX_LEN;

verus! {

/// A name for a DRM file: at most `CLIENT_NAME_MAX_LEN` bytes, each of them
/// visible ASCII (no space).
#[derive(Debug, Clone, Copy, PartialEq, Eq, PartialOrd, Ord, Hash)]
pub struct ClientName<'a>(&'a [u8]);

#[derive(Debug, PartialEq, Eq, Structural)]
pub enum ClientNameError {
    TooLong(usize),
    InvalidCharacterAt(usize),
}

/// `b` is a visible ASCII character other than space.
pub open spec fn is_ascii_graphic(b: u8) -> bool {
    0x21 <= b <= 0x7e
}

pub open spec fn is_client_name(bytes: Seq<u8>) -> bool {
    &&& bytes.len() <= CLIENT_NAME_MAX_LEN
    &&& forall|i: int| 0 <= i < bytes.len() ==> is_ascii_graphic(#[trigger] bytes[i])
}

/// A text is a client name exactly when it has at most 64 bytes, each a
/// visible ASCII character from `!` (0x21) to `~` (0x7e): letters of both
/// cases, digits and punctuation, but no space, control or non-ASCII byte.
pub proof fn lemma_client_names(bytes: Seq<u8>)
    ensures
        is_client_name(bytes) <==> bytes.len() <= 64 && forall|i: int|
            0 <= i < bytes.len() ==> 0x21 <= #[trigger] bytes[i] <= 0x7e,
{
}

/// The error that refusing `bytes` as a client name reports.
pub open spec fn client_name_error(bytes: Seq<u8>, e: ClientNameError) -> bool {
    match e {
        ClientNameError::TooLong(len) => bytes.len() > CLIENT_NAME_MAX_LEN && len == bytes.len(),
        ClientNameError::InvalidCharacterAt(i) => {
            &&& bytes.len() <= CLIENT_NAME_MAX_LEN
            &&& i < bytes.len()
            &&& !is_ascii_graphic(bytes[i as int])
            &&& forall|j: int| 0 <= j < i ==> is_ascii_graphic(#[trigger] bytes[j])
        },
    }
}

impl<'a> View for ClientName<'a> {
    type V = Seq<u8>;

    closed spec fn view(&self) -> Seq<u8> {
        self.0@
    }
}

fn first_non_graphic(bytes: &[u8]) -> (r: Option<usize>)
    ensures
        r is None ==> forall|i: int| 0 <= i < bytes@.len() ==> is_ascii_graphic(#[trigger] bytes@[i]),
        r matches Some(i) ==> i < bytes@.len() && !is_ascii_graphic(bytes@[i as int]) && forall|j: int|
            0 <= j < i ==> is_ascii_graphic(#[trigger] bytes@[j]),
{
    let len = bytes.len();
    let mut idx: usize = 0;
    while idx < len
        invariant
            len == bytes@.len(),
            idx <= len,
            forall|j: int| 0 <= j < idx ==> is_ascii_graphic(#[trigger] bytes@[j]),
        decreases len - idx,
    {
        let b = bytes[idx];
        if !(0x21 <= b && b <= 0x7e) {
            return Some(idx);
        }
        idx += 1;
    }
    None
}

impl<'a> ClientName<'a> {
    /// The name `s`, which must pass validation.
    pub fn new(s: &'a str) -> (r: Self)
        requires
            is_client_name(s.spec_bytes()),
        ensures
            r@ == s.spec_bytes(),
    {
        ClientName(s.as_bytes())
    }

    /// The name `value`, or why it cannot be one: too long, or the first
    /// character that is not visible ASCII.
    pub fn try_from(value: &'a str) -> (r: Result<Self, ClientNameError>)
        ensures
            is_client_name(value.spec_bytes()) <==> r is Ok,
            r matches Ok(n) ==> n@ == value.spec_bytes(),
            r matches Err(e) ==> client_name_error(value.spec_bytes(), e),
    {
        let bytes = value.as_bytes();
        let len = bytes.len();
        if len > CLIENT_NAME_MAX_LEN {
            return Err(ClientNameError::TooLong(len));
        }
        match first_non_graphic(bytes) {
            Some(idx) => Err(ClientNameError::InvalidCharacterAt(idx)),
            None => Ok(ClientName(bytes)),
        }
    }

    /// The bytes of the name.
    pub fn as_bytes(&self) -> (r: &'a [u8])
        ensures
            r@ == self@,
    {
        self.0
    }
}

} // verus!
