use std::str::Utf8Error;
use vstd::prelude::*;
use vstd::string::StringSliceAdditionalSpecFns;
use vstd::utf8::valid_utf8;

verus! {

/// The SHA-256 digest of the UTF-8 encoding of `text`, written as lower-case
/// hexadecimal digits.
pub uninterp spec fn sha256_hex(text: Seq<char>) -> Seq<char>;

/// Calls `sha256::digest` on a string slice. The crate hashes the bytes of the
/// slice with SHA-256 and encodes the 32 bytes of the digest with
/// `hex::encode`, two digits for each byte. The contract names that result
/// and gives its length; it claims nothing else of it.
#[verifier::external_body]
pub(crate) fn sha256_digest(text: &str) -> (hash: String)
    ensures
        hash@ == sha256_hex(text@),
        hash@.len() == 64,
{
    sha256::digest(text)
}

/// `std::str::Utf8Error`, the error of bytes that are not valid UTF-8.
#[verifier::external_type_specification]
#[verifier::external_body]
pub struct ExUtf8Error(Utf8Error);

/// `std::str::from_utf8` accepts exactly the byte sequences that are valid
/// UTF-8, and the string slice that it then gives is made of those bytes.
pub assume_specification[ std::str::from_utf8 ](bytes: &[u8]) -> (text: Result<&str, Utf8Error>)
    ensures
        text is Ok <==> valid_utf8(bytes@),
        text matches Ok(s) ==> s.spec_bytes() == bytes@,
;

} // verus!
