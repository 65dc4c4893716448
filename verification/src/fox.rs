//! What is said to the inverter's cloud: the request for the state of
//! charge, the headers that sign a request, and the reading of its answer.

use md5::{Digest, Md5};
use vstd::prelude::*;
use crate::errors::FoxError;
use crate::text::{decimal, hex_of, push_decimal, to_hex};

verus! {

/// Access to the inverter's cloud.
#[derive(Clone, Debug, PartialEq, Eq)]
pub struct FoxESS {
    pub api_key: String,
    pub inverter_sn: String,
}

/// The request for the current state of charge.
#[derive(Clone, Debug, PartialEq, Eq)]
pub struct RequestCurrentSoc {
    pub sn: String,
    pub variables: Vec<String>,
}

/// The MD5 digest of some bytes.
pub uninterp spec fn md5_of(data: Seq<u8>) -> Seq<u8>;

/// `Md5::digest` of the crate md-5 computes the MD5 hash of the data; the
/// claim is that it is a function of the data alone and 16 bytes long.
#[verifier::external_body]
fn md5_digest(data: &[u8]) -> (digest: Vec<u8>)
    ensures
        digest@ == md5_of(data@),
        digest@.len() == 16,
{
    Md5::digest(data).to_vec()
}

/// What is signed: the path, the key and the time, each followed by a
/// backslash, `r`, backslash, `n`, but for the last.
pub open spec fn spec_signature_text(path: Seq<char>, api_key: Seq<char>, timestamp: int) -> Seq<char> {
    path + "\\r\\n"@ + api_key + "\\r\\n"@ + decimal(timestamp)
}

/// The signature of a request: the MD5 digest of what is signed, in
/// hexadecimal.
pub open spec fn spec_signature(path: Seq<char>, api_key: Seq<char>, timestamp: int) -> Seq<char> {
    hex_of(md5_of(vstd::utf8::encode_utf8(spec_signature_text(path, api_key, timestamp))))
}

/// The text that `errno` and `msg` of an answer are reported with.
pub open spec fn spec_response_text(errno: int, msg: Seq<char>) -> Seq<char> {
    "errno: "@ + decimal(errno) + ", msg: "@ + msg
}

/// What is signed for a request to `path` at `timestamp`.
pub fn signature_text(path: &str, api_key: &str, timestamp: i64) -> (text: String)
    ensures
        text@ == spec_signature_text(path@, api_key@, timestamp as int),
{
    let mut text = String::new();
    text.push_str(path);
    text.push_str("\\r\\n");
    text.push_str(api_key);
    text.push_str("\\r\\n");
    push_decimal(&mut text, timestamp);
    assert(text@ =~= spec_signature_text(path@, api_key@, timestamp as int));
    text
}

/// The signature of a request to `path` at `timestamp`: 32 hexadecimal digits.
pub fn signature(path: &str, api_key: &str, timestamp: i64) -> (signed: String)
    ensures
        signed@ == spec_signature(path@, api_key@, timestamp as int),
        signed@.len() == 32,
{
    let text = signature_text(path, api_key, timestamp);
    let digest = md5_digest(text.as_str().as_bytes());
    to_hex(&digest)
}

/// The headers that every request carries: the key, the time, the
/// signature and the language.
pub fn generate_headers(path: &str, api_key: &str, timestamp: i64) -> (headers: Vec<(String, String)>)
    ensures
        headers@.len() == 4,
        headers@[0].0@ == "token"@ && headers@[0].1@ == api_key@,
        headers@[1].0@ == "timestamp"@ && headers@[1].1@ == decimal(timestamp as int),
        headers@[2].0@ == "signature"@ && headers@[2].1@ == spec_signature(
            path@,
            api_key@,
            timestamp as int,
        ),
        headers@[3].0@ == "lang"@ && headers@[3].1@ == "en"@,
{
    let mut stamp = String::new();
    push_decimal(&mut stamp, timestamp);
    assert(stamp@ =~= decimal(timestamp as int));
    let mut headers: Vec<(String, String)> = Vec::new();
    headers.push(("token".to_owned(), api_key.to_owned()));
    headers.push(("timestamp".to_owned(), stamp));
    headers.push(("signature".to_owned(), signature(path, api_key, timestamp)));
    headers.push(("lang".to_owned(), "en".to_owned()));
    headers
}

/// The request for the state of charge of the inverter of `config`.
pub fn soc_request(config: &FoxESS) -> (request: RequestCurrentSoc)
    ensures
        request.sn@ == config.inverter_sn@,
        request.variables@.len() == 1,
        request.variables@[0]@ == "SoC"@,
{
    let mut variables: Vec<String> = Vec::new();
    variables.push("SoC".to_owned());
    RequestCurrentSoc { sn: config.inverter_sn.clone(), variables }
}

/// Reads the outcome of a request: an `errno` other than 0 is an error
/// that reports `errno` and `msg`.
pub fn check_response(errno: u32, msg: &str) -> (r: Result<(), FoxError>)
    ensures
        r is Ok <==> errno == 0,
        r is Err ==> match r->Err_0 {
            FoxError::PostRequestError(text) => text@ == spec_response_text(errno as int, msg@),
            _ => false,
        },
{
    if errno != 0 {
        let mut text = String::new();
        text.push_str("errno: ");
        push_decimal(&mut text, errno as i64);
        text.push_str(", msg: ");
        text.push_str(msg);
        assert(text@ =~= spec_response_text(errno as int, msg@));
        return Err(FoxError::PostRequestError(text));
    }
    Ok(())
}

} // verus!
