//! Request signatures for the venues that ask for one. The hash, the
//! message authentication codes and the text encodings come from the
//! `sha2`, `hmac`, `base64` and `hex` crates; what is signed and how the
//! pieces are put together is decided here.
use vstd::prelude::*;
use vstd::string::StringExecFns;
use vstd::utf8::encode_utf8;
use base64::Engine;
use hmac::Mac;
use sha2::Digest;
use crate::errors::OrderPlaceError;

verus! {

/// The error of `base64`'s decoders.
#[verifier::external_type_specification]
#[verifier::external_body]
pub struct ExDecodeError(base64::DecodeError);

/// The error `hmac` reserves for a key of a length it cannot take.
#[verifier::external_type_specification]
#[verifier::external_body]
pub struct ExInvalidLength(hmac::digest::InvalidLength);

/// The SHA-256 digest of `data`, as `sha2` computes it.
pub uninterp spec fn sha256_digest(data: Seq<u8>) -> Seq<u8>;

/// The HMAC-SHA-512 code of `message` under `key`, as `hmac` computes it.
pub uninterp spec fn hmac_sha512_code(key: Seq<u8>, message: Seq<u8>) -> Seq<u8>;

/// The HMAC-SHA-256 code of `message` under `key`, as `hmac` computes it.
pub uninterp spec fn hmac_sha256_code(key: Seq<u8>, message: Seq<u8>) -> Seq<u8>;

/// What `base64`'s standard engine decodes `input` to: the bytes, or the
/// reason why `input` is no padded standard-alphabet text.
pub uninterp spec fn base64_decoding(input: Seq<char>) -> Result<Seq<u8>, base64::DecodeError>;

/// The padded standard-alphabet text that `base64`'s standard engine
/// encodes `bytes` to.
pub uninterp spec fn base64_encoding(bytes: Seq<u8>) -> Seq<char>;

/// The lowercase hexadecimal digit of a value below sixteen.
pub open spec fn hex_digit(d: u8) -> char {
    if d < 10 {
        (48u8 + d) as char
    } else {
        (87u8 + d) as char
    }
}

/// Two lowercase hexadecimal digits per byte, high digit first.
pub open spec fn hex_lower(bytes: Seq<u8>) -> Seq<char> {
    Seq::new(
        2 * bytes.len(),
        |i: int|
            if i % 2 == 0 {
                hex_digit(bytes[i / 2] / 16)
            } else {
                hex_digit(bytes[i / 2] % 16)
            },
    )
}

/// The decimal digits of `n`, without leading zeros.
pub open spec fn decimal(n: nat) -> Seq<char>
    decreases n,
{
    if n < 10 {
        seq![(48u8 + n as u8) as char]
    } else {
        decimal(n / 10).push((48u8 + (n % 10) as u8) as char)
    }
}

/// `sha2::Sha256::digest`: the SHA-256 digest of `data`, which depends
/// on `data` alone.
#[verifier::external_body]
fn sha256(data: &[u8]) -> (digest: Vec<u8>)
    ensures
        digest@ == sha256_digest(data@),
{
    sha2::Sha256::digest(data).to_vec()
}

/// `hmac::Hmac::<sha2::Sha512>`, keyed with `new_from_slice`, fed with
/// `chain_update` and read with `finalize`: the code of `message` under `key`,
/// 64 bytes long. The crate takes a key of any length, so the call
/// succeeds.
#[verifier::external_body]
fn hmac_sha512(key: &[u8], message: &[u8]) -> (r: Result<Vec<u8>, hmac::digest::InvalidLength>)
    ensures
        r is Ok,
        r matches Ok(code) ==> code@ == hmac_sha512_code(key@, message@) && code@.len() == 64,
{
    let mac = hmac::Hmac::<sha2::Sha512>::new_from_slice(key)?;
    Ok(mac.chain_update(message).finalize().into_bytes().to_vec())
}

/// `hmac::Hmac::<sha2::Sha256>`, keyed with `new_from_slice`, fed with
/// `chain_update` and read with `finalize`: the code of `message` under
/// `key`. The crate takes a key of any length, so the call succeeds.
#[verifier::external_body]
fn hmac_sha256(key: &[u8], message: &[u8]) -> (r: Result<Vec<u8>, hmac::digest::InvalidLength>)
    ensures
        r is Ok,
        r matches Ok(code) ==> code@ == hmac_sha256_code(key@, message@),
{
    let mac = hmac::Hmac::<sha2::Sha256>::new_from_slice(key)?;
    Ok(mac.chain_update(message).finalize().into_bytes().to_vec())
}

/// `base64::engine::general_purpose::STANDARD.decode`: the decoded bytes
/// or the decoder's error, either of which depends on `input` alone.
#[verifier::external_body]
fn base64_decode(input: &str) -> (r: Result<Vec<u8>, base64::DecodeError>)
    ensures
        match r {
            Ok(bytes) => base64_decoding(input@) == Ok::<Seq<u8>, base64::DecodeError>(bytes@),
            Err(e) => base64_decoding(input@) == Err::<Seq<u8>, base64::DecodeError>(e),
        },
{
    base64::engine::general_purpose::STANDARD.decode(input)
}

/// `base64::engine::general_purpose::STANDARD.encode`: the encoded text,
/// which depends on `bytes` alone. The crate gives up on an input whose
/// encoded length does not fit the machine word; such inputs are left out.
#[verifier::external_body]
fn base64_encode(bytes: &[u8]) -> (text: String)
    requires
        bytes@.len() <= 0x3fff_ffff,
    ensures
        text@ == base64_encoding(bytes@),
{
    base64::engine::general_purpose::STANDARD.encode(bytes)
}

/// `hex::encode`: two lowercase hexadecimal digits for each byte.
#[verifier::external_body]
fn hex_encode(bytes: &[u8]) -> (text: String)
    ensures
        text@ == hex_lower(bytes@),
{
    hex::encode(bytes)
}

/// The decimal digit of a value below ten, as text.
fn digit_text(d: u64) -> (text: &'static str)
    requires
        d < 10,
    ensures
        text@ == seq![(48u8 + d as u8) as char],
{
    proof {
        reveal_strlit("0");
        reveal_strlit("1");
        reveal_strlit("2");
        reveal_strlit("3");
        reveal_strlit("4");
        reveal_strlit("5");
        reveal_strlit("6");
        reveal_strlit("7");
        reveal_strlit("8");
        reveal_strlit("9");
    }
    let text = match d {
        0 => "0",
        1 => "1",
        2 => "2",
        3 => "3",
        4 => "4",
        5 => "5",
        6 => "6",
        7 => "7",
        8 => "8",
        _ => "9",
    };
    proof {
        assert(text@ =~= seq![(48u8 + d as u8) as char]);
    }
    text
}

/// The number in decimal digits.
fn u64_to_string(n: u64) -> (text: String)
    ensures
        text@ == decimal(n as nat),
    decreases n,
{
    if n < 10 {
        digit_text(n).to_string()
    } else {
        let text = u64_to_string(n / 10).concat(digit_text(n % 10));
        proof {
            assert(text@ =~= decimal(n as nat));
        }
        text
    }
}

/// Appends the bytes of `from` to `out`.
fn append_bytes(out: &mut Vec<u8>, from: &[u8])
    ensures
        final(out)@ == old(out)@ + from@,
{
    let mut i: usize = 0;
    while i < from.len()
        invariant
            i <= from.len(),
            out@ == old(out)@ + from@.take(i as int),
        decreases from.len() - i,
    {
        out.push(from[i]);
        proof {
            assert(from@.take(i as int + 1) =~= from@.take(i as int).push(from@[i as int]));
        }
        i = i + 1;
    }
    proof {
        assert(from@.take(from.len() as int) =~= from@);
    }
}

/// The bytes Kraken's signature authenticates: the request path followed
/// by the SHA-256 digest of the nonce and the posted data.
pub open spec fn kraken_message(path: Seq<char>, nonce: Seq<char>, post_data: Seq<char>) -> Seq<
    u8,
> {
    encode_utf8(path) + sha256_digest(encode_utf8(nonce) + encode_utf8(post_data))
}

/// The result of signing for Kraken, given what the secret decodes to: the
/// decoder's error where the secret is no base64 text, else the base64
/// text of the HMAC-SHA-512 code of [`kraken_message`] under the decoded
/// secret.
pub open spec fn kraken_signature(
    path: Seq<char>,
    nonce: Seq<char>,
    post_data: Seq<char>,
    secret: Result<Seq<u8>, base64::DecodeError>,
) -> Result<Seq<char>, base64::DecodeError> {
    match secret {
        Ok(key) => Ok(base64_encoding(hmac_sha512_code(key, kraken_message(path, nonce, post_data)))),
        Err(e) => Err(e),
    }
}

/// Finishes Kraken's signature from the decoded secret and the message:
/// the base64 text of the message's HMAC-SHA-512 code under the secret,
/// or the decoder's error passed on as `Base64Decode`.
pub fn seal_request(secret: Result<Vec<u8>, base64::DecodeError>, message: &[u8]) -> (r: Result<
    String,
    OrderPlaceError,
>)
    ensures
        match secret {
            Ok(key) => r matches Ok(text) && text@ == base64_encoding(
                hmac_sha512_code(key@, message@),
            ),
            Err(e) => r == Err::<String, OrderPlaceError>(OrderPlaceError::Base64Decode(e)),
        },
{
    match secret {
        Err(e) => Err(OrderPlaceError::Base64Decode(e)),
        Ok(key) => match hmac_sha512(key.as_slice(), message) {
            Ok(code) => Ok(base64_encode(code.as_slice())),
            Err(_) => Err(
                OrderPlaceError::HmacError("Failed to create HMAC SHA512 instance".to_string()),
            ),
        },
    }
}

/// Signs a private Kraken request: the API secret, which is base64 text,
/// keys an HMAC-SHA-512 over the request path and the SHA-256 digest of
/// nonce and posted data; the code is returned as base64 text. Fails with
/// `Base64Decode` exactly when the secret does not decode.
pub fn sign_request(path: &str, nonce: &str, post_data: &str, api_secret: &str) -> (r: Result<
    String,
    OrderPlaceError,
>)
    ensures
        match kraken_signature(path@, nonce@, post_data@, base64_decoding(api_secret@)) {
            Ok(text) => r matches Ok(signature) && signature@ == text,
            Err(e) => r == Err::<String, OrderPlaceError>(OrderPlaceError::Base64Decode(e)),
        },
{
    let mut hashed: Vec<u8> = Vec::new();
    append_bytes(&mut hashed, nonce.as_bytes());
    append_bytes(&mut hashed, post_data.as_bytes());
    let digest = sha256(hashed.as_slice());
    let mut message: Vec<u8> = Vec::new();
    append_bytes(&mut message, path.as_bytes());
    append_bytes(&mut message, digest.as_slice());
    proof {
        assert(hashed@ =~= encode_utf8(nonce@) + encode_utf8(post_data@));
        assert(message@ =~= kraken_message(path@, nonce@, post_data@));
    }
    let secret = base64_decode(api_secret);
    seal_request(secret, message.as_slice())
}

/// The text Bybit's signature authenticates: the timestamp and the
/// receive window in decimal digits, then the request body.
pub open spec fn bybit_payload(timestamp: u64, recv_window: u64, body: Seq<char>) -> Seq<char> {
    decimal(timestamp as nat) + decimal(recv_window as nat) + body
}

/// Signs a Bybit request: the HMAC-SHA-256 code of [`bybit_payload`]
/// under the API secret's bytes, in lowercase hexadecimal digits.
pub fn bybit_signature(timestamp: u64, recv_window: u64, body: &str, api_secret: &str) -> (r:
    Result<String, OrderPlaceError>)
    ensures
        r matches Ok(signature) && signature@ == hex_lower(
            hmac_sha256_code(
                encode_utf8(api_secret@),
                encode_utf8(bybit_payload(timestamp, recv_window, body@)),
            ),
        ),
{
    let payload = u64_to_string(timestamp).concat(u64_to_string(recv_window).as_str()).concat(body);
    proof {
        assert(payload@ =~= bybit_payload(timestamp, recv_window, body@));
    }
    match hmac_sha256(api_secret.as_bytes(), payload.as_str().as_bytes()) {
        Ok(code) => Ok(hex_encode(code.as_slice())),
        Err(_) => Err(
            OrderPlaceError::HmacError("Failed to create HMAC SHA256 instance".to_string()),
        ),
    }
}

} // verus!
