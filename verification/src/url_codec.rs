//! The shareable-state codec: source text to a URL-embeddable token and
//! back. A token is the URL-safe base64 text of the DEFLATE stream of the
//! text's UTF-8 bytes.

use crate::base64url::{
    base64url, can_encode, decode_token, encodable_len, encode_token, is_token, is_token_char,
    lemma_base64url_injective, lemma_cut_token_is_cut_bytes, lemma_dangling_char_is_no_token,
    lemma_foreign_char_is_no_token, lemma_token_alphabet, lemma_token_bytes, lemma_token_len,
    token_bytes,
};
use crate::deflate::{deflate, deflated, inflate, inflate_spec};
use vstd::prelude::*;
use vstd::string::*;
use vstd::utf8::*;

verus! {

/// Why a token could not be turned back into text.
#[derive(Clone, Copy, Debug, PartialEq, Eq, Structural)]
pub enum DecodeError {
    /// The token is not a canonical URL-safe base64 text.
    BadAlphabet,
    /// The bytes of the token are not a DEFLATE stream that can be inflated.
    CorruptStream,
    /// The inflated bytes are not UTF-8.
    InvalidUtf8,
}

/// Why a text could not be turned into a token.
#[derive(Clone, Copy, Debug, PartialEq, Eq, Structural)]
pub enum EncodeError {
    /// The compressor reported an error.
    CompressionFailed,
    /// The token would be longer than a string can be.
    TooLong,
}

impl DecodeError {
    /// The text of `message`.
    pub open spec fn message_spec(self) -> Seq<char> {
        match self {
            DecodeError::BadAlphabet => "Base64 decode failed"@,
            DecodeError::CorruptStream => "Decompression failed"@,
            DecodeError::InvalidUtf8 => "UTF-8 decode failed"@,
        }
    }

    /// A one-line description of the failure.
    pub fn message(&self) -> (text: String)
        ensures
            text@ == self.message_spec(),
    {
        match self {
            DecodeError::BadAlphabet => "Base64 decode failed".to_owned(),
            DecodeError::CorruptStream => "Decompression failed".to_owned(),
            DecodeError::InvalidUtf8 => "UTF-8 decode failed".to_owned(),
        }
    }
}

impl EncodeError {
    /// The text of `message`.
    pub open spec fn message_spec(self) -> Seq<char> {
        match self {
            EncodeError::CompressionFailed => "Compression failed"@,
            EncodeError::TooLong => "Compressed code is too long"@,
        }
    }

    /// A one-line description of the failure.
    pub fn message(&self) -> (text: String)
        ensures
            text@ == self.message_spec(),
    {
        match self {
            EncodeError::CompressionFailed => "Compression failed".to_owned(),
            EncodeError::TooLong => "Compressed code is too long".to_owned(),
        }
    }
}

/// A text result as contracts speak of it: the characters in place of the
/// `String`.
pub open spec fn text_view<E>(r: Result<String, E>) -> Result<Seq<char>, E> {
    match r {
        Ok(text) => Ok(text@),
        Err(e) => Err(e),
    }
}

/// An optional byte vector as contracts speak of it.
pub open spec fn bytes_view(o: Option<Vec<u8>>) -> Option<Seq<u8>> {
    match o {
        Some(bytes) => Some(bytes@),
        None => None,
    }
}

/// An optional text as contracts speak of it.
pub open spec fn opt_text_view(o: Option<String>) -> Option<Seq<char>> {
    match o {
        Some(text) => Some(text@),
        None => None,
    }
}

/// The token for what the compressor gave: the base64 text of the stream,
/// unless that text would be longer than a string can be.
pub open spec fn token_of_stream(stream: Option<Seq<u8>>) -> Result<Seq<char>, EncodeError> {
    match stream {
        None => Err(EncodeError::CompressionFailed),
        Some(s) => if encodable_len(s.len()) {
            Ok(base64url(s))
        } else {
            Err(EncodeError::TooLong)
        },
    }
}

/// What `encode_for_url` returns for `text`.
pub open spec fn encode_spec(text: Seq<char>) -> Result<Seq<char>, EncodeError> {
    token_of_stream(deflated(encode_utf8(text)))
}

/// The text for what the decompressor gave: the inflated bytes read as UTF-8.
pub open spec fn text_of_data(data: Option<Seq<u8>>) -> Result<Seq<char>, DecodeError> {
    match data {
        None => Err(DecodeError::CorruptStream),
        Some(bytes) => if valid_utf8(bytes) {
            Ok(decode_utf8(bytes))
        } else {
            Err(DecodeError::InvalidUtf8)
        },
    }
}

/// What `decode_from_url` returns for `token`.
pub open spec fn decode_spec(token: Seq<char>) -> Result<Seq<char>, DecodeError> {
    if is_token(token) {
        text_of_data(inflate_spec(token_bytes(token)))
    } else {
        Err(DecodeError::BadAlphabet)
    }
}

/// The token that a fragment carries: the fragment without the `#` that it
/// starts with, or the fragment itself where it starts with none. A second
/// `#` is part of the token, and no token holds one.
pub open spec fn fragment_token(hash: Seq<char>) -> Seq<char> {
    if hash.len() > 0 && hash[0] == '#' {
        hash.skip(1)
    } else {
        hash
    }
}

/// What `get_code_from_hash` returns for the fragment `hash`.
pub open spec fn code_from_hash_spec(hash: Seq<char>) -> Option<Seq<char>> {
    if hash.len() == 0 || hash == seq!['#'] {
        None
    } else {
        match decode_spec(fragment_token(hash)) {
            Ok(text) => Some(text),
            Err(_) => None,
        }
    }
}

/// What `set_code_in_hash` returns for `text`.
pub open spec fn hash_for_code_spec(text: Seq<char>) -> Result<Seq<char>, EncodeError> {
    match encode_spec(text) {
        Ok(token) => Ok(seq!['#'] + token),
        Err(e) => Err(e),
    }
}

/// The base64 layer loses nothing: decoding the token of a stream is reading
/// the text out of that very stream.
pub proof fn lemma_token_decodes_as_stream(stream: Seq<u8>)
    ensures
        decode_spec(base64url(stream)) == text_of_data(inflate_spec(stream)),
{
    lemma_token_bytes(stream);
}

/// Round trip: a token made of a stream that inflates to the UTF-8 bytes of
/// `text` decodes to exactly `text`.
pub proof fn lemma_round_trip(text: Seq<char>, stream: Seq<u8>)
    requires
        inflate_spec(stream) == Some(encode_utf8(text)),
    ensures
        decode_spec(base64url(stream)) == Ok::<Seq<char>, DecodeError>(text),
{
    lemma_token_decodes_as_stream(stream);
    encode_utf8_valid_utf8(text);
    encode_utf8_decode_utf8(text);
}

/// Corruption rejection: a text with a character from outside the token
/// alphabet in it, or with a single character left over after its groups of
/// four, is rejected as `BadAlphabet`, whatever else it holds.
pub proof fn lemma_foreign_text_is_rejected(text: Seq<char>, at: int)
    requires
        text.len() % 4 == 1 || (0 <= at < text.len() && !is_token_char(text[at])),
    ensures
        decode_spec(text) == Err::<Seq<char>, DecodeError>(DecodeError::BadAlphabet),
{
    if text.len() % 4 == 1 {
        lemma_dangling_char_is_no_token(text);
    } else {
        lemma_foreign_char_is_no_token(text, at);
    }
}

/// Corruption rejection: a token that was altered and is still a token is
/// read as another stream than the one it was made of, never as the same.
pub proof fn lemma_altered_token_is_another_stream(stream: Seq<u8>, altered: Seq<char>)
    requires
        altered != base64url(stream),
        is_token(altered),
    ensures
        token_bytes(altered) != stream,
{
    lemma_token_bytes(stream);
}

/// Corruption rejection: a token cut short is rejected as `BadAlphabet`
/// where it is no token any more; where it still is one, it is read as the
/// stream cut short before its last byte, and what comes of it is what the
/// inflater makes of a stream without its end.
pub proof fn lemma_cut_token_is_cut_stream(stream: Seq<u8>, cut: Seq<char>)
    requires
        cut.is_prefix_of(base64url(stream)),
        cut.len() < base64url(stream).len(),
    ensures
        !is_token(cut) ==> decode_spec(cut) == Err::<Seq<char>, DecodeError>(
            DecodeError::BadAlphabet,
        ),
        is_token(cut) ==> token_bytes(cut).len() < stream.len(),
        is_token(cut) ==> token_bytes(cut) == stream.take(token_bytes(cut).len() as int),
        is_token(cut) ==> decode_spec(cut) == text_of_data(
            inflate_spec(stream.take(token_bytes(cut).len() as int)),
        ),
{
    if is_token(cut) {
        lemma_cut_token_is_cut_bytes(stream, cut);
        assert(token_bytes(cut) =~= stream.take(token_bytes(cut).len() as int));
    }
}

/// A fragment with a second `#` after the first carries no code: what
/// follows the first `#` is then no token.
pub proof fn lemma_second_hash_is_no_code(hash: Seq<char>)
    requires
        hash.len() >= 2,
        hash[0] == '#',
        hash[1] == '#',
    ensures
        code_from_hash_spec(hash) is None,
{
    assert(hash != seq!['#']);
    assert(fragment_token(hash)[0] == '#');
    lemma_foreign_char_is_no_token(fragment_token(hash), 0);
}

/// Calls `String::from_utf8`. Trusted, from its documentation: it succeeds
/// exactly on vectors that are well-formed UTF-8, and the string then holds
/// the characters that the bytes spell.
#[verifier::external_body]
fn string_from_utf8(bytes: Vec<u8>) -> (text: Option<String>)
    ensures
        text matches Some(s) ==> valid_utf8(bytes@) && s@ == decode_utf8(bytes@),
        text is None ==> !valid_utf8(bytes@),
{
    String::from_utf8(bytes).ok()
}

/// Turns what the compressor gave into a token: the base64 text of the
/// stream, `CompressionFailed` where there is no stream, `TooLong` where the
/// text would be longer than a string can be.
pub fn token_from_stream(stream: Option<Vec<u8>>) -> (r: Result<String, EncodeError>)
    ensures
        text_view(r) == token_of_stream(bytes_view(stream)),
{
    match stream {
        None => Err(EncodeError::CompressionFailed),
        Some(s) => {
            if can_encode(s.len()) {
                Ok(encode_token(s.as_slice()))
            } else {
                Err(EncodeError::TooLong)
            }
        },
    }
}

/// Turns what the decompressor gave into text: the inflated bytes read as
/// UTF-8, `CorruptStream` where there are none, `InvalidUtf8` where they are
/// not well-formed.
pub fn text_from_data(data: Option<Vec<u8>>) -> (r: Result<String, DecodeError>)
    ensures
        text_view(r) == text_of_data(bytes_view(data)),
{
    match data {
        None => Err(DecodeError::CorruptStream),
        Some(bytes) => match string_from_utf8(bytes) {
            Some(text) => Ok(text),
            None => Err(DecodeError::InvalidUtf8),
        },
    }
}

/// Compresses `code` and writes the stream as a URL-safe token.
///
/// The token is a function of `code` alone. Whenever one is returned, it
/// holds only letters, digits, `-` and `_`, it has the length of an encoding
/// without padding, and `decode_from_url` turns it back into exactly `code`.
pub fn encode_for_url(code: &str) -> (r: Result<String, EncodeError>)
    ensures
        text_view(r) == encode_spec(code@),
        r matches Ok(token) ==> decode_spec(token@) == Ok::<Seq<char>, DecodeError>(code@),
        r matches Ok(token) ==> forall|i: int|
            0 <= i < token@.len() ==> is_token_char(#[trigger] token@[i]),
        r matches Ok(token) ==> token@.len() % 4 != 1,
{
    let stream = deflate(code.as_bytes());
    proof {
        if stream is Some {
            lemma_round_trip(code@, stream->0@);
            lemma_token_alphabet(stream->0@);
            lemma_token_len(stream->0@);
        }
    }
    token_from_stream(stream)
}

/// Reads a token back into the text it was made from.
///
/// Fails with `BadAlphabet` exactly on what is not a canonical URL-safe
/// base64 text, with `CorruptStream` where the decompressor rejects the
/// bytes, and with `InvalidUtf8` where the inflated bytes are not UTF-8.
pub fn decode_from_url(encoded: &str) -> (r: Result<String, DecodeError>)
    ensures
        text_view(r) == decode_spec(encoded@),
{
    match decode_token(encoded) {
        None => Err(DecodeError::BadAlphabet),
        Some(stream) => {
            proof {
                assert(is_token(encoded@));
                lemma_base64url_injective(stream@, token_bytes(encoded@));
            }
            text_from_data(inflate(stream.as_slice()))
        },
    }
}

/// The code that a page address carries in its fragment `hash`: nothing for
/// an empty fragment or a bare `#`, and nothing where what follows the `#`
/// does not decode.
pub fn get_code_from_hash(hash: &str) -> (code: Option<String>)
    ensures
        opt_text_view(code) == code_from_hash_spec(hash@),
{
    let n = hash.unicode_len();
    if n == 0 {
        return None;
    }
    let hashed = hash.get_char(0) == '#';
    if n == 1 && hashed {
        assert(hash@ =~= seq!['#']);
        return None;
    }
    let start: usize = if hashed {
        1
    } else {
        0
    };
    let token = hash.substring_char(start, n);
    assert(token@ =~= fragment_token(hash@));
    match decode_from_url(token) {
        Ok(text) => Some(text),
        Err(_) => None,
    }
}

/// The fragment to write into the page address for `code`: `#` and the token
/// of `code`. A fragment longer than the bare `#` is one that
/// `get_code_from_hash` reads back as exactly `code`.
pub fn set_code_in_hash(code: &str) -> (r: Result<String, EncodeError>)
    ensures
        text_view(r) == hash_for_code_spec(code@),
        r matches Ok(hash) ==> hash@.len() > 1 ==> code_from_hash_spec(hash@) == Some(code@),
{
    match encode_for_url(code) {
        Ok(token) => {
            let mut hash = "#".to_owned();
            proof {
                reveal_strlit("#");
                assert("#"@ =~= seq!['#']);
                assert((seq!['#'] + token@).skip(1) =~= token@);
            }
            hash.append(token.as_str());
            Ok(hash)
        },
        Err(e) => Err(e),
    }
}

} // verus!
