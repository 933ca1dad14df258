//! The URL-safe, unpadded base64 text encoding (RFC 4648, section 5) that
//! tokens are written in: what the encoding is, what is proved of it, and the
//! two calls into the `base64` crate that compute it.

use base64::engine::general_purpose::URL_SAFE_NO_PAD;
use base64::Engine;
use vstd::prelude::*;

verus! {

/// The character that stands for the six-bit value `v` in the URL-safe
/// alphabet: `A`-`Z`, `a`-`z`, `0`-`9`, `-`, `_`.
pub open spec fn sextet_char(v: int) -> char {
    if v < 26 {
        (v + 65) as char
    } else if v < 52 {
        (v + 71) as char
    } else if v < 62 {
        (v - 4) as char
    } else if v == 62 {
        '-'
    } else {
        '_'
    }
}

/// A character that may stand in a URL fragment as it is: an ASCII letter, a
/// digit, `-` or `_`. The padding character `=` is not one of them.
pub open spec fn is_token_char(c: char) -> bool {
    ||| 'A' <= c <= 'Z'
    ||| 'a' <= c <= 'z'
    ||| '0' <= c <= '9'
    ||| c == '-'
    ||| c == '_'
}

/// The number of characters that encode `n` bytes.
pub open spec fn token_len(n: nat) -> nat {
    (n / 3 * 4 + if n % 3 == 0 {
        0
    } else {
        n % 3 + 1
    }) as nat
}

/// The encoding of `n` bytes is no longer than the longest string there can
/// be.
pub open spec fn encodable_len(n: nat) -> bool {
    token_len(n) <= isize::MAX
}

/// The encoding of one to three bytes: two, three or four characters, the
/// unused low bits of the last one zero.
pub open spec fn encode_group(group: Seq<u8>) -> Seq<char>
    recommends
        1 <= group.len() <= 3,
{
    let b0 = group[0] as int;
    let b1 = group[1] as int;
    let b2 = group[2] as int;
    if group.len() == 1 {
        seq![sextet_char(b0 / 4), sextet_char(b0 % 4 * 16)]
    } else if group.len() == 2 {
        seq![sextet_char(b0 / 4), sextet_char(b0 % 4 * 16 + b1 / 16), sextet_char(b1 % 16 * 4)]
    } else {
        seq![
            sextet_char(b0 / 4),
            sextet_char(b0 % 4 * 16 + b1 / 16),
            sextet_char(b1 % 16 * 4 + b2 / 64),
            sextet_char(b2 % 64),
        ]
    }
}

/// The URL-safe base64 encoding of `bytes`, without padding: each group of
/// three bytes gives four characters, and a last group of one or two bytes
/// gives two or three.
pub open spec fn base64url(bytes: Seq<u8>) -> Seq<char>
    decreases bytes.len(),
{
    if bytes.len() == 0 {
        Seq::empty()
    } else if bytes.len() <= 3 {
        encode_group(bytes)
    } else {
        encode_group(bytes.take(3)) + base64url(bytes.skip(3))
    }
}

/// `token` is the encoding of some byte string.
pub open spec fn is_token(token: Seq<char>) -> bool {
    exists|bytes: Seq<u8>| #[trigger] base64url(bytes) == token
}

/// The byte string that `token` encodes, where `is_token(token)`.
pub open spec fn token_bytes(token: Seq<char>) -> Seq<u8>
    recommends
        is_token(token),
{
    choose|bytes: Seq<u8>| #[trigger] base64url(bytes) == token
}

/// Different six-bit values are written as different characters.
pub proof fn lemma_sextet_char_injective(v: int, w: int)
    requires
        0 <= v < 64,
        0 <= w < 64,
        sextet_char(v) == sextet_char(w),
    ensures
        v == w,
{
}

/// An encoding has the length that the number of bytes fixes.
pub proof fn lemma_token_len(bytes: Seq<u8>)
    ensures
        base64url(bytes).len() == token_len(bytes.len()),
    decreases bytes.len(),
{
    if bytes.len() > 3 {
        lemma_token_len(bytes.skip(3));
    }
}

/// Token safety: every character of an encoding is a letter, a digit, `-`
/// or `_`, so a token needs no percent-escaping and holds no padding.
pub proof fn lemma_token_alphabet(bytes: Seq<u8>)
    ensures
        forall|i: int|
            0 <= i < base64url(bytes).len() ==> is_token_char(#[trigger] base64url(bytes)[i]),
    decreases bytes.len(),
{
    if bytes.len() > 3 {
        lemma_token_alphabet(bytes.skip(3));
        lemma_group_alphabet(bytes.take(3));
        let head = encode_group(bytes.take(3));
        let tail = base64url(bytes.skip(3));
        assert forall|i: int| 0 <= i < base64url(bytes).len() implies is_token_char(
            #[trigger] base64url(bytes)[i],
        ) by {
            if i < 4 {
                assert(base64url(bytes)[i] == head[i]);
            } else {
                assert(base64url(bytes)[i] == tail[i - 4]);
            }
        }
    } else if bytes.len() > 0 {
        lemma_group_alphabet(bytes);
    }
}

proof fn lemma_group_alphabet(group: Seq<u8>)
    requires
        1 <= group.len() <= 3,
    ensures
        forall|i: int|
            0 <= i < encode_group(group).len() ==> is_token_char(
                #[trigger] encode_group(group)[i],
            ),
{
}

/// A group of bytes can be read back from its characters.
proof fn lemma_group_injective(a: Seq<u8>, b: Seq<u8>)
    requires
        1 <= a.len() <= 3,
        a.len() == b.len(),
        encode_group(a) == encode_group(b),
    ensures
        a == b,
{
    let ea = encode_group(a);
    let eb = encode_group(b);
    let (a0, a1, a2) = (a[0] as int, a[1] as int, a[2] as int);
    let (b0, b1, b2) = (b[0] as int, b[1] as int, b[2] as int);
    assert(ea[0] == eb[0]);
    assert(ea[1] == eb[1]);
    lemma_sextet_char_injective(a0 / 4, b0 / 4);
    if a.len() == 1 {
        lemma_sextet_char_injective(a0 % 4 * 16, b0 % 4 * 16);
    } else {
        assert(ea[2] == eb[2]);
        lemma_sextet_char_injective(a0 % 4 * 16 + a1 / 16, b0 % 4 * 16 + b1 / 16);
        if a.len() == 2 {
            lemma_sextet_char_injective(a1 % 16 * 4, b1 % 16 * 4);
        } else {
            assert(ea[3] == eb[3]);
            lemma_sextet_char_injective(a1 % 16 * 4 + a2 / 64, b1 % 16 * 4 + b2 / 64);
            lemma_sextet_char_injective(a2 % 64, b2 % 64);
        }
    }
    assert(a =~= b);
}

/// Two byte strings with the same encoding are the same byte string.
pub proof fn lemma_base64url_injective(a: Seq<u8>, b: Seq<u8>)
    requires
        base64url(a) == base64url(b),
    ensures
        a == b,
    decreases a.len(),
{
    lemma_token_len(a);
    lemma_token_len(b);
    assert(a.len() == b.len());
    if a.len() == 0 {
        assert(a =~= b);
    } else if a.len() <= 3 {
        lemma_group_injective(a, b);
    } else {
        let ga = encode_group(a.take(3));
        let gb = encode_group(b.take(3));
        let ra = base64url(a.skip(3));
        let rb = base64url(b.skip(3));
        assert(ga =~= (ga + ra).take(4));
        assert(gb =~= (gb + rb).take(4));
        assert(ra =~= (ga + ra).skip(4));
        assert(rb =~= (gb + rb).skip(4));
        lemma_group_injective(a.take(3), b.take(3));
        lemma_base64url_injective(a.skip(3), b.skip(3));
        assert(a =~= a.take(3) + a.skip(3));
        assert(b =~= b.take(3) + b.skip(3));
    }
}

/// An encoding is a token, and the bytes it encodes are the ones it was made
/// from.
pub proof fn lemma_token_bytes(bytes: Seq<u8>)
    ensures
        is_token(base64url(bytes)),
        token_bytes(base64url(bytes)) == bytes,
{
    lemma_base64url_injective(token_bytes(base64url(bytes)), bytes);
}

/// More bytes give a longer encoding.
pub proof fn lemma_token_len_increases(m: nat, n: nat)
    requires
        m < n,
    ensures
        token_len(m) < token_len(n),
{
}

/// A group whose characters start the characters of another group starts
/// that group.
proof fn lemma_group_prefix(a: Seq<u8>, c: Seq<u8>)
    requires
        1 <= a.len() <= c.len() <= 3,
        encode_group(a).is_prefix_of(encode_group(c)),
    ensures
        a.is_prefix_of(c),
{
    let ea = encode_group(a);
    let ec = encode_group(c);
    let (a0, a1, a2) = (a[0] as int, a[1] as int, a[2] as int);
    let (c0, c1, c2) = (c[0] as int, c[1] as int, c[2] as int);
    assert(ea[0] == ec[0]);
    assert(ea[1] == ec[1]);
    lemma_sextet_char_injective(a0 / 4, c0 / 4);
    let second = if c.len() == 1 {
        c0 % 4 * 16
    } else {
        c0 % 4 * 16 + c1 / 16
    };
    if a.len() == 1 {
        lemma_sextet_char_injective(a0 % 4 * 16, second);
    } else {
        assert(ea[2] == ec[2]);
        lemma_sextet_char_injective(a0 % 4 * 16 + a1 / 16, second);
        let third = if c.len() == 2 {
            c1 % 16 * 4
        } else {
            c1 % 16 * 4 + c2 / 64
        };
        if a.len() == 2 {
            lemma_sextet_char_injective(a1 % 16 * 4, third);
        } else {
            assert(ea[3] == ec[3]);
            lemma_sextet_char_injective(a1 % 16 * 4 + a2 / 64, third);
            lemma_sextet_char_injective(a2 % 64, c2 % 64);
        }
    }
    assert(a =~= c.subrange(0, a.len() as int));
}

/// Bytes whose encoding starts the encoding of other bytes start those
/// bytes.
pub proof fn lemma_prefix_of_encoding(a: Seq<u8>, c: Seq<u8>)
    requires
        base64url(a).is_prefix_of(base64url(c)),
    ensures
        a.is_prefix_of(c),
    decreases a.len(),
{
    lemma_token_len(a);
    lemma_token_len(c);
    if c.len() < a.len() {
        lemma_token_len_increases(c.len(), a.len());
    }
    let ea = base64url(a);
    let ec = base64url(c);
    if a.len() == 0 {
        assert(a =~= c.subrange(0, 0));
    } else if a.len() <= 3 {
        let head = if c.len() <= 3 {
            c
        } else {
            c.take(3)
        };
        assert(encode_group(a) =~= encode_group(head).subrange(0, ea.len() as int)) by {
            assert forall|i: int| 0 <= i < ea.len() implies ea[i] == encode_group(head)[i] by {
                assert(ea[i] == ec.subrange(0, ea.len() as int)[i]);
            }
        }
        lemma_group_prefix(a, head);
        assert(a =~= c.subrange(0, a.len() as int));
    } else {
        let ga = encode_group(a.take(3));
        let gc = encode_group(c.take(3));
        let ra = base64url(a.skip(3));
        let rc = base64url(c.skip(3));
        assert(ga =~= gc) by {
            assert forall|i: int| 0 <= i < 4 implies ga[i] == gc[i] by {
                assert(ea[i] == ec.subrange(0, ea.len() as int)[i]);
            }
        }
        lemma_group_injective(a.take(3), c.take(3));
        assert(ra =~= rc.subrange(0, ra.len() as int)) by {
            assert forall|i: int| 0 <= i < ra.len() implies ra[i] == rc[i] by {
                assert(ea[i + 4] == ec.subrange(0, ea.len() as int)[i + 4]);
            }
        }
        lemma_prefix_of_encoding(a.skip(3), c.skip(3));
        assert(a =~= c.subrange(0, a.len() as int)) by {
            assert forall|i: int| 0 <= i < a.len() implies a[i] == c[i] by {
                if i < 3 {
                    assert(a.take(3)[i] == c.take(3)[i]);
                } else {
                    assert(a.skip(3)[i - 3] == c.skip(3).subrange(0, a.len() - 3)[i - 3]);
                }
            }
        }
    }
}

/// A token cut short, where it still is a token, encodes the bytes cut
/// short: fewer of them, and the same as far as they go.
pub proof fn lemma_cut_token_is_cut_bytes(bytes: Seq<u8>, cut: Seq<char>)
    requires
        cut.is_prefix_of(base64url(bytes)),
        cut.len() < base64url(bytes).len(),
        is_token(cut),
    ensures
        token_bytes(cut).is_prefix_of(bytes),
        token_bytes(cut).len() < bytes.len(),
{
    let short = token_bytes(cut);
    lemma_prefix_of_encoding(short, bytes);
    lemma_token_len(short);
    lemma_token_len(bytes);
}

/// A text that holds a character from outside the alphabet encodes nothing.
pub proof fn lemma_foreign_char_is_no_token(text: Seq<char>, at: int)
    requires
        0 <= at < text.len(),
        !is_token_char(text[at]),
    ensures
        !is_token(text),
{
    assert forall|bytes: Seq<u8>| #[trigger] base64url(bytes) != text by {
        lemma_token_alphabet(bytes);
    }
}

/// A text that leaves a single character over after its groups of four
/// encodes nothing: no encoding has such a length.
pub proof fn lemma_dangling_char_is_no_token(text: Seq<char>)
    requires
        text.len() % 4 == 1,
    ensures
        !is_token(text),
{
    assert forall|bytes: Seq<u8>| #[trigger] base64url(bytes) != text by {
        lemma_token_len(bytes);
    }
}

/// Whether `len` bytes can be encoded.
pub fn can_encode(len: usize) -> (fits: bool)
    ensures
        fits == encodable_len(len as nat),
{
    let n: u128 = len as u128;
    let tail: u128 = if n % 3 == 0 {
        0
    } else {
        n % 3 + 1
    };
    n / 3 * 4 + tail <= isize::MAX as u128
}

/// Calls `Engine::encode` of the `base64` crate on its `URL_SAFE_NO_PAD`
/// engine. Trusted: the result is the RFC 4648 URL-safe encoding of `bytes`
/// without padding, as `base64url` writes it out. The call panics where the
/// length of the result cannot be allocated, which `requires` leaves out.
#[verifier::external_body]
pub(crate) fn encode_token(bytes: &[u8]) -> (token: String)
    requires
        encodable_len(bytes@.len()),
    ensures
        token@ == base64url(bytes@),
{
    URL_SAFE_NO_PAD.encode(bytes)
}

/// Calls `Engine::decode` of the `base64` crate on its `URL_SAFE_NO_PAD`
/// engine. Trusted: that engine accepts exactly the canonical unpadded
/// encodings (it rejects characters outside the alphabet, padding, a
/// dangling single character and non-zero unused bits), and returns the bytes
/// that the text encodes.
#[verifier::external_body]
pub(crate) fn decode_token(token: &str) -> (bytes: Option<Vec<u8>>)
    ensures
        bytes matches Some(v) ==> base64url(v@) == token@,
        bytes is None ==> !is_token(token@),
{
    URL_SAFE_NO_PAD.decode(token).ok()
}

} // verus!
