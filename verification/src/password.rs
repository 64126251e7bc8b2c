//! The Mumble password: the pilot's EVE access token, either as is or
//! compressed to fit Mumble's field (`z` followed by the URL-safe base64 of
//! its zlib stream).
use vstd::prelude::*;

use crate::codec::{
    b64url_decode, b64url_decoded, b64url_encode, b64url_encoded, string_from_utf8, utf8_error_text,
    zlib_compress, zlib_compressed, zlib_decompress, zlib_inflated,
};
use crate::error::{fails_with, AppError};
use crate::text::{chars_of, owned, push_str, suffix_from};
use vstd::utf8::{decode_utf8, encode_utf8, encode_utf8_decode_utf8, encode_utf8_valid_utf8, valid_utf8};

verus! {

/// The largest token, in UTF-8 bytes, that a compressed password may hold.
pub const MAX_JWT_BYTES: usize = 2048;

/// The largest zlib stream, in bytes, that a compressed password may carry.
pub const MAX_COMPRESSED_BYTES: usize = 2048;

/// What compressing the token `jwt` gives: `z` and the base64 of the zlib
/// stream of its UTF-8 bytes, or the compressor's error.
pub open spec fn compressed_password(jwt: Seq<char>) -> Result<Seq<char>, Seq<char>> {
    match zlib_compressed(encode_utf8(jwt)) {
        Ok(c) => Ok(seq!['z'] + b64url_encoded(c)),
        Err(m) => Err("compress jwt: "@ + m),
    }
}

/// What the password `p` stands for: the token itself when it does not
/// start with `z`; else the token inside the compressed form, refused
/// (with the detail text given) when the base64 or zlib is invalid, when the
/// stream or the token is too large, or when the token is not UTF-8.
pub open spec fn password_token(p: Seq<char>) -> Result<Seq<char>, Seq<char>> {
    if !(p.len() > 0 && p[0] == 'z') {
        Ok(p)
    } else {
        match b64url_decoded(p.drop_first()) {
            Err(m) => Err("invalid password encoding: "@ + m),
            Ok(c) => if c.len() > MAX_COMPRESSED_BYTES {
                Err("password is too large"@)
            } else {
                match zlib_inflated(c, (MAX_JWT_BYTES + 1) as nat) {
                    Err(m) => Err("invalid password compression: "@ + m),
                    Ok(j) => if j.len() > MAX_JWT_BYTES {
                        Err("password is too large"@)
                    } else if !valid_utf8(j) {
                        Err("invalid password contents: "@ + utf8_error_text(j))
                    } else {
                        Ok(decode_utf8(j))
                    },
                }
            },
        }
    }
}

/// Compresses the token `jwt` into a password.
pub fn compress_password(jwt: &str) -> (res: Result<String, AppError>)
    ensures
        match compressed_password(jwt@) {
            Ok(p) => res matches Ok(s) && s@ == p,
            Err(m) => fails_with(res, 500, m),
        },
{
    let compressed = match zlib_compress(jwt.as_bytes()) {
        Ok(c) => c,
        Err(e) => {
            let mut msg = owned("compress jwt: ");
            push_str(&mut msg, e.as_str());
            return Err(AppError::Internal(msg));
        },
    };
    let mut out = String::new();
    out.push('z');
    push_str(&mut out, b64url_encode(compressed.as_slice()).as_str());
    assert(out@ =~= seq!['z'] + b64url_encoded(compressed@));
    Ok(out)
}

/// `p` is what `compress_password` makes of `jwt`, a token of at most
/// `MAX_JWT_BYTES` bytes whose zlib stream is at most `MAX_COMPRESSED_BYTES`
/// bytes.
pub open spec fn compresses_to(jwt: Seq<char>, p: Seq<char>) -> bool {
    &&& compressed_password(jwt) == Ok::<Seq<char>, Seq<char>>(p)
    &&& encode_utf8(jwt).len() <= MAX_JWT_BYTES
    &&& zlib_compressed(encode_utf8(jwt)) matches Ok(c) && c.len() <= MAX_COMPRESSED_BYTES
}

/// `p` is the compressed form of the bytes `x`, which are more than a token
/// may hold.
pub open spec fn oversized_form(x: Seq<u8>, p: Seq<char>) -> bool {
    &&& zlib_compressed(x) is Ok
    &&& p == seq!['z'] + b64url_encoded(zlib_compressed(x)->Ok_0)
    &&& x.len() > MAX_JWT_BYTES
}

/// The token that the password `password` stands for. Every refusal is a
/// 401 with the detail text of `password_token`. A password that
/// `compress_password` made of a token within the size limits gives that
/// token back.
pub fn decompress_password(password: &str) -> (res: Result<String, AppError>)
    ensures
        match password_token(password@) {
            Ok(t) => res matches Ok(s) && s@ == t,
            Err(m) => fails_with(res, 401, m),
        },
        forall|jwt: Seq<char>| #[trigger]
            compresses_to(jwt, password@) ==> (res matches Ok(s) && s@ == jwt),
        forall|x: Seq<u8>| #[trigger]
            oversized_form(x, password@) ==> fails_with(res, 401, "password is too large"@),
{
    let cs = chars_of(password);
    if !(cs.len() > 0 && cs[0] == 'z') {
        proof {
            assert forall|t: Seq<char>| #[trigger] compresses_to(t, password@) implies false by {
                assert(password@[0] == 'z');
            }
            assert forall|x: Seq<u8>| #[trigger] oversized_form(x, password@) implies false by {
                assert(password@[0] == 'z');
            }
        }
        return Ok(owned(password));
    }
    let encoded = suffix_from(password, 1);
    assert(encoded@ == password@.drop_first());
    proof {
        assert forall|t: Seq<char>| #[trigger] compresses_to(t, password@) implies b64url_encoded(
            zlib_compressed(encode_utf8(t))->Ok_0,
        ) == encoded@ by {
            let c = zlib_compressed(encode_utf8(t))->Ok_0;
            assert(password@ == seq!['z'] + b64url_encoded(c));
            assert((seq!['z'] + b64url_encoded(c)).drop_first() == b64url_encoded(c));
        }
        assert forall|x: Seq<u8>| #[trigger] oversized_form(x, password@) implies b64url_encoded(
            zlib_compressed(x)->Ok_0,
        ) == encoded@ by {
            let c = zlib_compressed(x)->Ok_0;
            assert((seq!['z'] + b64url_encoded(c)).drop_first() == b64url_encoded(c));
        }
    }
    let compressed = match b64url_decode(encoded.as_str()) {
        Ok(c) => c,
        Err(e) => {
            let mut msg = owned("invalid password encoding: ");
            push_str(&mut msg, e.as_str());
            proof {
                assert forall|t: Seq<char>| #[trigger] compresses_to(t, password@) implies false by {
                    let c = zlib_compressed(encode_utf8(t))->Ok_0;
                    assert(b64url_encoded(c) == encoded@);
                }
                assert forall|x: Seq<u8>| #[trigger] oversized_form(x, password@) implies false by {
                    assert(b64url_encoded(zlib_compressed(x)->Ok_0) == encoded@);
                }
            }
            return Err(AppError::Unauthorized(msg));
        },
    };
    proof {
        assert forall|t: Seq<char>| #[trigger] compresses_to(t, password@) implies zlib_compressed(
            encode_utf8(t),
        ) == Ok::<Seq<u8>, Seq<char>>(compressed@) by {
            let c = zlib_compressed(encode_utf8(t))->Ok_0;
            assert(b64url_encoded(c) == encoded@);
        }
        assert forall|x: Seq<u8>| #[trigger] oversized_form(x, password@) implies zlib_compressed(x)
            == Ok::<Seq<u8>, Seq<char>>(compressed@) by {
            assert(b64url_encoded(zlib_compressed(x)->Ok_0) == encoded@);
        }
    }
    if compressed.len() > MAX_COMPRESSED_BYTES {
        return Err(AppError::Unauthorized(owned("password is too large")));
    }
    let jwt = match zlib_decompress(compressed.as_slice(), (MAX_JWT_BYTES + 1) as u64) {
        Ok(j) => j,
        Err(e) => {
            let mut msg = owned("invalid password compression: ");
            push_str(&mut msg, e.as_str());
            proof {
                assert forall|t: Seq<char>| #[trigger] compresses_to(t, password@) implies false by {
                    assert(zlib_compressed(encode_utf8(t)) == Ok::<Seq<u8>, Seq<char>>(compressed@));
                }
                assert forall|x: Seq<u8>| #[trigger] oversized_form(x, password@) implies false by {
                    assert(zlib_compressed(x) == Ok::<Seq<u8>, Seq<char>>(compressed@));
                }
            }
            return Err(AppError::Unauthorized(msg));
        },
    };
    proof {
        assert forall|t: Seq<char>| #[trigger] compresses_to(t, password@) implies jwt@ == encode_utf8(
            t,
        ) by {
            assert(zlib_compressed(encode_utf8(t)) == Ok::<Seq<u8>, Seq<char>>(compressed@));
        }
    }
    proof {
        assert forall|x: Seq<u8>| #[trigger] oversized_form(x, password@) implies jwt@.len()
            > MAX_JWT_BYTES by {
            assert(zlib_compressed(x) == Ok::<Seq<u8>, Seq<char>>(compressed@));
        }
    }
    if jwt.len() > MAX_JWT_BYTES {
        return Err(AppError::Unauthorized(owned("password is too large")));
    }
    let ghost bytes = jwt@;
    match string_from_utf8(jwt) {
        Ok(s) => {
            proof {
                assert forall|t: Seq<char>| #[trigger] compresses_to(t, password@) implies s@ == t by {
                    assert(bytes == encode_utf8(t));
                    encode_utf8_decode_utf8(t);
                }
            }
            Ok(s)
        },
        Err(e) => {
            let mut msg = owned("invalid password contents: ");
            push_str(&mut msg, e.as_str());
            proof {
                assert forall|t: Seq<char>| #[trigger] compresses_to(t, password@) implies false by {
                    assert(bytes == encode_utf8(t));
                    encode_utf8_valid_utf8(t);
                }
            }
            Err(AppError::Unauthorized(msg))
        },
    }
}

} // verus!
