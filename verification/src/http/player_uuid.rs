//! A player's UUID from the Mojang profile API.
use vstd::prelude::*;
use vstd::string::StringExecFns;
use vstd::slice::slice_subrange;
use vstd::utf8::{decode_utf8, encode_utf8, encode_utf8_decode_utf8, encode_utf8_valid_utf8,
    is_ascii_chars, is_ascii_chars_encode_utf8, valid_utf8};

use crate::utils::bytes::{str_from_utf8, write_all};

use crate::http::NetworkError;
use crate::utils::Uuid;

verus! {

/// The address of the profile of `username`.
pub fn profile_url(username: &str) -> (r: String)
    ensures
        r@ == "https://api.mojang.com/users/profiles/minecraft/"@ + username@,
{
    let mut url = "https://api.mojang.com/users/profiles/minecraft/".to_owned();
    url.append(username);
    url
}

/// What a profile request's status says: 404 is no such user, anything else
/// goes on to the body.
pub fn check_profile_status(status: u16, username: String) -> (r: Result<(), NetworkError>)
    ensures
        status == 404 ==> (r matches Err(NetworkError::NotFound(n)) && n@ == username@),
        status != 404 ==> r is Ok,
{
    if status == 404 {
        Err(NetworkError::NotFound(username))
    } else {
        Ok(())
    }
}

/// The first 32 characters of a profile id grouped 8-4-4-4-12 with hyphens;
/// what follows them is dropped.
pub open spec fn hyphenated_chars(id: Seq<char>) -> Seq<char> {
    id.subrange(0, 8) + "-"@ + id.subrange(8, 12) + "-"@ + id.subrange(12, 16) + "-"@
        + id.subrange(16, 20) + "-"@ + id.subrange(20, 32)
}

/// The first 32 bytes of an id's UTF-8 bytes cut at bytes 8, 12, 16 and 20,
/// with a hyphen (`0x2D`) put in at each cut.
pub open spec fn hyphen_bytes(b: Seq<u8>) -> Seq<u8> {
    b.subrange(0, 8) + seq![0x2Du8] + b.subrange(8, 12) + seq![0x2Du8] + b.subrange(12, 16)
        + seq![0x2Du8] + b.subrange(16, 20) + seq![0x2Du8] + b.subrange(20, 32)
}

/// Whether an id can be cut into the groups of a UUID: it has at least 32
/// bytes, and the cuts at bytes 8, 12, 16, 20 and 32 all fall between
/// characters, so that the hyphenated bytes are UTF-8.
pub open spec fn id_splittable(id: Seq<char>) -> bool {
    &&& encode_utf8(id).len() >= 32
    &&& valid_utf8(hyphen_bytes(encode_utf8(id)))
}

/// The hyphenated form of a profile id: the text of its hyphenated bytes.
pub open spec fn hyphenated(id: Seq<char>) -> Seq<char> {
    decode_utf8(hyphen_bytes(encode_utf8(id)))
}

/// The bytes of two texts one after the other are the bytes of each.
pub proof fn lemma_encode_utf8_concat(a: Seq<char>, b: Seq<char>)
    ensures
        encode_utf8(a + b) == encode_utf8(a) + encode_utf8(b),
    decreases a.len(),
{
    if a.len() == 0 {
        assert(a + b =~= b);
        assert(encode_utf8(a) =~= Seq::<u8>::empty());
        assert(encode_utf8(a) + encode_utf8(b) =~= encode_utf8(b));
    } else {
        assert((a + b).drop_first() =~= a.drop_first() + b);
        assert((a + b)[0] == a[0]);
        lemma_encode_utf8_concat(a.drop_first(), b);
        assert(encode_utf8(a + b) =~= encode_utf8(a) + encode_utf8(b));
    }
}

/// An id whose first 32 characters are ASCII can be cut, and its hyphenated
/// form is those characters grouped with hyphens.
pub proof fn lemma_ascii_prefix_hyphenated(id: Seq<char>)
    requires
        id.len() >= 32,
        is_ascii_chars(id.subrange(0, 32)),
    ensures
        id_splittable(id),
        hyphenated(id) == hyphenated_chars(id),
{
    reveal_strlit("-");
    let a = id.subrange(0, 32);
    let rest = id.subrange(32, id.len() as int);
    assert(id =~= a + rest);
    lemma_encode_utf8_concat(a, rest);
    is_ascii_chars_encode_utf8(a);
    let b = encode_utf8(id);
    assert(forall|i: int| 0 <= i < 32 ==> #[trigger] b[i] == a[i] as u8);
    let h = hyphenated_chars(id);
    assert(h.len() == 36);
    assert(is_ascii_chars(h)) by {
        assert forall|i: int| 0 <= i < h.len() implies '\0' <= #[trigger] h[i] <= '\u{7f}' by {
            if i < 8 {
                assert(h[i] == a[i]);
            } else if i == 8 || i == 13 || i == 18 || i == 23 {
            } else if i < 13 {
                assert(h[i] == a[i - 1]);
            } else if i < 18 {
                assert(h[i] == a[i - 2]);
            } else if i < 23 {
                assert(h[i] == a[i - 3]);
            } else {
                assert(h[i] == a[i - 4]);
            }
        }
    }
    is_ascii_chars_encode_utf8(h);
    let e = encode_utf8(h);
    assert(('-' as u8) == 0x2Du8);
    assert(hyphen_bytes(b) =~= e) by {
        assert forall|i: int| 0 <= i < 36 implies hyphen_bytes(b)[i] == #[trigger] e[i] by {
            assert(e[i] == h[i] as u8);
            if i < 8 {
                assert(h[i] == a[i]);
            } else if i == 8 || i == 13 || i == 18 || i == 23 {
            } else if i < 13 {
                assert(h[i] == a[i - 1]);
            } else if i < 18 {
                assert(h[i] == a[i - 2]);
            } else if i < 23 {
                assert(h[i] == a[i - 3]);
            } else {
                assert(h[i] == a[i - 4]);
            }
        }
    }
    encode_utf8_valid_utf8(h);
    encode_utf8_decode_utf8(h);
}

/// Groups a profile id as a hyphenated UUID string, cutting its bytes at 8,
/// 12, 16, 20 and 32.
pub fn hyphenate_id(id: &str) -> (r: String)
    requires
        id_splittable(id@),
    ensures
        r@ == hyphenated(id@),
{
    let b = id.as_bytes();
    let mut v: Vec<u8> = Vec::new();
    write_all(&mut v, slice_subrange(b, 0, 8));
    v.push(0x2D);
    write_all(&mut v, slice_subrange(b, 8, 12));
    v.push(0x2D);
    write_all(&mut v, slice_subrange(b, 12, 16));
    v.push(0x2D);
    write_all(&mut v, slice_subrange(b, 16, 20));
    v.push(0x2D);
    write_all(&mut v, slice_subrange(b, 20, 32));
    assert(v@ =~= hyphen_bytes(encode_utf8(id@)));
    match str_from_utf8(v.as_slice()) {
        Ok(text) => text.to_owned(),
        Err(_) => String::new(),
    }
}

/// The value of a hexadecimal digit.
pub open spec fn hex_value(c: char) -> int {
    if '0' <= c <= '9' {
        c as int - '0' as int
    } else if 'a' <= c <= 'f' {
        c as int - 'a' as int + 10
    } else {
        c as int - 'A' as int + 10
    }
}

/// Whether `c` is a hexadecimal digit, in either case.
pub open spec fn is_hex(c: char) -> bool {
    ('0' <= c <= '9') || ('a' <= c <= 'f') || ('A' <= c <= 'F')
}

/// The positions of the hyphens in a hyphenated UUID string.
pub open spec fn is_hyphen_position(i: int) -> bool {
    i == 8 || i == 13 || i == 18 || i == 23
}

/// A string of 36 characters with hyphens where a hyphenated UUID has them.
pub open spec fn has_uuid_hyphens(s: Seq<char>) -> bool {
    &&& s.len() == 36
    &&& forall|i: int| 0 <= i < 36 && is_hyphen_position(i) ==> s[i] == '-'
}

/// Whether the first 32 characters of `id` are hex digits.
pub open spec fn hex_prefix(id: Seq<char>) -> bool {
    forall|i: int| 0 <= i < 32 ==> is_hex(#[trigger] id[i])
}

/// A UUID string of the form `xxxxxxxx-xxxx-xxxx-xxxx-xxxxxxxxxxxx`.
pub open spec fn is_hyphenated_hex(s: Seq<char>) -> bool {
    &&& s.len() == 36
    &&& forall|i: int|
        0 <= i < 36 ==> if is_hyphen_position(i) {
            s[i] == '-'
        } else {
            is_hex(#[trigger] s[i])
        }
}

/// The hex digits of a hyphenated UUID string, hyphens left out.
pub open spec fn hex_digits(s: Seq<char>) -> Seq<char> {
    s.subrange(0, 8) + s.subrange(9, 13) + s.subrange(14, 18) + s.subrange(19, 23) + s.subrange(
        24,
        36,
    )
}

/// The sixteen bytes that pairs of hex digits stand for, high digit first.
pub open spec fn hex_bytes(d: Seq<char>) -> Seq<u8> {
    Seq::new(16, |i: int| (hex_value(d[2 * i]) * 16 + hex_value(d[2 * i + 1])) as u8)
}

/// The outcome of parsing a UUID: its bytes, or the text of the error.
pub type UuidParse = Result<Seq<u8>, Seq<char>>;

/// What `uuid::Uuid::parse_str` gives for a string: the UUID's bytes, or the
/// text of its error.
pub uninterp spec fn uuid_parse(s: Seq<char>) -> Result<Seq<u8>, Seq<char>>;

/// Calls `uuid::Uuid::parse_str`, giving the UUID's bytes or its error's text.
/// The result is `uuid_parse` of the input; for a hyphenated string of hex
/// digits it is the bytes those digits stand for; a string of that shape with
/// a character that is not a hex digit is refused, and so is any string with a
/// character outside ASCII. What it gives for the other forms it accepts, and
/// the texts of its errors, are left to the name.
#[verifier::external_body]
fn parse_uuid(s: &str) -> (r: Result<[u8; 16], String>)
    ensures
        r matches Ok(b) ==> uuid_parse(s@) == UuidParse::Ok(b@),
        r matches Err(m) ==> uuid_parse(s@) == UuidParse::Err(m@),
        r matches Ok(b) ==> (is_hyphenated_hex(s@) ==> b@ == hex_bytes(hex_digits(s@))),
        has_uuid_hyphens(s@) ==> (r is Ok <==> is_hyphenated_hex(s@)),
        !is_ascii_chars(s@) ==> r is Err,
{
    match uuid::Uuid::parse_str(s) {
        Ok(u) => Ok(*u.as_bytes()),
        Err(e) => Err(e.to_string()),
    }
}

/// The UUID for a parse result; a parse error is invalid data with its text.
pub fn uuid_from_parse(parsed: Result<[u8; 16], String>) -> (r: Result<Uuid, NetworkError>)
    ensures
        match parsed {
            Ok(b) => r matches Ok(u) && u.bytes@ == b@,
            Err(m) => r matches Err(NetworkError::InvalidData(m2)) && m2@ == m@,
        },
{
    match parsed {
        Ok(b) => Ok(Uuid::from_bytes(b)),
        Err(m) => Err(NetworkError::InvalidData(m)),
    }
}

/// The grouped first 32 characters of an id have their hyphens
/// where a UUID has them, and its hex positions hold the id's first 32
/// characters.
pub proof fn lemma_hyphenated_shape(id: Seq<char>)
    requires
        id.len() >= 32,
    ensures
        has_uuid_hyphens(hyphenated_chars(id)),
        hex_digits(hyphenated_chars(id)) =~= id.subrange(0, 32),
        is_hyphenated_hex(hyphenated_chars(id)) <==> hex_prefix(id),
{
    let h = hyphenated_chars(id);
    reveal_strlit("-");
    assert(h.len() == 36);
    assert forall|i: int| 0 <= i < 36 && is_hyphen_position(i) implies h[i] == '-' by {}
    assert(hex_digits(h) =~= id.subrange(0, 32));
    if hex_prefix(id) {
        assert forall|i: int|
            0 <= i < 36 implies if is_hyphen_position(i) {
            h[i] == '-'
        } else {
            is_hex(#[trigger] h[i])
        } by {
            if !is_hyphen_position(i) {
                if i < 8 {
                    assert(h[i] == id[i]);
                } else if i < 13 {
                    assert(h[i] == id[i - 1]);
                } else if i < 18 {
                    assert(h[i] == id[i - 2]);
                } else if i < 23 {
                    assert(h[i] == id[i - 3]);
                } else {
                    assert(h[i] == id[i - 4]);
                }
            }
        }
    }
    if is_hyphenated_hex(h) {
        assert forall|i: int| 0 <= i < 32 implies is_hex(#[trigger] id[i]) by {
            if i < 8 {
                assert(h[i] == id[i]);
            } else if i < 12 {
                assert(h[i + 1] == id[i]);
            } else if i < 16 {
                assert(h[i + 2] == id[i]);
            } else if i < 20 {
                assert(h[i + 3] == id[i]);
            } else {
                assert(h[i + 4] == id[i]);
            }
        }
    }
}

/// The UUID of a profile from the `id` of its JSON body: a missing id is not
/// found; otherwise the id's first 32 bytes are hyphenated and parsed, so an
/// id whose first 32 characters are hex digits gives the UUID they stand for,
/// and an ASCII id with anything else there is invalid data.
pub fn profile_uuid(id: Option<&str>) -> (r: Result<Uuid, NetworkError>)
    requires
        id matches Some(s) ==> id_splittable(s@),
    ensures
        match id {
            None => r matches Err(NetworkError::NotFound(m)) && m@ == "Id of the user"@,
            Some(s) => {
                &&& match uuid_parse(hyphenated(s@)) {
                    Ok(b) => r matches Ok(u) && u.bytes@ == b,
                    Err(m) => r matches Err(NetworkError::InvalidData(m2)) && m2@ == m,
                }
                &&& (s@.len() >= 32 && hex_prefix(s@)) ==> (r matches Ok(u) && u.bytes@
                    == hex_bytes(s@.subrange(0, 32)))
                &&& (s@.len() >= 32 && is_ascii_chars(s@.subrange(0, 32)) && !hex_prefix(s@))
                    ==> r matches Err(NetworkError::InvalidData(_))
            },
        },
{
    match id {
        None => Err(NetworkError::NotFound("Id of the user".to_owned())),
        Some(s) => {
            let text = hyphenate_id(s);
            proof {
                if s@.len() >= 32 && (hex_prefix(s@) || is_ascii_chars(s@.subrange(0, 32))) {
                    if hex_prefix(s@) {
                        assert(is_ascii_chars(s@.subrange(0, 32)));
                    }
                    lemma_ascii_prefix_hyphenated(s@);
                    lemma_hyphenated_shape(s@);
                }
            }
            uuid_from_parse(parse_uuid(text.as_str()))
        },
    }
}

} // verus!
