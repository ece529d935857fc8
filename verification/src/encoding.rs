//! Base64 text and name-based UUIDs, through the `base64` and `uuid` crates.
use base64::Engine;
use vstd::prelude::*;

verus! {

//=========================================#
//            BASE64                       #
//=========================================#

/// The character of a 6-bit value in the standard base64 alphabet
/// (`A-Z`, `a-z`, `0-9`, `+`, `/`).
pub open spec fn b64_char(v: int) -> char {
    if v < 26 {
        (v + 65) as char
    } else if v < 52 {
        (v - 26 + 97) as char
    } else if v < 62 {
        (v - 52 + 48) as char
    } else if v == 62 {
        '+'
    } else {
        '/'
    }
}

/// Standard base64 with padding (RFC 4648, section 4): each group of three
/// bytes becomes four characters; a final group of one or two bytes is
/// completed with `=`.
pub open spec fn base64_text(b: Seq<u8>) -> Seq<char>
    decreases b.len(),
{
    if b.len() == 0 {
        seq![]
    } else {
        let x = b[0] as int;
        if b.len() == 1 {
            seq![b64_char(x / 4), b64_char((x % 4) * 16), '=', '=']
        } else {
            let y = b[1] as int;
            if b.len() == 2 {
                seq![b64_char(x / 4), b64_char((x % 4) * 16 + y / 16), b64_char((y % 16) * 4), '=']
            } else {
                let z = b[2] as int;
                seq![
                    b64_char(x / 4),
                    b64_char((x % 4) * 16 + y / 16),
                    b64_char((y % 16) * 4 + z / 64),
                    b64_char(z % 64),
                ] + base64_text(b.skip(3))
            }
        }
    }
}

/// Whether the base64 text of `n` bytes has a length that fits in `usize`
/// (the `base64` crate panics otherwise).
pub open spec fn base64_len_fits(n: nat) -> bool {
    4 * ((n + 2) / 3) <= usize::MAX
}

/// Encodes bytes with the `base64` crate's `STANDARD` engine
/// (`Engine::encode`). Trusted: the text is the standard padded base64 of
/// the bytes. That engine panics when the length of the text overflows
/// `usize`, which the precondition excludes.
#[verifier::external_body]
fn base64_standard(bytes: &[u8]) -> (r: String)
    requires
        base64_len_fits(bytes@.len()),
    ensures
        r@ == base64_text(bytes@),
{
    base64::engine::general_purpose::STANDARD.encode(bytes)
}

/// The standard base64 text of `bytes`, or `None` where its length would
/// overflow `usize`.
pub fn encode_base64(bytes: &[u8]) -> (r: Option<String>)
    ensures
        match r {
            Some(s) => base64_len_fits(bytes@.len()) && s@ == base64_text(bytes@),
            None => !base64_len_fits(bytes@.len()),
        },
{
    let n = bytes.len();
    let groups = n / 3 + if n % 3 > 0 {
        1
    } else {
        0
    };
    if groups > usize::MAX / 4 {
        assert(4 * ((n + 2) / 3) > usize::MAX) by (nonlinear_arith)
            requires
                groups == n / 3 + if n % 3 > 0 {
                    1int
                } else {
                    0int
                },
                groups > usize::MAX / 4,
        ;
        return None;
    }
    assert(4 * ((n + 2) / 3) <= usize::MAX) by (nonlinear_arith)
        requires
            groups == n / 3 + if n % 3 > 0 {
                1int
            } else {
                0int
            },
            groups <= usize::MAX / 4,
    ;
    Some(base64_standard(bytes))
}

//=========================================#
//            UUID (VERSION 5)             #
//=========================================#

/// The hyphenated lowercase text of the version 5 (SHA-1, name-based) UUID
/// of `name` in `namespace`.
pub uninterp spec fn uuid_v5(namespace: Seq<u8>, name: Seq<u8>) -> Seq<char>;

/// The version 5 UUID of `name` in `namespace`, by `uuid::Uuid::new_v5`,
/// written as text by its `Display` impl. Trusted: the text is a function of
/// the namespace and the name alone, and has the 36 characters of the
/// hyphenated form.
#[verifier::external_body]
fn uuid_v5_text(namespace: [u8; 16], name: &[u8]) -> (r: String)
    ensures
        r@ == uuid_v5(namespace@, name@),
        r@.len() == 36,
{
    uuid::Uuid::new_v5(&uuid::Uuid::from_bytes(namespace), name).to_string()
}

/// The UUID namespace for domain names (RFC 4122, appendix C).
pub open spec fn namespace_dns() -> Seq<u8> {
    seq![0x6bu8, 0xa7, 0xb8, 0x10, 0x9d, 0xad, 0x11, 0xd1, 0x80, 0xb4, 0x00, 0xc0, 0x4f, 0xd4, 0x30, 0xc8]
}

/// The UUID namespace for ISO object identifiers (RFC 4122, appendix C).
pub open spec fn namespace_oid() -> Seq<u8> {
    seq![0x6bu8, 0xa7, 0xb8, 0x12, 0x9d, 0xad, 0x11, 0xd1, 0x80, 0xb4, 0x00, 0xc0, 0x4f, 0xd4, 0x30, 0xc8]
}

/// The version 5 UUID of `name` in the DNS namespace.
pub fn uuid_v5_dns(name: &[u8]) -> (r: String)
    ensures
        r@ == uuid_v5(namespace_dns(), name@),
{
    let ns: [u8; 16] = [0x6b, 0xa7, 0xb8, 0x10, 0x9d, 0xad, 0x11, 0xd1, 0x80, 0xb4, 0x00, 0xc0, 0x4f, 0xd4, 0x30, 0xc8];
    assert(ns@ =~= namespace_dns());
    uuid_v5_text(ns, name)
}

/// The version 5 UUID of `name` in the OID namespace.
pub fn uuid_v5_oid(name: &[u8]) -> (r: String)
    ensures
        r@ == uuid_v5(namespace_oid(), name@),
{
    let ns: [u8; 16] = [0x6b, 0xa7, 0xb8, 0x12, 0x9d, 0xad, 0x11, 0xd1, 0x80, 0xb4, 0x00, 0xc0, 0x4f, 0xd4, 0x30, 0xc8];
    assert(ns@ =~= namespace_oid());
    uuid_v5_text(ns, name)
}

} // verus!
