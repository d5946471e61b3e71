//! Ephemeral TURN credentials, and hashing of identifiers.

use base64::Engine;
use hmac::{Hmac, Mac};
use sha1::Sha1;
use sha2::{Digest, Sha256};
use vstd::arithmetic::power::pow;
use vstd::prelude::*;
use vstd::string::*;
use vstd::utf8::encode_utf8;

use crate::text::{
    decimal, decimal_text, hex_bytes, hex_text, hexadecimal, lemma_decimal_digits,
    lemma_decimal_injective, lemma_hex_bytes_len, lemma_hex_injective, lemma_hex_width,
};
use crate::types::{text_views, TurnCredentials};

verus! {

/// The HMAC-SHA1 tag of a message under a key.
pub uninterp spec fn hmac_sha1(key: Seq<u8>, message: Seq<u8>) -> Seq<u8>;

/// The SHA-256 digest of a byte string.
pub uninterp spec fn sha256(data: Seq<u8>) -> Seq<u8>;

/// The base64 digit of a number below 64, in the standard alphabet.
pub open spec fn base64_digit(n: nat) -> char {
    if n < 26 {
        ('A' as nat + n) as char
    } else if n < 52 {
        ('a' as nat + n - 26) as char
    } else if n < 62 {
        ('0' as nat + n - 52) as char
    } else if n == 62 {
        '+'
    } else {
        '/'
    }
}

/// The number that three bytes make, most significant byte first.
pub open spec fn three_bytes(a: u8, b: u8, c: u8) -> nat {
    (a as nat) * 65536 + (b as nat) * 256 + c as nat
}

/// The first `count` of the four base64 digits of a number below 2^24.
pub open spec fn base64_digits(n: nat, count: nat) -> Seq<char> {
    seq![
        base64_digit(n / 262144),
        base64_digit(n / 4096 % 64),
        base64_digit(n / 64 % 64),
        base64_digit(n % 64),
    ].take(count as int)
}

/// A byte string in base64, with the standard alphabet and padding: four digits for every
/// three bytes, and equals signs in place of the digits that a last short group lacks.
pub open spec fn base64_standard(data: Seq<u8>) -> Seq<char>
    decreases data.len(),
{
    if data.len() == 0 {
        Seq::empty()
    } else if data.len() == 1 {
        base64_digits(three_bytes(data[0], 0, 0), 2) + seq!['=', '=']
    } else if data.len() == 2 {
        base64_digits(three_bytes(data[0], data[1], 0), 3) + seq!['=']
    } else {
        base64_digits(three_bytes(data[0], data[1], data[2]), 4) + base64_standard(data.skip(3))
    }
}

/// Base64 takes four characters for every three bytes begun.
pub proof fn lemma_base64_len(data: Seq<u8>)
    ensures
        base64_standard(data).len() == (data.len() + 2) / 3 * 4,
    decreases data.len(),
{
    if data.len() > 2 {
        lemma_base64_len(data.skip(3));
    }
}

/// `hmac::Hmac::<sha1::Sha1>`, fed one message: its tag, which is 20 bytes long. Any
/// key length is accepted.
///
/// The TURN REST API mandates HMAC-SHA1; its security does not depend on the hash's
/// collision resistance, and another hash would break coturn compatibility.
#[verifier::external_body]
fn tag(key: &[u8], message: &[u8]) -> (mac: Vec<u8>)
    ensures
        mac@ == hmac_sha1(key@, message@),
        mac@.len() == 20,
{
    let mut mac = Hmac::<Sha1>::new_from_slice(key).expect("HMAC accepts any key length");
    mac.update(message);
    mac.finalize().into_bytes().to_vec()
}

/// `sha2::Sha256`, fed one byte string: its digest, which is 32 bytes long.
#[verifier::external_body]
fn digest(data: &[u8]) -> (hash: Vec<u8>)
    ensures
        hash@ == sha256(data@),
        hash@.len() == 32,
{
    let mut hasher = Sha256::new();
    hasher.update(data);
    hasher.finalize().to_vec()
}

/// `base64::Engine::encode` of the `STANDARD` engine: the standard alphabet of RFC 4648,
/// most significant bits first, padded to whole groups of four. It panics where the length of
/// the encoding does not fit a machine word, so longer inputs are left out.
#[verifier::external_body]
fn to_base64(data: &[u8]) -> (text: String)
    requires
        data@.len() <= usize::MAX / 4,
    ensures
        text@ == base64_standard(data@),
{
    base64::engine::general_purpose::STANDARD.encode(data)
}

/// `hex::encode`: two lowercase hexadecimal digits per byte.
#[verifier::external_body]
fn to_hex(data: &[u8]) -> (text: String)
    ensures
        text@ == hex_bytes(data@),
{
    hex::encode(data)
}

/// `rand::random`: any number at all.
#[verifier::external_body]
fn random_number() -> (n: u64)
{
    rand::random::<u64>()
}

/// The user name of credentials: when they expire, and a random id.
pub open spec fn turn_username(expires: u64, random_id: u64) -> Seq<char> {
    decimal_text(expires as nat) + seq![':'] + hex_text(random_id as nat, 16)
}

/// `<scheme>:<host>:<port>`.
pub open spec fn server_url(scheme: Seq<char>, host: Seq<char>, port: u16) -> Seq<char> {
    scheme + seq![':'] + host + seq![':'] + decimal_text(port as nat)
}

/// The servers that credentials are good for.
pub open spec fn turn_urls(host: Seq<char>, port: u16) -> Seq<Seq<char>> {
    seq![
        server_url("turn"@, host, port),
        server_url("turn"@, host, port) + "?transport=udp"@,
        server_url("stun"@, host, port),
    ]
}

/// Whether credentials are the ones for this secret, server, lifetime, expiry and id.
pub open spec fn are_credentials(
    creds: TurnCredentials,
    secret: Seq<char>,
    host: Seq<char>,
    port: u16,
    ttl_secs: u64,
    expires: u64,
    random_id: u64,
) -> bool {
    &&& text_views(creds.urls@) == turn_urls(host, port)
    &&& creds.username@ == turn_username(expires, random_id)
    &&& creds.credential@ == base64_standard(
        hmac_sha1(encode_utf8(secret), encode_utf8(creds.username@)),
    )
    &&& creds.ttl_secs == ttl_secs
}

/// Puts `<scheme>:<host>:<port>` together.
fn url_for(scheme: &str, host: &str, port: u16) -> (url: String)
    ensures
        url@ == server_url(scheme@, host@, port),
{
    proof {
        reveal_strlit(":");
        assert(":"@ =~= seq![':']);
    }
    scheme.to_owned().concat(":").concat(host).concat(":").concat(decimal(port as u64).as_str())
}

/// The credentials with a given expiry and id.
///
/// username = "<expires_unix>:<random_id>"
/// credential = base64(HMAC-SHA1(secret, username))
pub fn credentials_for(
    secret: &str,
    host: &str,
    port: u16,
    ttl_secs: u64,
    expires: u64,
    random_id: u64,
) -> (creds: TurnCredentials)
    ensures
        are_credentials(creds, secret@, host@, port, ttl_secs, expires, random_id),
        creds.credential@.len() == 28,
{
    proof {
        reveal_strlit(":");
        assert(":"@ =~= seq![':']);
    }
    let username = decimal(expires).concat(":").concat(hexadecimal(random_id, 16).as_str());
    let mac = tag(secret.as_bytes(), username.as_str().as_bytes());
    let credential = to_base64(mac.as_slice());
    proof {
        lemma_base64_len(mac@);
    }
    let mut urls: Vec<String> = Vec::new();
    urls.push(url_for("turn", host, port));
    urls.push(url_for("turn", host, port).concat("?transport=udp"));
    urls.push(url_for("stun", host, port));
    assert(text_views(urls@) =~= turn_urls(host@, port));
    TurnCredentials { urls, username, credential, ttl_secs }
}

/// Generate ephemeral TURN credentials (TURN REST API spec) that expire `ttl_secs`
/// after `now_secs`, the current Unix time.
///
/// coturn must be configured with `use-auth-secret` and the same `static-auth-secret`.
pub fn generate_credentials(
    secret: &str,
    host: &str,
    port: u16,
    ttl_secs: u64,
    now_secs: u64,
) -> (creds: TurnCredentials)
    requires
        now_secs + ttl_secs <= u64::MAX,
    ensures
        exists|random_id: u64| #[trigger]
            are_credentials(
                creds,
                secret@,
                host@,
                port,
                ttl_secs,
                (now_secs + ttl_secs) as u64,
                random_id,
            ),
        creds.credential@.len() == 28,
{
    let expires: u64 = now_secs + ttl_secs;
    credentials_for(secret, host, port, ttl_secs, expires, random_number())
}

/// Hash a user-supplied identifier with SHA-256 (for cookies, internal keys, etc.)
pub fn hash_id(input: &str) -> (hash: String)
    ensures
        hash@ == hex_bytes(sha256(encode_utf8(input@))),
        hash@.len() == 64,
{
    let bytes = digest(input.as_bytes());
    proof {
        lemma_hex_bytes_len(bytes@);
    }
    to_hex(bytes.as_slice())
}

/// A user name tells its expiry and its id: no two pairs share one.
pub proof fn law_turn_username_is_unique(e1: u64, id1: u64, e2: u64, id2: u64)
    requires
        turn_username(e1, id1) == turn_username(e2, id2),
    ensures
        e1 == e2,
        id1 == id2,
{
    let name = turn_username(e1, id1);
    lemma_hex_width(id1 as nat, 16);
    lemma_hex_width(id2 as nat, 16);
    assert(name.take(name.len() - 17) =~= decimal_text(e1 as nat));
    assert(name.take(name.len() - 17) =~= decimal_text(e2 as nat));
    lemma_decimal_injective(e1 as nat, e2 as nat);
    assert(name.skip(name.len() - 16) =~= hex_text(id1 as nat, 16));
    assert(name.skip(name.len() - 16) =~= hex_text(id2 as nat, 16));
    assert(pow(16, 16) == 0x1_0000_0000_0000_0000) by {
        reveal_with_fuel(pow, 17);
    }
    lemma_hex_injective(id1 as nat, id2 as nat, 16);
}

/// The expiry stands before the first colon of a user name.
pub proof fn law_turn_username_starts_with_the_expiry(expires: u64, random_id: u64)
    ensures
        ({
            let name = turn_username(expires, random_id);
            let end = decimal_text(expires as nat).len() as int;
            &&& name.take(end) == decimal_text(expires as nat)
            &&& name[end] == ':'
            &&& forall|i: int| 0 <= i < end ==> #[trigger] name[i] != ':'
        }),
{
    let name = turn_username(expires, random_id);
    let text = decimal_text(expires as nat);
    lemma_decimal_digits(expires as nat);
    assert(name.take(text.len() as int) =~= text);
    assert forall|i: int| 0 <= i < text.len() implies #[trigger] name[i] != ':' by {
        assert(name[i] == text[i]);
    }
}

/// The place of a character in the standard alphabet of base64.
pub open spec fn base64_place(c: char) -> nat {
    if 'A' <= c <= 'Z' {
        (c as u32 - 'A' as u32) as nat
    } else if 'a' <= c <= 'z' {
        (26 + c as u32 - 'a' as u32) as nat
    } else if '0' <= c <= '9' {
        (52 + c as u32 - '0' as u32) as nat
    } else if c == '+' {
        62
    } else {
        63
    }
}

/// A digit stands in its place of the alphabet.
pub proof fn law_base64_digits_stand_in_their_place(n: nat)
    requires
        n < 64,
    ensures
        base64_place(base64_digit(n)) == n,
        n == 63 ==> base64_digit(n) == '/',
        n == 62 ==> base64_digit(n) == '+',
        base64_digit(n) != '=',
{
    assert('A' as nat == 65 && 'a' as nat == 97 && '0' as nat == 48);
}

/// Three bytes read back from their four digits, and what they start with does not depend
/// on what follows.
pub proof fn law_base64_reads_back(a: u8, b: u8, c: u8, rest: Seq<u8>)
    ensures
        ({
            let text = base64_standard(seq![a, b, c] + rest);
            &&& base64_place(text[0]) * 262144 + base64_place(text[1]) * 4096 + base64_place(
                text[2],
            ) * 64 + base64_place(text[3]) == a * 65536 + b * 256 + c
            &&& text.skip(4) == base64_standard(rest)
            &&& text.len() == 4 + base64_standard(rest).len()
        }),
        ({
            let two = base64_standard(seq![a, b]);
            &&& two.len() == 4 && two[3] == '='
            &&& base64_place(two[0]) * 4096 + base64_place(two[1]) * 64 + base64_place(two[2]) == a
                * 1024 + b * 4
        }),
        ({
            let one = base64_standard(seq![a]);
            &&& one.len() == 4 && one[2] == '=' && one[3] == '='
            &&& base64_place(one[0]) * 64 + base64_place(one[1]) == a * 16
        }),
        base64_standard(Seq::empty()).len() == 0,
{
    let data = seq![a, b, c] + rest;
    let n = three_bytes(a, b, c);
    assert(n < 16777216);
    lemma_group(n);
    lemma_group(three_bytes(a, b, 0));
    lemma_group(three_bytes(a, 0, 0));
    assert(data.skip(3) =~= rest);
    assert(base64_standard(data).skip(4) =~= base64_standard(rest));
}

/// The four digits of three bytes, by their places.
proof fn lemma_group(n: nat)
    requires
        n < 16777216,
    ensures
        base64_digits(n, 4).len() == 4,
        base64_place(base64_digits(n, 4)[0]) == n / 262144,
        base64_place(base64_digits(n, 4)[1]) == n / 4096 % 64,
        base64_place(base64_digits(n, 4)[2]) == n / 64 % 64,
        base64_place(base64_digits(n, 4)[3]) == n % 64,
        n == n / 262144 * 262144 + n / 4096 % 64 * 4096 + n / 64 % 64 * 64 + n % 64,
{
    law_base64_digits_stand_in_their_place(n / 262144);
    law_base64_digits_stand_in_their_place(n / 4096 % 64);
    law_base64_digits_stand_in_their_place(n / 64 % 64);
    law_base64_digits_stand_in_their_place(n % 64);
}

} // verus!
