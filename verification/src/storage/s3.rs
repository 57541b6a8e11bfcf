//! Identifiers, hashing, request signing and addressing for an S3-compatible
//! endpoint, and the reading of its responses.
use vstd::prelude::*;

use hmac::Mac;
use sha2::Digest;
use vstd::arithmetic::power2::{lemma2_to64, pow2};

use crate::config::Config;
use crate::models::{Duration, FileEntry, FileMetadata, Timestamp, is_clock_reading, is_new_entry, utc_now};
use crate::storage::error::StorageError;
use crate::storage::urlencoding::{encode, url_encoded};
use crate::text::{
    chars_of,
    decimal,
    decimal_string,
    hex_encode,
    hex_lower,
    owned,
    parse_u64,
    parse_u64_spec,
    push_char,
    push_str,
    replace,
    replace_all,
    string_of,
    sub_chars,
    find,
    find_from,
    lemma_find_from_properties,
    occurs_at,
};
use vstd::utf8::encode_utf8;

verus! {

// ---------------------------------------------------------------------------
// Object identifiers
// ---------------------------------------------------------------------------

/// The 32 symbols of Crockford's base-32 alphabet.
pub open spec fn crockford_symbols() -> Seq<char> {
    "0123456789ABCDEFGHJKMNPQRSTVWXYZ"@
}

/// Bit `i` of a byte string, most significant bit of the first byte first;
/// positions past the end read as 0 (the padding of the last group).
pub open spec fn bit_at(b: Seq<u8>, i: int) -> int {
    if 0 <= i && i < 8 * b.len() {
        (b[i / 8] as int / pow2((7 - i % 8) as nat) as int) % 2
    } else {
        0
    }
}

/// The value of the `j`-th group of five bits.
pub open spec fn group_at(b: Seq<u8>, j: int) -> int {
    16 * bit_at(b, 5 * j) + 8 * bit_at(b, 5 * j + 1) + 4 * bit_at(b, 5 * j + 2) + 2 * bit_at(
        b,
        5 * j + 3,
    ) + bit_at(b, 5 * j + 4)
}

/// The number of five-bit groups that cover `n` bytes.
pub open spec fn crockford_len(n: nat) -> nat {
    (8 * n + 4) / 5
}

/// Crockford base-32 encoding without check symbol: the bits of `b`, padded
/// with zero bits to a multiple of five, one symbol per group of five.
pub open spec fn crockford(b: Seq<u8>) -> Seq<char> {
    Seq::new(crockford_len(b.len()), |j: int| crockford_symbols()[group_at(b, j)])
}

/// `2^s` for a bit position within a byte.
fn bit_divisor(s: usize) -> (d: u8)
    requires
        s < 8,
    ensures
        d as int == pow2(s as nat) as int,
        d > 0,
{
    proof {
        lemma2_to64();
    }
    if s == 0 { 1 }
    else if s == 1 { 2 }
    else if s == 2 { 4 }
    else if s == 3 { 8 }
    else if s == 4 { 16 }
    else if s == 5 { 32 }
    else if s == 6 { 64 }
    else { 128 }
}

/// Bit `i` of `b`.
fn bit_of(b: &[u8], i: usize) -> (r: usize)
    ensures
        r as int == bit_at(b@, i as int),
        r < 2,
{
    if i / 8 < b.len() {
        let x = b[i / 8];
        let d = bit_divisor(7 - i % 8);
        ((x / d) % 2) as usize
    } else {
        0
    }
}

/// Crockford base-32 encoding of `bytes`.
pub fn crockford_encode(bytes: &[u8]) -> (r: String)
    requires
        8 * bytes@.len() <= usize::MAX,
    ensures
        r@ == crockford(bytes@),
{
    let alphabet = chars_of("0123456789ABCDEFGHJKMNPQRSTVWXYZ");
    proof {
        reveal_strlit("0123456789ABCDEFGHJKMNPQRSTVWXYZ");
    }
    let n = bytes.len();
    let m = (8 * n + 4) / 5;
    let ghost target = crockford(bytes@);
    let mut r = String::new();
    let mut j = 0usize;
    while j < m
        invariant
            j <= m == crockford_len(n as nat),
            n == bytes@.len(),
            8 * n <= usize::MAX,
            alphabet@ == crockford_symbols(),
            alphabet@.len() == 32,
            target == crockford(bytes@),
            r@ == target.take(j as int),
        decreases m - j,
    {
        let g = 16 * bit_of(bytes, 5 * j) + 8 * bit_of(bytes, 5 * j + 1) + 4 * bit_of(bytes, 5 * j
            + 2) + 2 * bit_of(bytes, 5 * j + 3) + bit_of(bytes, 5 * j + 4);
        assert(g as int == group_at(bytes@, j as int));
        push_char(&mut r, alphabet[g]);
        assert(target.take(j + 1) == target.take(j as int).push(target[j as int]));
        j = j + 1;
    }
    assert(target.take(m as int) == target);
    r
}

/// Whether `b` holds the bytes of a version 4 (random) UUID: sixteen bytes,
/// version 4 in the high half of byte 6, the RFC 4122 variant (`10`) in the
/// top bits of byte 8.
pub open spec fn is_uuid_v4(b: Seq<u8>) -> bool {
    &&& b.len() == 16
    &&& b[6] / 16 == 4
    &&& b[8] / 64 == 2
}

/// `uuid::Uuid::new_v4`: the bytes of a random UUID. Their values depend on
/// chance; what is stated is what `new_v4` sets in every one of them: the
/// version and variant bits.
#[verifier::external_body]
fn random_uuid_bytes() -> (r: Vec<u8>)
    ensures
        is_uuid_v4(r@),
{
    uuid::Uuid::new_v4().as_bytes().to_vec()
}

/// The number of symbols of an object identifier.
pub open spec fn id_len() -> nat {
    12
}

/// The identifier made from the bytes `b`: the first twelve symbols of their
/// Crockford base-32 encoding (their first 60 bits).
pub open spec fn short_id(b: Seq<u8>) -> Seq<char> {
    crockford(b).take(id_len() as int)
}

/// A fresh object identifier: twelve Crockford base-32 symbols taken from a
/// random (version 4) UUID.
pub fn generate_id() -> (r: String)
    ensures
        exists|b: Seq<u8>| is_uuid_v4(b) && r@ == #[trigger] short_id(b),
        r@.len() == id_len(),
{
    let bytes = random_uuid_bytes();
    short_id_of(bytes.as_slice())
}

/// The identifier made from the sixteen bytes of a UUID: the first twelve
/// symbols of their Crockford base-32 encoding.
pub fn short_id_of(bytes: &[u8]) -> (r: String)
    requires
        bytes@.len() == 16,
    ensures
        r@ == short_id(bytes@),
        r@.len() == id_len(),
{
    let full = crockford_encode(bytes);
    let cs = chars_of(full.as_str());
    assert(crockford(bytes@).len() == 26);
    string_of(&cs, 0, 12)
}

// ---------------------------------------------------------------------------
// Hashing
// ---------------------------------------------------------------------------

/// The SHA-256 digest of a byte string.
pub uninterp spec fn sha256_of(data: Seq<u8>) -> Seq<u8>;

/// The HMAC-SHA256 tag of `data` under `key`.
pub uninterp spec fn hmac_sha256_of(key: Seq<u8>, data: Seq<u8>) -> Seq<u8>;

/// `sha2::Sha256::digest`: the contract names the digest of the argument,
/// which is 32 bytes long (the output size of SHA-256).
#[verifier::external_body]
fn sha256_digest(data: &[u8]) -> (r: Vec<u8>)
    ensures
        r@ == sha256_of(data@),
        r@.len() == 32,
{
    sha2::Sha256::digest(data).to_vec()
}

/// HMAC-SHA256 of `data` under `key` (`hmac::Hmac<Sha256>`: keyed with
/// `new_from_slice`, which takes a key of any length, fed `data`, finalized).
/// The contract names the tag of the two arguments, which is 32 bytes long
/// (the output size of the hash).
#[verifier::external_body]
pub(crate) fn hmac_sha256(key: &[u8], data: &[u8]) -> (r: Vec<u8>)
    ensures
        r@ == hmac_sha256_of(key@, data@),
        r@.len() == 32,
{
    let mut mac = hmac::Hmac::<sha2::Sha256>::new_from_slice(key).expect(
        "HMAC can take key of any size",
    );
    mac.update(data);
    mac.finalize().into_bytes().to_vec()
}

/// The SHA-256 digest of `data` in lower-case hex.
pub fn sha256_hex(data: &[u8]) -> (r: String)
    ensures
        r@ == hex_lower(sha256_of(data@)),
        r@.len() == 64,
{
    let d = sha256_digest(data);
    proof {
        crate::laws::law_hex_length(d@);
    }
    hex_encode(d.as_slice())
}

/// The HMAC-SHA256 tag of `data` under `key` in lower-case hex.
pub fn hmac_sha256_hex(key: &[u8], data: &[u8]) -> (r: String)
    ensures
        r@ == hex_lower(hmac_sha256_of(key@, data@)),
        r@.len() == 64,
{
    let t = hmac_sha256(key, data);
    proof {
        crate::laws::law_hex_length(t@);
    }
    hex_encode(t.as_slice())
}

// ---------------------------------------------------------------------------
// Request signing (AWS Signature Version 4, as this client computes it)
// ---------------------------------------------------------------------------

/// The host named by an endpoint: the endpoint with every `https://` and
/// then every `http://` removed.
pub open spec fn host_of(endpoint: Seq<char>) -> Seq<char> {
    replace_all(replace_all(endpoint, "https://"@, ""@), "http://"@, ""@)
}

/// The headers that take part in the signature, `x-amz-acl` among them when
/// the request sets an access control list.
pub open spec fn signed_header_list(acl: bool) -> Seq<char> {
    if acl {
        "host;x-amz-acl;x-amz-content-sha256;x-amz-date"@
    } else {
        "host;x-amz-content-sha256;x-amz-date"@
    }
}

/// The canonical line of the `x-amz-acl` header, when the request sets one.
pub open spec fn acl_line(acl: Option<Seq<char>>) -> Seq<char> {
    match acl {
        Some(a) => "x-amz-acl:"@ + a + "\n"@,
        None => Seq::empty(),
    }
}

/// The canonical request: method, path and query on lines of their own, the
/// canonical headers (each line ended), a blank line, the signed header list
/// and the payload hash.
pub open spec fn canonical_request(
    method: Seq<char>,
    path: Seq<char>,
    query: Seq<char>,
    host: Seq<char>,
    payload_hash: Seq<char>,
    amz_date: Seq<char>,
    acl: Option<Seq<char>>,
) -> Seq<char> {
    method + "\n"@ + path + "\n"@ + query + "\n"@ + "host:"@ + host + "\n"@ + acl_line(acl)
        + "x-amz-content-sha256:"@ + payload_hash + "\nx-amz-date:"@ + amz_date + "\n"@ + "\n"@
        + signed_header_list(acl is Some) + "\n"@ + payload_hash
}

/// The credential scope: `<date>/<region>/s3/aws4_request`.
pub open spec fn credential_scope(date_stamp: Seq<char>, region: Seq<char>) -> Seq<char> {
    date_stamp + "/"@ + region + "/s3/aws4_request"@
}

/// The string to sign: algorithm, time, scope and the hex SHA-256 of the
/// canonical request, one per line.
pub open spec fn string_to_sign(amz_date: Seq<char>, scope: Seq<char>, canonical: Seq<char>) -> Seq<
    char,
> {
    "AWS4-HMAC-SHA256\n"@ + amz_date + "\n"@ + scope + "\n"@ + hex_lower(
        sha256_of(encode_utf8(canonical)),
    )
}

/// The signing key: `AWS4<secret>` chained through HMAC with the date, the
/// region, `s3` and `aws4_request`.
pub open spec fn signing_key(secret: Seq<char>, date_stamp: Seq<char>, region: Seq<char>) -> Seq<u8> {
    let k_date = hmac_sha256_of(encode_utf8("AWS4"@ + secret), encode_utf8(date_stamp));
    let k_region = hmac_sha256_of(k_date, encode_utf8(region));
    let k_service = hmac_sha256_of(k_region, encode_utf8("s3"@));
    hmac_sha256_of(k_service, encode_utf8("aws4_request"@))
}

/// The `Authorization` header value.
pub open spec fn authorization_value(
    access: Seq<char>,
    scope: Seq<char>,
    signature: Seq<char>,
    acl: bool,
) -> Seq<char> {
    "AWS4-HMAC-SHA256 Credential="@ + access + "/"@ + scope + ", SignedHeaders="@
        + signed_header_list(acl) + ", Signature="@ + signature
}

/// The headers that authenticate one request.
#[derive(Debug)]
pub struct SignedHeaders {
    /// `x-amz-date`
    pub amz_date: String,
    /// `x-amz-content-sha256`
    pub content_sha256: String,
    /// `host`
    pub host: String,
    /// `Authorization`
    pub authorization: String,
}

/// Whether `h` holds the headers that sign the request described by the
/// other arguments, at the time given by `amz_date` and `date_stamp`.
pub open spec fn headers_signed(
    h: SignedHeaders,
    method: Seq<char>,
    path: Seq<char>,
    query: Seq<char>,
    payload_hash: Seq<char>,
    endpoint: Seq<char>,
    region: Seq<char>,
    access: Seq<char>,
    secret: Seq<char>,
    amz_date: Seq<char>,
    date_stamp: Seq<char>,
    acl: Option<Seq<char>>,
) -> bool {
    let host = host_of(endpoint);
    let scope = credential_scope(date_stamp, region);
    let canonical = canonical_request(method, path, query, host, payload_hash, amz_date, acl);
    let to_sign = string_to_sign(amz_date, scope, canonical);
    let signature = hex_lower(
        hmac_sha256_of(signing_key(secret, date_stamp, region), encode_utf8(to_sign)),
    );
    &&& h.amz_date@ == amz_date
    &&& h.content_sha256@ == payload_hash
    &&& h.host@ == host
    &&& h.authorization@ == authorization_value(access, scope, signature, acl is Some)
}

/// The host part of an endpoint.
pub fn endpoint_host(endpoint: &str) -> (r: String)
    ensures
        r@ == host_of(endpoint@),
{
    proof {
        reveal_strlit("https://");
        reveal_strlit("http://");
    }
    let e = chars_of(endpoint);
    let once = replace(&e, &chars_of("https://"), "");
    let once_chars = chars_of(once.as_str());
    replace(&once_chars, &chars_of("http://"), "")
}

/// Computes the signing headers of a request made at the time written as
/// `amz_date` (`YYYYMMDDTHHMMSSZ`) and `date_stamp` (`YYYYMMDD`).
pub fn sign_headers(
    method: &str,
    path: &str,
    query: &str,
    payload_hash: &str,
    endpoint: &str,
    region: &str,
    access: &str,
    secret: &str,
    amz_date: &str,
    date_stamp: &str,
    acl: Option<&str>,
) -> (h: SignedHeaders)
    ensures
        headers_signed(
            h,
            method@,
            path@,
            query@,
            payload_hash@,
            endpoint@,
            region@,
            access@,
            secret@,
            amz_date@,
            date_stamp@,
            opt_view(acl),
        ),
{
    let host = endpoint_host(endpoint);

    let mut canonical = owned(method);
    push_str(&mut canonical, "\n");
    push_str(&mut canonical, path);
    push_str(&mut canonical, "\n");
    push_str(&mut canonical, query);
    push_str(&mut canonical, "\n");
    push_str(&mut canonical, "host:");
    push_str(&mut canonical, host.as_str());
    push_str(&mut canonical, "\n");
    let signed_list = match acl {
        Some(a) => {
            push_str(&mut canonical, "x-amz-acl:");
            push_str(&mut canonical, a);
            push_str(&mut canonical, "\n");
            "host;x-amz-acl;x-amz-content-sha256;x-amz-date"
        },
        None => "host;x-amz-content-sha256;x-amz-date",
    };
    push_str(&mut canonical, "x-amz-content-sha256:");
    push_str(&mut canonical, payload_hash);
    push_str(&mut canonical, "\nx-amz-date:");
    push_str(&mut canonical, amz_date);
    push_str(&mut canonical, "\n");
    push_str(&mut canonical, "\n");
    push_str(&mut canonical, signed_list);
    push_str(&mut canonical, "\n");
    push_str(&mut canonical, payload_hash);
    assert(signed_list@ == signed_header_list(acl is Some));
    assert(canonical@ == canonical_request(
        method@,
        path@,
        query@,
        host@,
        payload_hash@,
        amz_date@,
        opt_view(acl),
    ));
    let canonical_hash = sha256_hex(canonical.as_str().as_bytes());

    let mut scope = owned(date_stamp);
    push_str(&mut scope, "/");
    push_str(&mut scope, region);
    push_str(&mut scope, "/s3/aws4_request");

    let mut to_sign = owned("AWS4-HMAC-SHA256\n");
    push_str(&mut to_sign, amz_date);
    push_str(&mut to_sign, "\n");
    push_str(&mut to_sign, scope.as_str());
    push_str(&mut to_sign, "\n");
    push_str(&mut to_sign, canonical_hash.as_str());

    let mut secret_key = owned("AWS4");
    push_str(&mut secret_key, secret);
    let k_date = hmac_sha256(secret_key.as_str().as_bytes(), date_stamp.as_bytes());
    let k_region = hmac_sha256(k_date.as_slice(), region.as_bytes());
    let k_service = hmac_sha256(k_region.as_slice(), "s3".as_bytes());
    let k_signing = hmac_sha256(k_service.as_slice(), "aws4_request".as_bytes());
    let signature = hmac_sha256_hex(k_signing.as_slice(), to_sign.as_str().as_bytes());

    let mut authorization = owned("AWS4-HMAC-SHA256 Credential=");
    push_str(&mut authorization, access);
    push_str(&mut authorization, "/");
    push_str(&mut authorization, scope.as_str());
    push_str(&mut authorization, ", SignedHeaders=");
    push_str(&mut authorization, signed_list);
    push_str(&mut authorization, ", Signature=");
    push_str(&mut authorization, signature.as_str());

    SignedHeaders {
        amz_date: owned(amz_date),
        content_sha256: owned(payload_hash),
        host,
        authorization,
    }
}

// ---------------------------------------------------------------------------
// Clocks
// ---------------------------------------------------------------------------

/// The time formats requests are stamped with, and the one listings show.
pub open spec fn stamp_format(fmt: Seq<char>) -> bool {
    fmt == "%Y%m%dT%H%M%SZ"@ || fmt == "%Y%m%d"@ || fmt == "%Y-%m-%d %H:%M"@
}

/// An instant written in UTC with a `chrono` format string.
pub uninterp spec fn utc_text_of(secs: i64, nanos: u32, fmt: Seq<char>) -> Seq<char>;

/// `chrono::DateTime::<Utc>::format` of the instant `t` (rebuilt with
/// `DateTime::from_timestamp`, which a clock reading never fails), written
/// out with `to_string`. The contract names the text of the instant and the
/// format; UTC needs no time zone or locale.
#[verifier::external_body]
pub(crate) fn utc_text(t: Timestamp, fmt: &str) -> (r: String)
    requires
        is_clock_reading(t),
        stamp_format(fmt@),
    ensures
        r@ == utc_text_of(t.secs, t.nanos, fmt@),
{
    chrono::DateTime::<chrono::Utc>::from_timestamp(t.secs, t.nanos).unwrap().format(fmt).to_string()
}

/// The text of an instant in one of the stamp formats.
pub open spec fn stamp_of(t: Timestamp, fmt: Seq<char>) -> Seq<char> {
    utc_text_of(t.secs, t.nanos, fmt)
}

/// `SystemTime::now().duration_since(UNIX_EPOCH)`: an error, with its
/// message, when the system clock reads earlier than the Unix epoch. It
/// depends on the clock, so nothing is stated of it.
#[verifier::external_body]
fn clock_after_epoch() -> Result<(), String> {
    match std::time::SystemTime::now().duration_since(std::time::UNIX_EPOCH) {
        Ok(_) => Ok(()),
        Err(e) => Err(e.to_string()),
    }
}

// ---------------------------------------------------------------------------
// Addresses
// ---------------------------------------------------------------------------

/// The endpoint requests go to: the configured one, else the AWS
/// virtual-hosted address of the bucket in its region.
pub open spec fn endpoint_for(c: Config) -> Seq<char> {
    match c.endpoint {
        Some(e) => e@,
        None => "https://"@ + c.bucket@ + ".s3."@ + c.region@ + ".amazonaws.com"@,
    }
}

/// The URL of a request: endpoint, path, `?` and query.
pub open spec fn request_url_spec(endpoint: Seq<char>, path: Seq<char>, query: Seq<char>) -> Seq<
    char,
> {
    endpoint + path + "?"@ + query
}

/// The path of an object: `/` and its key.
pub open spec fn object_path_spec(key: Seq<char>) -> Seq<char> {
    "/"@ + key
}

/// The path of an object.
pub fn object_path(key: &str) -> (r: String)
    ensures
        r@ == object_path_spec(key@),
{
    let mut r = owned("/");
    push_str(&mut r, key);
    r
}

/// The URL of a request.
pub fn request_url(endpoint: &str, path: &str, query: &str) -> (r: String)
    ensures
        r@ == request_url_spec(endpoint@, path@, query@),
{
    let mut r = owned(endpoint);
    push_str(&mut r, path);
    push_str(&mut r, "?");
    push_str(&mut r, query);
    r
}

/// The hex SHA-256 of a request body, an absent body hashing as empty.
pub fn payload_hash(body: Option<&[u8]>) -> (r: String)
    ensures
        r@ == hex_lower(
            sha256_of(
                match body {
                    Some(b) => b@,
                    None => Seq::empty(),
                },
            ),
        ),
{
    match body {
        Some(b) => sha256_hex(b),
        None => {
            let empty: Vec<u8> = Vec::new();
            sha256_hex(empty.as_slice())
        },
    }
}

/// The query of a listing: `list-type=2`, then the encoded prefix and the
/// key limit when given.
pub open spec fn list_query_spec(prefix: Option<Seq<char>>, limit: Option<usize>) -> Seq<char> {
    "list-type=2"@ + (match prefix {
        Some(p) => "&prefix="@ + url_encoded(encode_utf8(p)),
        None => Seq::empty(),
    }) + (match limit {
        Some(l) => "&max-keys="@ + decimal(l as nat),
        None => Seq::empty(),
    })
}

/// The query of a listing.
pub fn list_query(prefix: Option<&str>, limit: Option<usize>) -> (r: String)
    ensures
        r@ == list_query_spec(
            match prefix {
                Some(p) => Some(p@),
                None => None,
            },
            limit,
        ),
{
    let mut q = owned("list-type=2");
    let ghost q0 = q@;
    match prefix {
        Some(p) => {
            push_str(&mut q, "&prefix=");
            let e = encode(p);
            push_str(&mut q, e.as_str());
        },
        None => {},
    }
    let ghost q1 = q@;
    match limit {
        Some(l) => {
            push_str(&mut q, "&max-keys=");
            let d = decimal_string(l as u64);
            push_str(&mut q, d.as_str());
        },
        None => {},
    }
    proof {
        let ps: Seq<char> = match prefix {
            Some(p) => "&prefix="@ + url_encoded(encode_utf8(p@)),
            None => Seq::empty(),
        };
        let ls: Seq<char> = match limit {
            Some(l) => "&max-keys="@ + decimal(l as nat),
            None => Seq::empty(),
        };
        assert(q1 == q0 + ps);
        assert(q@ == q1 + ls);
    }
    q
}

/// The `x-amz-copy-source` of a copy: `/<bucket>/<source key>`.
pub open spec fn copy_source_spec(bucket: Seq<char>, src: Seq<char>) -> Seq<char> {
    "/"@ + bucket + "/"@ + src
}

/// The `x-amz-copy-source` of a copy.
pub fn copy_source(bucket: &str, src: &str) -> (r: String)
    ensures
        r@ == copy_source_spec(bucket@, src@),
{
    let mut r = owned("/");
    push_str(&mut r, bucket);
    push_str(&mut r, "/");
    push_str(&mut r, src);
    r
}

/// The expiry of a presigned link as `Duration::as_secs() as i64` writes
/// it: numbers past `i64::MAX` wrap around to negative ones.
pub open spec fn wrapped_seconds_text(secs: u64) -> Seq<char> {
    if secs <= i64::MAX {
        decimal(secs as nat)
    } else {
        "-"@ + decimal((0x1_0000_0000_0000_0000 - secs) as nat)
    }
}

/// The query of a presigned link.
pub open spec fn presign_query_spec(
    access: Seq<char>,
    date_stamp: Seq<char>,
    region: Seq<char>,
    amz_date: Seq<char>,
    secs: u64,
) -> Seq<char> {
    "X-Amz-Algorithm=AWS4-HMAC-SHA256&X-Amz-Credential="@ + url_encoded(encode_utf8(access))
        + "%2F"@ + date_stamp + "%2F"@ + region + "%2Fs3%2Faws4_request&X-Amz-Date="@ + amz_date
        + "&X-Amz-Expires="@ + wrapped_seconds_text(secs) + "&X-Amz-SignedHeaders=host"@
}

/// The canonical request a presigned link signs: a `GET` of the path with
/// the link's query, the `host` header as the one signed header, and an
/// unsigned payload.
pub open spec fn presign_canonical_request(path: Seq<char>, query: Seq<char>, host: Seq<char>) -> Seq<
    char,
> {
    "GET"@ + "\n"@ + path + "\n"@ + query + "\n"@ + "host:"@ + host + "\n"@ + "\n"@ + "host"@
        + "\n"@ + "UNSIGNED-PAYLOAD"@
}

/// The hex signature of a canonical request made at the given time stamps,
/// under the key derived from `secret`.
pub open spec fn request_signature(
    secret: Seq<char>,
    region: Seq<char>,
    date_stamp: Seq<char>,
    amz_date: Seq<char>,
    canonical: Seq<char>,
) -> Seq<char> {
    hex_lower(
        hmac_sha256_of(
            signing_key(secret, date_stamp, region),
            encode_utf8(string_to_sign(amz_date, credential_scope(date_stamp, region), canonical)),
        ),
    )
}

/// The presigned link to an object, given the two time stamps: the
/// endpoint, the object's path, the query, and, when a secret key is given,
/// the query's SigV4 signature as `X-Amz-Signature` (without one the link
/// carries no signature).
pub open spec fn presigned_url_spec(
    endpoint: Seq<char>,
    key: Seq<char>,
    access: Seq<char>,
    secret: Option<Seq<char>>,
    region: Seq<char>,
    date_stamp: Seq<char>,
    amz_date: Seq<char>,
    secs: u64,
) -> Seq<char> {
    let path = object_path_spec(key);
    let query = presign_query_spec(access, date_stamp, region, amz_date, secs);
    let canonical = presign_canonical_request(path, query, host_of(endpoint));
    match secret {
        Some(k) => request_url_spec(
            endpoint,
            path,
            query + "&X-Amz-Signature="@ + request_signature(
                k,
                region,
                date_stamp,
                amz_date,
                canonical,
            ),
        ),
        None => request_url_spec(endpoint, path, query),
    }
}

/// The presigned link to an object for the time given by the two stamps.
pub fn presigned_url(
    endpoint: &str,
    key: &str,
    access: &str,
    secret: Option<&str>,
    region: &str,
    date_stamp: &str,
    amz_date: &str,
    secs: u64,
) -> (r: String)
    ensures
        r@ == presigned_url_spec(
            endpoint@,
            key@,
            access@,
            opt_view(secret),
            region@,
            date_stamp@,
            amz_date@,
            secs,
        ),
{
    let mut q = owned("X-Amz-Algorithm=AWS4-HMAC-SHA256&X-Amz-Credential=");
    let a = encode(access);
    push_str(&mut q, a.as_str());
    push_str(&mut q, "%2F");
    push_str(&mut q, date_stamp);
    push_str(&mut q, "%2F");
    push_str(&mut q, region);
    push_str(&mut q, "%2Fs3%2Faws4_request&X-Amz-Date=");
    push_str(&mut q, amz_date);
    push_str(&mut q, "&X-Amz-Expires=");
    if secs <= 0x7fff_ffff_ffff_ffff {
        let d = decimal_string(secs);
        push_str(&mut q, d.as_str());
    } else {
        push_str(&mut q, "-");
        let d = decimal_string(0xffff_ffff_ffff_ffff - secs + 1);
        push_str(&mut q, d.as_str());
    }
    push_str(&mut q, "&X-Amz-SignedHeaders=host");
    let ghost query = q@;
    let secret = match secret {
        Some(k) => k,
        None => {
            let path = object_path(key);
            return request_url(endpoint, path.as_str(), q.as_str());
        },
    };
    assert(query == presign_query_spec(access@, date_stamp@, region@, amz_date@, secs));
    let path = object_path(key);
    let host = endpoint_host(endpoint);

    let mut canonical = owned("GET");
    push_str(&mut canonical, "\n");
    push_str(&mut canonical, path.as_str());
    push_str(&mut canonical, "\n");
    push_str(&mut canonical, q.as_str());
    push_str(&mut canonical, "\n");
    push_str(&mut canonical, "host:");
    push_str(&mut canonical, host.as_str());
    push_str(&mut canonical, "\n");
    push_str(&mut canonical, "\n");
    push_str(&mut canonical, "host");
    push_str(&mut canonical, "\n");
    push_str(&mut canonical, "UNSIGNED-PAYLOAD");
    assert(canonical@ == presign_canonical_request(path@, query, host_of(endpoint@)));
    let canonical_hash = sha256_hex(canonical.as_str().as_bytes());

    let mut scope = owned(date_stamp);
    push_str(&mut scope, "/");
    push_str(&mut scope, region);
    push_str(&mut scope, "/s3/aws4_request");

    let mut to_sign = owned("AWS4-HMAC-SHA256\n");
    push_str(&mut to_sign, amz_date);
    push_str(&mut to_sign, "\n");
    push_str(&mut to_sign, scope.as_str());
    push_str(&mut to_sign, "\n");
    push_str(&mut to_sign, canonical_hash.as_str());

    let mut secret_key = owned("AWS4");
    push_str(&mut secret_key, secret);
    let k_date = hmac_sha256(secret_key.as_str().as_bytes(), date_stamp.as_bytes());
    let k_region = hmac_sha256(k_date.as_slice(), region.as_bytes());
    let k_service = hmac_sha256(k_region.as_slice(), "s3".as_bytes());
    let k_signing = hmac_sha256(k_service.as_slice(), "aws4_request".as_bytes());
    let signature = hmac_sha256_hex(k_signing.as_slice(), to_sign.as_str().as_bytes());
    assert(scope@ == credential_scope(date_stamp@, region@));
    assert(to_sign@ == string_to_sign(amz_date@, scope@, canonical@));
    assert(k_signing@ == signing_key(secret@, date_stamp@, region@));
    assert(signature@ == request_signature(secret@, region@, date_stamp@, amz_date@, canonical@));

    push_str(&mut q, "&X-Amz-Signature=");
    push_str(&mut q, signature.as_str());
    request_url(endpoint, path.as_str(), q.as_str())
}

// ---------------------------------------------------------------------------
// The endpoint of a bucket
// ---------------------------------------------------------------------------

/// A bucket on an S3-compatible endpoint, with the settings used to sign
/// requests to it.
#[derive(Debug)]
pub struct S3Target {
    pub config: Config,
    pub bucket: String,
    pub endpoint: String,
}

impl S3Target {
    /// The target described by a configuration.
    pub fn new(config: &Config) -> (t: S3Target)
        ensures
            t.config == *config,
            t.bucket@ == config.bucket@,
            t.endpoint@ == endpoint_for(*config),
    {
        let endpoint = match &config.endpoint {
            Some(e) => e.clone(),
            None => {
                let mut e = owned("https://");
                push_str(&mut e, config.bucket.as_str());
                push_str(&mut e, ".s3.");
                push_str(&mut e, config.region.as_str());
                push_str(&mut e, ".amazonaws.com");
                e
            },
        };
        S3Target { config: config.clone(), bucket: config.bucket.clone(), endpoint }
    }

    /// The signing headers of a request made now, stamped with one reading
    /// of the clock. Fails with `IoError` when the system clock reads earlier
    /// than the Unix epoch. `acl`, when given, is the access control list the
    /// request sets with `x-amz-acl`, which the signature then covers.
    pub fn sign_request(
        &self,
        method: &str,
        path: &str,
        query: &str,
        payload_hash: &str,
        acl: Option<&str>,
    ) -> (r: Result<SignedHeaders, StorageError>)
        requires
            self.config.access_key is Some,
            self.config.secret_key is Some,
        ensures
            r matches Ok(h) ==> exists|t: Timestamp|
                is_clock_reading(t) && #[trigger] headers_signed(
                    h,
                    method@,
                    path@,
                    query@,
                    payload_hash@,
                    self.endpoint@,
                    self.config.region@,
                    self.config.access_key->0@,
                    self.config.secret_key->0@,
                    stamp_of(t, "%Y%m%dT%H%M%SZ"@),
                    stamp_of(t, "%Y%m%d"@),
                    opt_view(acl),
                ),
            r matches Err(e) ==> e is IoError,
    {
        match clock_after_epoch() {
            Ok(()) => {},
            Err(m) => return Err(StorageError::IoError(m)),
        }
        proof {
            reveal_strlit("%Y%m%dT%H%M%SZ");
            reveal_strlit("%Y%m%d");
        }
        let now = utc_now();
        let amz_date = utc_text(now, "%Y%m%dT%H%M%SZ");
        let date_stamp = utc_text(now, "%Y%m%d");
        let access = match &self.config.access_key {
            Some(a) => a,
            None => return Err(StorageError::IoError(owned("missing access key"))),
        };
        let secret = match &self.config.secret_key {
            Some(s) => s,
            None => return Err(StorageError::IoError(owned("missing secret key"))),
        };
        let h = sign_headers(
            method,
            path,
            query,
            payload_hash,
            self.endpoint.as_str(),
            self.config.region.as_str(),
            access.as_str(),
            secret.as_str(),
            amz_date.as_str(),
            date_stamp.as_str(),
            acl,
        );
        let ghost signed = h;
        assert(headers_signed(
            signed,
            method@,
            path@,
            query@,
            payload_hash@,
            self.endpoint@,
            self.config.region@,
            self.config.access_key->0@,
            self.config.secret_key->0@,
            stamp_of(now, "%Y%m%dT%H%M%SZ"@),
            stamp_of(now, "%Y%m%d"@),
            opt_view(acl),
        ));
        let res: Result<SignedHeaders, StorageError> = Ok(h);
        assert(res->Ok_0 == signed);
        res
    }

    /// A presigned link to an object, valid for `expires`, stamped and
    /// signed at one reading of the clock; without a configured secret key
    /// the link carries no signature. It always succeeds.
    pub fn presign(&self, key: &str, expires: Duration) -> (r: Result<String, StorageError>)
        requires
            self.config.access_key is Some,
        ensures
            r matches Ok(url) && exists|t: Timestamp|
                is_clock_reading(t) && url@ == #[trigger] presigned_url_spec(
                    self.endpoint@,
                    key@,
                    self.config.access_key->0@,
                    opt_string_view(self.config.secret_key),
                    self.config.region@,
                    stamp_of(t, "%Y%m%d"@),
                    stamp_of(t, "%Y%m%dT%H%M%SZ"@),
                    expires.secs_spec(),
                ),
    {
        proof {
            reveal_strlit("%Y%m%dT%H%M%SZ");
            reveal_strlit("%Y%m%d");
        }
        let access = match &self.config.access_key {
            Some(a) => a.as_str(),
            None => "",
        };
        let secret = match &self.config.secret_key {
            Some(k) => Some(k.as_str()),
            None => None,
        };
        assert(opt_view(secret) == opt_string_view(self.config.secret_key));
        let now = utc_now();
        let date_stamp = utc_text(now, "%Y%m%d");
        let amz_date = utc_text(now, "%Y%m%dT%H%M%SZ");
        let url = presigned_url(
            self.endpoint.as_str(),
            key,
            access,
            secret,
            self.config.region.as_str(),
            date_stamp.as_str(),
            amz_date.as_str(),
            expires.as_secs(),
        );
        assert(url@ == presigned_url_spec(
            self.endpoint@,
            key@,
            self.config.access_key->0@,
            opt_string_view(self.config.secret_key),
            self.config.region@,
            stamp_of(now, "%Y%m%d"@),
            stamp_of(now, "%Y%m%dT%H%M%SZ"@),
            expires.secs_spec(),
        ));
        Ok(url)
    }

    /// The bucket's name.
    pub fn bucket(&self) -> (r: &str)
        ensures
            r@ == self.bucket@,
    {
        self.bucket.as_str()
    }

    /// The name of the storage protocol.
    pub fn provider_name(&self) -> (r: &'static str)
        ensures
            r@ == "s3"@,
    {
        "s3"
    }
}

// ---------------------------------------------------------------------------
// Responses
// ---------------------------------------------------------------------------

/// Whether an HTTP status is a success (`2xx`).
pub open spec fn is_success(status: u16) -> bool {
    200 <= status && status <= 299
}

/// Whether a status means that the object does not exist.
pub open spec fn is_not_found(status: u16) -> bool {
    status == 404
}

/// Whether `s` is an object identifier: twelve Crockford base-32 symbols
/// taken from the bytes of a version 4 UUID.
pub open spec fn is_object_id(s: Seq<char>) -> bool {
    exists|b: Seq<u8>| is_uuid_v4(b) && s == #[trigger] short_id(b)
}

/// The content type an object is uploaded with: the one given, else
/// `application/octet-stream`.
pub fn upload_content_type(metadata: &FileMetadata) -> (r: String)
    ensures
        r@ == match metadata.content_type {
            Some(c) => c@,
            None => "application/octet-stream"@,
        },
{
    match &metadata.content_type {
        Some(c) => c.clone(),
        None => owned("application/octet-stream"),
    }
}

/// A failure reported by the endpoint: `ProviderError` with the message
/// `prefix` followed by the status.
fn provider_failure(prefix: &str, status_text: &str) -> (e: StorageError)
    ensures
        e matches StorageError::ProviderError(m) && m@ == prefix@ + status_text@,
{
    let mut m = owned(prefix);
    push_str(&mut m, status_text);
    StorageError::ProviderError(m)
}

/// The result of an upload of `size` bytes to `key`, given the response
/// status: on success, a new entry named by the identifier in its key.
pub fn put_outcome(status: u16, status_text: &str, key: &str, size: u64, content_type: String) -> (r:
    Result<FileEntry, StorageError>)
    ensures
        !is_success(status) ==> (r matches Err(StorageError::ProviderError(m)) && m@
            == "Upload failed: "@ + status_text@),
        is_success(status) ==> (r matches Ok(e) && is_new_entry(
            e,
            key_id(key@),
            key@,
            size,
            content_type@,
        )),
{
    if !(200 <= status && status <= 299) {
        return Err(provider_failure("Upload failed: ", status_text));
    }
    let id = key_id_of(key);
    let e = FileEntry::new(id, owned(key), size, content_type);
    Ok(e)
}

/// The access control list an upload asks for: `public-read` for a public
/// object, none otherwise.
pub open spec fn upload_acl_spec(m: FileMetadata) -> Option<Seq<char>> {
    if m.is_public {
        Some("public-read"@)
    } else {
        None
    }
}

/// The access control list an upload asks for, sent as `x-amz-acl`.
pub fn upload_acl(metadata: &FileMetadata) -> (r: Option<&'static str>)
    ensures
        opt_view(r) == upload_acl_spec(*metadata),
{
    if metadata.is_public {
        Some("public-read")
    } else {
        None
    }
}

/// The length of a download as its `Content-Length` header gives it: the
/// header's number, or 0 when it is missing or not a number.
pub open spec fn content_length_of(header: Option<Seq<char>>) -> u64 {
    match header {
        Some(h) => match parse_u64_spec(h) {
            Some(n) => n,
            None => 0,
        },
        None => 0,
    }
}

/// The content type of a download: its `Content-Type` header, else
/// `application/octet-stream`.
pub open spec fn content_type_of(header: Option<Seq<char>>) -> Seq<char> {
    match header {
        Some(h) => h,
        None => "application/octet-stream"@,
    }
}

/// The view of an optional header text.
pub open spec fn opt_view(o: Option<&str>) -> Option<Seq<char>> {
    match o {
        Some(s) => Some(s@),
        None => None,
    }
}

/// The result of a download of `key`, given the response status and the
/// `Content-Type` and `Content-Length` headers (absent when unreadable as
/// text): the content type and length of the object.
pub fn get_outcome(
    status: u16,
    status_text: &str,
    key: &str,
    content_type: Option<&str>,
    content_length: Option<&str>,
) -> (r: Result<(String, u64), StorageError>)
    ensures
        is_not_found(status) ==> (r matches Err(StorageError::NotFound(k)) && k@ == key@),
        !is_not_found(status) && !is_success(status) ==> (r matches Err(
            StorageError::ProviderError(m),
        ) && m@ == "Download failed: "@ + status_text@),
        is_success(status) ==> (r matches Ok(v) && v.0@ == content_type_of(opt_view(content_type))
            && v.1 == content_length_of(opt_view(content_length))),
{
    if status == 404 {
        return Err(StorageError::NotFound(owned(key)));
    }
    if !(200 <= status && status <= 299) {
        return Err(provider_failure("Download failed: ", status_text));
    }
    let ct = match content_type {
        Some(c) => owned(c),
        None => owned("application/octet-stream"),
    };
    let len = match content_length {
        Some(h) => {
            let hc = chars_of(h);
            match parse_u64(&hc) {
                Some(n) => n,
                None => 0,
            }
        },
        None => 0,
    };
    Ok((ct, len))
}

/// The result of a deletion: a missing object counts as deleted.
pub fn delete_outcome(status: u16, status_text: &str) -> (r: Result<(), StorageError>)
    ensures
        is_success(status) || is_not_found(status) ==> r is Ok,
        !is_success(status) && !is_not_found(status) ==> (r matches Err(
            StorageError::ProviderError(m),
        ) && m@ == "Delete failed: "@ + status_text@),
{
    if !(200 <= status && status <= 299) && status != 404 {
        return Err(provider_failure("Delete failed: ", status_text));
    }
    Ok(())
}

/// The result of the status of a listing request.
pub fn list_outcome(status: u16, status_text: &str) -> (r: Result<(), StorageError>)
    ensures
        is_success(status) ==> r is Ok,
        !is_success(status) ==> (r matches Err(StorageError::ProviderError(m)) && m@
            == "List failed: "@ + status_text@),
{
    if !(200 <= status && status <= 299) {
        return Err(provider_failure("List failed: ", status_text));
    }
    Ok(())
}

/// The result of a copy request.
pub fn copy_outcome(status: u16, status_text: &str) -> (r: Result<(), StorageError>)
    ensures
        is_success(status) ==> r is Ok,
        !is_success(status) ==> (r matches Err(StorageError::ProviderError(m)) && m@
            == "Copy failed: "@ + status_text@),
{
    if !(200 <= status && status <= 299) {
        return Err(provider_failure("Copy failed: ", status_text));
    }
    Ok(())
}

/// Whether a move goes on to delete its source after the copy: only when
/// the copy succeeded, so that a failed copy loses nothing.
pub fn move_deletes_source(copied: &Result<(), StorageError>) -> (r: bool)
    ensures
        r == copied is Ok,
{
    copied.is_ok()
}

/// The last `/`-separated segment of a key (the whole key when it has no
/// `/`; empty when it ends with one).
pub open spec fn last_segment(s: Seq<char>) -> Seq<char>
    decreases s.len(),
{
    if s.len() == 0 || s.last() == '/' {
        Seq::empty()
    } else {
        last_segment(s.drop_last()).push(s.last())
    }
}

/// The last `/`-separated segment of a key.
pub fn last_segment_of(key: &str) -> (r: String)
    ensures
        r@ == last_segment(key@),
{
    let c = chars_of(key);
    let n = c.len();
    let mut a = n;
    assert(c@.take(n as int) == c@);
    assert(c@.subrange(n as int, n as int) == Seq::<char>::empty());
    while a > 0 && c[a - 1] != '/'
        invariant
            a <= n == c@.len(),
            last_segment(c@) == last_segment(c@.take(a as int)) + c@.subrange(a as int, n as int),
        decreases a,
    {
        let ghost t = c@.take(a as int);
        assert(t.drop_last() == c@.take(a - 1));
        assert(c@.subrange(a - 1, n as int) == seq![c@[a - 1]] + c@.subrange(a as int, n as int));
        a = a - 1;
    }
    assert(last_segment(c@.take(a as int)) == Seq::<char>::empty());
    assert(c@.take(n as int) == c@);
    string_of(&c, a, n)
}

/// The identifier a key names: its last segment up to the first `.` (the
/// whole segment when it has none). A key `uploads/<id>.<ext>` names `<id>`.
pub open spec fn key_id(key: Seq<char>) -> Seq<char> {
    let name = last_segment(key);
    match find_from(name, "."@, 0) {
        Some(i) => name.take(i),
        None => name,
    }
}

/// The identifier a key names.
pub fn key_id_of(key: &str) -> (r: String)
    ensures
        r@ == key_id(key@),
{
    let name = last_segment_of(key);
    let c = chars_of(name.as_str());
    let dot = chars_of(".");
    match find(&c, &dot, 0) {
        Some(i) => {
            proof {
                lemma_find_from_properties(c@, dot@, 0);
            }
            string_of(&c, 0, i)
        },
        None => name,
    }
}

/// The metadata of `key` read from a `HEAD` response with the given status
/// and `Content-Type` and `Cache-Control` headers.
pub fn head_outcome(
    status: u16,
    status_text: &str,
    key: &str,
    content_type: Option<&str>,
    cache_control: Option<&str>,
) -> (r: Result<FileMetadata, StorageError>)
    ensures
        is_not_found(status) ==> (r matches Err(StorageError::NotFound(k)) && k@ == key@),
        !is_not_found(status) && !is_success(status) ==> (r matches Err(
            StorageError::ProviderError(m),
        ) && m@ == "Head failed: "@ + status_text@),
        is_success(status) ==> (r matches Ok(m) && m.original_name@ == last_segment(key@)
            && opt_string_view(m.content_type) == opt_view(content_type) && opt_string_view(
            m.cache_control,
        ) == opt_view(cache_control) && m.content_disposition is None && m.metadata@ == Map::<
            String,
            String,
        >::empty() && m.expires_after is None && !m.is_public),
{
    if status == 404 {
        return Err(StorageError::NotFound(owned(key)));
    }
    if !(200 <= status && status <= 299) {
        return Err(provider_failure("Head failed: ", status_text));
    }
    Ok(
        FileMetadata {
            original_name: last_segment_of(key),
            content_type: match content_type {
                Some(c) => Some(owned(c)),
                None => None,
            },
            cache_control: match cache_control {
                Some(c) => Some(owned(c)),
                None => None,
            },
            content_disposition: None,
            metadata: std::collections::HashMap::new(),
            expires_after: None,
            is_public: false,
        },
    )
}

/// The view of an optional owned string.
pub open spec fn opt_string_view(o: Option<String>) -> Option<Seq<char>> {
    match o {
        Some(s) => Some(s@),
        None => None,
    }
}

// ---------------------------------------------------------------------------
// Listing responses
// ---------------------------------------------------------------------------

/// The size read after the `<Key>` at `ks`: the text between the first
/// `<Size>` from there on and the next `</Size>`, as a number; 0 when a tag
/// is missing or the text is not a number.
pub open spec fn size_field(contents: Seq<char>, ks: int) -> u64 {
    match find_from(contents, "<Size>"@, ks) {
        None => 0,
        Some(ss) => match find_from(contents, "</Size>"@, ss + 6) {
            None => 0,
            Some(se) => match parse_u64_spec(contents.subrange(ss + 6, se)) {
                Some(v) => v,
                None => 0,
            },
        },
    }
}

/// The keys and sizes listed from position `pos` on: each `<Key>…</Key>`
/// in turn, with the size `size_field` reads after it.
pub open spec fn listed_from(contents: Seq<char>, pos: int) -> Seq<(Seq<char>, u64)>
    decreases contents.len() - pos,
    when 0 <= pos <= contents.len()
{
    match find_from(contents, "<Key>"@, pos) {
        None => Seq::empty(),
        Some(ks) => match find_from(contents, "</Key>"@, ks) {
            None => Seq::empty(),
            Some(ke) => if pos < ke + 6 <= contents.len() {
                seq![(contents.subrange(ks + 5, ke), size_field(contents, ks))] + listed_from(
                    contents,
                    ke + 6,
                )
            } else {
                Seq::empty()
            },
        },
    }
}

/// The keys and sizes a listing response names, read from its first
/// `<Contents>` on (none without one).
pub open spec fn list_entries(body: Seq<char>) -> Seq<(Seq<char>, u64)> {
    match find_from(body, "<Contents>"@, 0) {
        None => Seq::empty(),
        Some(c) => listed_from(body.skip(c), 0),
    }
}

/// The view of listed keys and sizes.
pub open spec fn listed_view(v: Seq<(String, u64)>) -> Seq<(Seq<char>, u64)> {
    v.map_values(|p: (String, u64)| (p.0@, p.1))
}

/// A `</Key>` found from a `<Key>` on starts after the `<Key>`.
proof fn lemma_key_close_after_open(c: Seq<char>, ks: int, ke: int)
    requires
        occurs_at(c, "<Key>"@, ks),
        occurs_at(c, "</Key>"@, ke),
        ks <= ke,
    ensures
        ks + 5 <= ke,
{
    reveal_strlit("<Key>");
    reveal_strlit("</Key>");
    if ke < ks + 5 {
        assert(c.subrange(ke, ke + 6)[0] == '<');
        assert(c[ke] == '<');
        assert(c.subrange(ks, ks + 5)[ke - ks] == c[ke]);
        if ke == ks {
            assert(c.subrange(ke, ke + 6)[1] == '/');
            assert(c.subrange(ks, ks + 5)[1] == 'K');
        }
    }
}

/// The size read after the `<Key>` at `ks`.
fn size_at(c: &[char], ks: usize, size_open: &[char], size_close: &[char]) -> (r: u64)
    requires
        size_open@ == "<Size>"@,
        size_close@ == "</Size>"@,
    ensures
        r == size_field(c@, ks as int),
{
    proof {
        reveal_strlit("<Size>");
        reveal_strlit("</Size>");
    }
    match find(c, size_open, ks) {
        None => 0,
        Some(ss) => {
            proof {
                lemma_find_from_properties(c@, size_open@, ks as int);
                assert(size_open@.len() == 6);
                assert(occurs_at(c@, size_open@, ss as int));
                assert(ss + 6 <= c@.len());
                assert(c@.len() == c.len());
            }
            let st = ss + 6;
            match find(c, size_close, st) {
                None => 0,
                Some(se) => {
                    proof {
                        lemma_find_from_properties(c@, size_close@, st as int);
                    }
                    let digits = sub_chars(c, st, se);
                    match parse_u64(&digits) {
                        Some(v) => v,
                        None => 0,
                    }
                },
            }
        },
    }
}

/// The keys and sizes of a listing response.
pub fn scan_list_response(body: &str) -> (r: Vec<(String, u64)>)
    ensures
        listed_view(r@) == list_entries(body@),
{
    proof {
        reveal_strlit("<Contents>");
        reveal_strlit("<Key>");
        reveal_strlit("</Key>");
    }
    let b = chars_of(body);
    let contents_open = chars_of("<Contents>");
    let start = match find(&b, &contents_open, 0) {
        None => {
            let empty: Vec<(String, u64)> = Vec::new();
            assert(listed_view(empty@) =~= Seq::<(Seq<char>, u64)>::empty());
            return empty;
        },
        Some(c) => c,
    };
    proof {
        lemma_find_from_properties(b@, contents_open@, 0);
    }
    let c = sub_chars(&b, start, b.len());
    assert(c@ == body@.skip(start as int));
    assert(list_entries(body@) == listed_from(c@, 0));
    let key_open = chars_of("<Key>");
    let key_close = chars_of("</Key>");
    let size_open = chars_of("<Size>");
    let size_close = chars_of("</Size>");
    let mut acc: Vec<(String, u64)> = Vec::new();
    let mut pos = 0usize;
    let clen = c.len();
    assert(listed_view(acc@) == Seq::<(Seq<char>, u64)>::empty());
    assert(listed_from(c@, 0) == listed_view(acc@) + listed_from(c@, 0));
    loop
        invariant
            pos <= c@.len() == clen,
            key_open@ == "<Key>"@,
            key_close@ == "</Key>"@,
            key_close@.len() == 6,
            size_open@ == "<Size>"@,
            size_close@ == "</Size>"@,
            list_entries(body@) == listed_from(c@, 0),
            listed_from(c@, 0) == listed_view(acc@) + listed_from(c@, pos as int),
        decreases c@.len() - pos,
    {
        let ks = match find(&c, &key_open, pos) {
            None => {
                assert(listed_view(acc@) + Seq::<(Seq<char>, u64)>::empty() == listed_view(acc@));
                return acc;
            },
            Some(k) => k,
        };
        proof {
            lemma_find_from_properties(c@, key_open@, pos as int);
        }
        let ke = match find(&c, &key_close, ks) {
            None => {
                assert(listed_view(acc@) + Seq::<(Seq<char>, u64)>::empty() == listed_view(acc@));
                return acc;
            },
            Some(k) => k,
        };
        proof {
            lemma_find_from_properties(c@, key_close@, ks as int);
            lemma_key_close_after_open(c@, ks as int, ke as int);
        }
        let size = size_at(&c, ks, &size_open, &size_close);
        let key = string_of(&c, ks + 5, ke);
        let ghost before = listed_view(acc@);
        acc.push((key, size));
        proof {
            let item = (c@.subrange(ks + 5, ke as int), size);
            assert(listed_view(acc@) == before.push(item));
            let rest = listed_from(c@, ke + 6);
            assert(before + (seq![item] + rest) == before.push(item) + rest);
        }
        pos = ke + 6;
    }
}

/// The objects a listing response names, each a new entry named by the
/// identifier in its key, with the default content type.
pub fn parse_list_response(body: &str) -> (r: Vec<FileEntry>)
    ensures
        r@.len() == list_entries(body@).len(),
        forall|i: int|
            0 <= i < r@.len() ==> is_new_entry(
                #[trigger] r@[i],
                key_id(list_entries(body@)[i].0),
                list_entries(body@)[i].0,
                list_entries(body@)[i].1,
                "application/octet-stream"@,
            ),
{
    let listed = scan_list_response(body);
    let ghost s = list_entries(body@);
    assert(listed_view(listed@) == s);
    let mut entries: Vec<FileEntry> = Vec::new();
    let n = listed.len();
    let mut i = 0usize;
    while i < n
        invariant
            i <= n == listed@.len(),
            listed_view(listed@) == s,
            entries@.len() == i,
            forall|k: int|
                0 <= k < i ==> is_new_entry(
                    #[trigger] entries@[k],
                    key_id(s[k].0),
                    s[k].0,
                    s[k].1,
                    "application/octet-stream"@,
                ),
        decreases n - i,
    {
        let key = listed[i].0.clone();
        let id = key_id_of(key.as_str());
        let size = listed[i].1;
        assert(s[i as int] == (listed@[i as int].0@, listed@[i as int].1));
        let e = FileEntry::new(id, key, size, owned("application/octet-stream"));
        entries.push(e);
        i = i + 1;
    }
    entries
}

} // verus!
