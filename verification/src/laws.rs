//! Properties of the library as a whole, stated over the specifications the
//! functions' contracts use.
use vstd::prelude::*;
use vstd::utf8::encode_utf8;

use crate::commands::{
    ascii_extension,
    ascii_guess,
    guessed_content_type,
    mime_for,
    upload_key,
    glob_match,
    glob_prefix,
    has_wildcard,
    is_wildcard,
    pattern_selects,
    div_round_half_even,
    duration_seconds,
    excess_bits_from,
    f64_value_of,
    size_tenths,
    size_text,
    tenths_text,
    two_pow,
    unit_seconds,
};
use crate::config::providers::{provider_name, provider_named, requires_endpoint_spec, Provider};
use crate::config::settings::{
    init_answered,
    InitStep,
    is_default_config,
    setting_applied,
    setting_value,
    settable_key,
    validation_verdict,
    Config,
    ConfigError,
};
use crate::storage::s3::{
    bit_at, crockford, crockford_len, crockford_symbols, group_at, is_object_id, is_uuid_v4,
    canonical_request, list_entries, listed_from, size_field, opt_string_view, presigned_url_spec, key_id, last_segment, presign_canonical_request, short_id,
};
use crate::storage::urlencoding::{encode_byte, is_unreserved, url_encoded};
use crate::text::{ascii_lower, ascii_lower_char, final_component, is_ascii_text, last_dot, name_extension, simple_path};
use crate::text::{find_from, hex_digit_upper, lemma_find_from_properties, occurs_at, path_extension_of};
use crate::text::{
    all_digits,
    decimal,
    digit_char,
    digit_value,
    digits_value,
    hex_lower,
    is_digit,
    is_lower_alnum,
    is_white_space,
    lowercase_of,
    parse_u64_spec,
    trim,
    trim_end,
    trim_start,
};

verus! {

// ---------------------------------------------------------------------------
// Settings
// ---------------------------------------------------------------------------

proof fn reveal_setting_keys()
    ensures
        "provider"@.len() == 8,
        "endpoint"@.len() == 8,
        "region"@.len() == 6,
        "bucket"@.len() == 6,
        "access_key"@.len() == 10,
        "secret_key"@.len() == 10,
        "default_expiry"@.len() == 14,
        "verify_ssl"@.len() == 10,
        "color"@.len() == 5,
        "provider"@ != "endpoint"@,
        "region"@ != "bucket"@,
        "access_key"@ != "secret_key"@,
        "access_key"@ != "verify_ssl"@,
        "secret_key"@ != "verify_ssl"@,
        "false"@.len() == 5,
        "true"@ != "false"@,
{
    reveal_strlit("provider");
    reveal_strlit("endpoint");
    reveal_strlit("region");
    reveal_strlit("bucket");
    reveal_strlit("access_key");
    reveal_strlit("secret_key");
    reveal_strlit("default_expiry");
    reveal_strlit("verify_ssl");
    reveal_strlit("color");
    reveal_strlit("false");
    reveal_strlit("true");
    assert("provider"@[0] != "endpoint"@[0]);
    assert("region"@[0] != "bucket"@[0]);
    assert("access_key"@[0] != "secret_key"@[0]);
    assert("access_key"@[0] != "verify_ssl"@[0]);
    assert("secret_key"@[0] != "verify_ssl"@[0]);
    assert("true"@.len() != "false"@.len());
}

/// Reading a setting back after setting it gives what was written, for the
/// settings stored as text: endpoint, region, bucket, default expiry, color.
pub proof fn law_setting_read_back(old: Config, new: Config, key: Seq<char>, value: Seq<char>)
    requires
        setting_applied(old, new, key, value),
        key == "endpoint"@ || key == "region"@ || key == "bucket"@ || key == "default_expiry"@
            || key == "color"@,
    ensures
        setting_value(new, key) == Some(value),
{
    reveal_setting_keys();
}

/// Reading the provider back after setting it gives the name of the
/// provider the value stands for.
pub proof fn law_provider_read_back(old: Config, new: Config, value: Seq<char>, p: Provider)
    requires
        setting_applied(old, new, "provider"@, value),
        provider_named(lowercase_of(value)) == Some(p),
    ensures
        setting_value(new, "provider"@) == Some(provider_name(p)),
{
}

/// Reading `verify_ssl` back after setting it gives `false` for the text
/// `false` and `true` for any other text.
pub proof fn law_verify_ssl_read_back(old: Config, new: Config, value: Seq<char>)
    requires
        setting_applied(old, new, "verify_ssl"@, value),
    ensures
        setting_value(new, "verify_ssl"@) == Some(
            if value == "false"@ {
                "false"@
            } else {
                "true"@
            },
        ),
{
    reveal_setting_keys();
}

/// Setting one key leaves what every other key reads unchanged.
pub proof fn law_setting_leaves_others(
    old: Config,
    new: Config,
    key: Seq<char>,
    value: Seq<char>,
    other: Seq<char>,
)
    requires
        setting_applied(old, new, key, value),
        settable_key(key),
        other != key,
    ensures
        setting_value(new, other) == setting_value(old, other),
{
    reveal_setting_keys();
}

/// Every provider's name stands for that provider, and is written in
/// lower-case letters and digits, so that reading it back is exact.
pub proof fn law_provider_name_round_trip(p: Provider)
    ensures
        provider_named(provider_name(p)) == Some(p),
        is_lower_alnum(provider_name(p)),
{
    reveal_strlit("s3");
    reveal_strlit("r2");
    reveal_strlit("backblaze");
    reveal_strlit("minio");
    reveal_strlit("local");
    reveal_strlit("aws");
    reveal_strlit("cloudflare");
    reveal_strlit("b2");
    reveal_strlit("filesystem");
    match p {
        Provider::S3 => {},
        Provider::R2 => {
            assert("r2"@[0] != "s3"@[0]);
            assert("r2"@[0] != "aws"@[0]);
        },
        Provider::Backblaze => {
            assert("backblaze"@[0] != "aws"@[0]);
            assert("backblaze"@[0] != "cloudflare"@[0]);
        },
        Provider::MinIO => {
            assert("minio"@[0] != "local"@[0]);
        },
        Provider::Local => {
            assert("local"@[0] != "minio"@[0]);
            assert("local"@[0] != "aws"@[0]);
            assert("local"@[0] != "cloudflare"@[0]);
        },
    }
}

/// The default configuration never validates: it names no bucket.
pub proof fn law_default_config_invalid(c: Config, r: Result<(), ConfigError>)
    requires
        is_default_config(c),
        validation_verdict(c, r),
    ensures
        r matches Err(ConfigError::MissingField(f)) && f@ == "bucket"@,
{
}

/// A configuration with a bucket, an endpoint and both keys validates,
/// whatever its provider.
pub proof fn law_complete_config_validates(c: Config, r: Result<(), ConfigError>)
    requires
        c.bucket@.len() > 0,
        c.endpoint is Some,
        c.access_key is Some,
        c.secret_key is Some,
        validation_verdict(c, r),
    ensures
        r is Ok,
{
}

/// The local provider needs neither an endpoint nor keys: a bucket is
/// enough.
pub proof fn law_local_needs_only_bucket(c: Config, r: Result<(), ConfigError>)
    requires
        c.provider == Provider::Local,
        c.bucket@.len() > 0,
        validation_verdict(c, r),
    ensures
        r is Ok,
{
}

// ---------------------------------------------------------------------------
// Interactive set-up
// ---------------------------------------------------------------------------

/// The position of a question in the `config init` dialogue.
pub open spec fn init_rank(step: InitStep) -> nat {
    match step {
        InitStep::Provider => 0,
        InitStep::Endpoint => 1,
        InitStep::Region => 2,
        InitStep::Bucket => 3,
        InitStep::AccessKey => 4,
        InitStep::SecretKey => 5,
        InitStep::Done => 6,
    }
}

/// What holds of the configuration `config init` builds, from the default
/// one, when it is about to ask the question `step`: an endpoint is there
/// once the provider needs one and its question is past, and the keys are
/// there once their questions are past (the local provider is not asked).
pub open spec fn init_progress(c: Config, step: InitStep) -> bool {
    let endpoint_given = requires_endpoint_spec(c.provider) ==> c.endpoint is Some;
    match step {
        InitStep::Provider => is_default_config(c),
        InitStep::Endpoint => requires_endpoint_spec(c.provider) && c.access_key is None
            && c.secret_key is None,
        InitStep::Region => endpoint_given && c.access_key is None && c.secret_key is None,
        InitStep::Bucket => endpoint_given && c.access_key is None && c.secret_key is None,
        InitStep::AccessKey => endpoint_given && c.provider != Provider::Local && c.secret_key is None,
        InitStep::SecretKey => endpoint_given && c.provider != Provider::Local && c.access_key is Some,
        InitStep::Done => endpoint_given && (c.provider != Provider::Local ==> c.access_key is Some
            && c.secret_key is Some),
    }
}

/// Each answer of `config init` moves the dialogue to a later question until
/// it is done, so it asks at most six questions.
pub proof fn law_init_moves_on(old: Config, new: Config, step: InitStep, answer: Seq<char>, next: InitStep)
    requires
        init_answered(old, new, step, answer, next),
    ensures
        step != InitStep::Done ==> init_rank(next) > init_rank(step),
        step == InitStep::Done ==> next == InitStep::Done,
{
}

/// Answering a question of `config init` keeps what the dialogue has built
/// so far, from the default configuration on.
pub proof fn law_init_keeps_progress(
    old: Config,
    new: Config,
    step: InitStep,
    answer: Seq<char>,
    next: InitStep,
)
    requires
        init_progress(old, step),
        init_answered(old, new, step, answer, next),
    ensures
        init_progress(new, next),
{
    reveal_setting_keys();
}

/// The configuration a finished `config init` dialogue saves validates
/// exactly when its bucket is not blank: the dialogue asks for the endpoint
/// and the keys whenever the provider needs them.
pub proof fn law_init_result_validates(c: Config, r: Result<(), ConfigError>)
    requires
        init_progress(c, InitStep::Done),
        validation_verdict(c, r),
    ensures
        r is Ok <==> c.bucket@.len() > 0,
{
}

// ---------------------------------------------------------------------------
// Numbers and durations
// ---------------------------------------------------------------------------

/// The decimal representation of a number is a non-empty string of digits
/// that reads back as the number.
pub proof fn law_decimal_round_trip(n: nat)
    ensures
        decimal(n).len() > 0,
        all_digits(decimal(n)),
        digits_value(decimal(n)) == n,
    decreases n,
{
    if n >= 10 {
        law_decimal_round_trip(n / 10);
        let d = digit_char((n % 10) as int);
        let s = decimal(n / 10);
        assert(decimal(n) == s.push(d));
        assert(decimal(n).drop_last() == s);
        assert(digit_value(d) == (n % 10) as int);
        assert(decimal(n).last() == d);
        assert(digits_value(decimal(n)) == digits_value(s) * 10 + digit_value(d));
        assert((n / 10) * 10 + n % 10 == n);
        assert forall|i: int| 0 <= i < decimal(n).len() implies is_digit(#[trigger] decimal(n)[i]) by {
            if i < s.len() {
                assert(decimal(n)[i] == s[i]);
            }
        }
    } else {
        assert(decimal(n).drop_last() =~= Seq::<char>::empty());
        assert(digit_value(digit_char(n as int)) == n as int);
        assert(decimal(n).last() == digit_char(n as int));
        assert(digits_value(decimal(n)) == digits_value(decimal(n).drop_last()) * 10 + digit_value(
            digit_char(n as int),
        ));
    }
}

/// Parsing the decimal representation of a 64-bit number gives it back.
pub proof fn law_parse_decimal(n: u64)
    ensures
        parse_u64_spec(decimal(n as nat)) == Some(n),
{
    law_decimal_round_trip(n as nat);
    assert(is_digit(decimal(n as nat)[0]));
}

/// A duration written as a number followed by a unit reads back as that
/// number of units, in seconds.
pub proof fn law_duration_round_trip(n: u64, u: char)
    requires
        unit_seconds(u) is Some,
    ensures
        duration_seconds(decimal(n as nat) + seq![u]) == Some(n * unit_seconds(u)->0),
{
    let d = decimal(n as nat);
    let t = d + seq![u];
    law_decimal_round_trip(n as nat);
    law_parse_decimal(n);
    assert(is_digit(t[0]));
    assert(!is_white_space(t[0]));
    assert(!is_white_space(t.last()));
    assert(trim_start(t) == t);
    assert(trim_end(t) == t);
    assert(t.drop_last() == d);
}

proof fn lemma_trim_start_idempotent(s: Seq<char>)
    ensures
        trim_start(trim_start(s)) == trim_start(s),
        trim_start(s).len() > 0 ==> !is_white_space(trim_start(s)[0]),
    decreases s.len(),
{
    if s.len() > 0 && is_white_space(s[0]) {
        lemma_trim_start_idempotent(s.drop_first());
    }
}

proof fn lemma_trim_end_idempotent(s: Seq<char>)
    ensures
        trim_end(trim_end(s)) == trim_end(s),
        trim_end(s).len() > 0 ==> !is_white_space(trim_end(s).last()),
    decreases s.len(),
{
    if s.len() > 0 && is_white_space(s.last()) {
        lemma_trim_end_idempotent(s.drop_last());
    }
}

/// `trim_end` keeps a prefix of its argument.
proof fn lemma_trim_end_prefix(s: Seq<char>)
    ensures
        trim_end(s).len() <= s.len(),
        trim_end(s) == s.take(trim_end(s).len() as int),
    decreases s.len(),
{
    if s.len() > 0 && is_white_space(s.last()) {
        lemma_trim_end_prefix(s.drop_last());
        assert(s.drop_last().take(trim_end(s).len() as int) == s.take(trim_end(s).len() as int));
    } else {
        assert(s.take(s.len() as int) == s);
    }
}

/// Trimming twice is trimming once.
pub proof fn law_trim_idempotent(s: Seq<char>)
    ensures
        trim(trim(s)) == trim(s),
{
    let a = trim_start(s);
    let b = trim_end(a);
    lemma_trim_start_idempotent(s);
    lemma_trim_end_idempotent(a);
    lemma_trim_end_prefix(a);
    if b.len() > 0 {
        assert(b[0] == a[0]);
        assert(!is_white_space(b[0]));
    }
    assert(trim_start(b) == b);
}

/// White space around a duration does not change it.
pub proof fn law_duration_ignores_white_space(s: Seq<char>)
    ensures
        duration_seconds(trim(s)) == duration_seconds(s),
{
    law_trim_idempotent(s);
}

// ---------------------------------------------------------------------------
// Sizes
// ---------------------------------------------------------------------------

proof fn lemma_two_pow_small()
    ensures
        two_pow(0) == 1,
        two_pow(10) == 1024,
        two_pow(20) == 1048576,
        two_pow(30) == 1073741824,
        two_pow(53) == 0x20_0000_0000_0000,
{
    reveal_with_fuel(two_pow, 54);
}

/// A whole number of kibibytes below one mebibyte is shown as that number
/// with `.0K`.
pub proof fn law_whole_kibibytes(q: u64)
    requires
        1 <= q < 1024,
    ensures
        size_text((q * 1024) as u64) == decimal(q as nat) + ".0K"@,
{
    lemma_two_pow_small();
    reveal_strlit(".0K");
    reveal_strlit(".");
    reveal_strlit("K");
    let b = (q * 1024) as u64;
    assert(excess_bits_from(b as int, 0) == 0);
    assert(div_round_half_even(b as int, 1) == b as int);
    assert(f64_value_of(b) == b as int);
    assert((10 * b as int) / 1024 == 10 * q as int);
    assert((10 * b as int) % 1024 == 0);
    assert(size_tenths(b, 10) == 10 * q as int);
    assert((10 * q as int) / 10 == q as int);
    assert((10 * q as int) % 10 == 0);
    assert(digit_char(0) == '0');
    assert(tenths_text(10 * q as int) + "K"@ == decimal(q as nat) + ".0K"@);
}

/// Sizes below one kibibyte are shown exactly, in bytes.
pub proof fn law_small_sizes_exact(b: u64)
    requires
        b < 1024,
    ensures
        size_text(b) == decimal(b as nat) + "B"@,
{
    lemma_two_pow_small();
}

// ---------------------------------------------------------------------------
// Identifiers and encodings
// ---------------------------------------------------------------------------

proof fn lemma_bit_range(b: Seq<u8>, i: int)
    ensures
        0 <= bit_at(b, i) <= 1,
{
}

/// Crockford encoding writes one symbol of the alphabet per five bits,
/// rounding up; an identifier made of sixteen bytes has 26 symbols.
pub proof fn law_crockford_shape(b: Seq<u8>)
    ensures
        crockford(b).len() == crockford_len(b.len()),
        forall|i: int| 0 <= i < crockford(b).len() ==> crockford_symbols().contains(
            #[trigger] crockford(b)[i],
        ),
        b.len() == 16 ==> crockford(b).len() == 26,
{
    reveal_strlit("0123456789ABCDEFGHJKMNPQRSTVWXYZ");
    assert forall|i: int| 0 <= i < crockford(b).len() implies crockford_symbols().contains(
        #[trigger] crockford(b)[i],
    ) by {
        lemma_bit_range(b, 5 * i);
        lemma_bit_range(b, 5 * i + 1);
        lemma_bit_range(b, 5 * i + 2);
        lemma_bit_range(b, 5 * i + 3);
        lemma_bit_range(b, 5 * i + 4);
        let g = group_at(b, i);
        assert(0 <= g < 32);
        assert(crockford(b)[i] == crockford_symbols()[g]);
    }
}

/// An object identifier is twelve symbols of the Crockford alphabet.
pub proof fn law_object_id_shape(s: Seq<char>)
    requires
        is_object_id(s),
    ensures
        s.len() == 12,
        forall|i: int| 0 <= i < s.len() ==> crockford_symbols().contains(#[trigger] s[i]),
{
    let b = choose|b: Seq<u8>| is_uuid_v4(b) && s == #[trigger] short_id(b);
    law_crockford_shape(b);
    assert forall|i: int| 0 <= i < s.len() implies crockford_symbols().contains(#[trigger] s[i]) by {
        assert(s[i] == crockford(b)[i]);
    }
}

/// Percent-encoding leaves text made of unreserved characters as it is.
pub proof fn law_encode_keeps_unreserved(bytes: Seq<u8>)
    requires
        forall|i: int| 0 <= i < bytes.len() ==> is_unreserved(#[trigger] bytes[i]),
    ensures
        url_encoded(bytes) == bytes.map_values(|b: u8| b as char),
    decreases bytes.len(),
{
    if bytes.len() > 0 {
        let init = bytes.drop_last();
        assert forall|i: int| 0 <= i < init.len() implies is_unreserved(#[trigger] init[i]) by {
            assert(init[i] == bytes[i]);
        }
        law_encode_keeps_unreserved(init);
        assert(is_unreserved(bytes.last()));
        assert(bytes.map_values(|b: u8| b as char) == init.map_values(|b: u8| b as char).push(
            bytes.last() as char,
        ));
    } else {
        assert(bytes.map_values(|b: u8| b as char) =~= Seq::<char>::empty());
    }
}

/// The value of a hex digit (either case).
pub open spec fn hex_value(c: char) -> int {
    if '0' <= c <= '9' {
        c as int - 48
    } else if 'A' <= c <= 'F' {
        c as int - 55
    } else if 'a' <= c <= 'f' {
        c as int - 87
    } else {
        0
    }
}

/// Percent-decoding: each `%XY` becomes the byte `0xXY`, every other
/// character the byte of its code.
pub open spec fn pct_decoded(s: Seq<char>) -> Seq<u8>
    decreases s.len(),
{
    if s.len() == 0 {
        Seq::empty()
    } else if s[0] == '%' && s.len() >= 3 {
        seq![(16 * hex_value(s[1]) + hex_value(s[2])) as u8] + pct_decoded(s.skip(3))
    } else {
        seq![s[0] as u32 as u8] + pct_decoded(s.drop_first())
    }
}

/// Percent-encoding a concatenation encodes each part in turn.
pub proof fn law_encode_concatenates(a: Seq<u8>, b: Seq<u8>)
    ensures
        url_encoded(a + b) == url_encoded(a) + url_encoded(b),
    decreases b.len(),
{
    if b.len() == 0 {
        assert(a + b =~= a);
        assert(url_encoded(a) + Seq::<char>::empty() =~= url_encoded(a));
    } else {
        law_encode_concatenates(a, b.drop_last());
        assert((a + b).drop_last() =~= a + b.drop_last());
        assert((a + b).last() == b.last());
        assert(url_encoded(a) + url_encoded(b.drop_last()) + encode_byte(b.last()) =~= url_encoded(a)
            + (url_encoded(b.drop_last()) + encode_byte(b.last())));
    }
}

proof fn lemma_decode_one(x: u8, rest: Seq<char>)
    ensures
        pct_decoded(encode_byte(x) + rest) == seq![x] + pct_decoded(rest),
{
    let e = encode_byte(x);
    let s = e + rest;
    if is_unreserved(x) {
        assert(s[0] == x as char);
        assert(s.drop_first() =~= rest);
        assert((x as char) as u32 as u8 == x);
    } else {
        let hi = x as int / 16;
        let lo = x as int % 16;
        assert(s[0] == '%' && s[1] == hex_digit_upper(hi) && s[2] == hex_digit_upper(lo));
        assert(s.skip(3) =~= rest);
        assert(hex_value(hex_digit_upper(hi)) == hi);
        assert(hex_value(hex_digit_upper(lo)) == lo);
        assert((16 * hi + lo) as u8 == x);
    }
}

/// Percent-decoding undoes percent-encoding, so two byte strings with the
/// same encoding are equal.
pub proof fn law_percent_decoding(bytes: Seq<u8>)
    ensures
        pct_decoded(url_encoded(bytes)) == bytes,
    decreases bytes.len(),
{
    if bytes.len() > 0 {
        let head = seq![bytes[0]];
        let tail = bytes.drop_first();
        assert(head + tail =~= bytes);
        law_encode_concatenates(head, tail);
        assert(head.drop_last() =~= Seq::<u8>::empty());
        assert(url_encoded(head.drop_last()) == Seq::<char>::empty());
        assert(head.last() == bytes[0]);
        assert(url_encoded(head) == url_encoded(head.drop_last()) + encode_byte(head.last()));
        assert(Seq::<char>::empty() + encode_byte(bytes[0]) =~= encode_byte(bytes[0]));
        lemma_decode_one(bytes[0], url_encoded(tail));
        law_percent_decoding(tail);
    }
}

/// Percent-encoding never gives two byte strings the same text.
pub proof fn law_encode_injective(a: Seq<u8>, b: Seq<u8>)
    requires
        url_encoded(a) == url_encoded(b),
    ensures
        a == b,
{
    law_percent_decoding(a);
    law_percent_decoding(b);
}

/// Percent-encoding writes every byte as itself or as three characters, so
/// its output is never shorter than its input and at most three times as
/// long.
pub proof fn law_encode_length(bytes: Seq<u8>)
    ensures
        bytes.len() <= url_encoded(bytes).len() <= 3 * bytes.len(),
    decreases bytes.len(),
{
    if bytes.len() > 0 {
        law_encode_length(bytes.drop_last());
        assert(encode_byte(bytes.last()).len() == 1 || encode_byte(bytes.last()).len() == 3);
    }
}

/// Hex encoding writes two characters per byte; a SHA-256 digest of 32
/// bytes becomes 64 characters.
pub proof fn law_hex_length(b: Seq<u8>)
    ensures
        hex_lower(b).len() == 2 * b.len(),
    decreases b.len(),
{
    if b.len() > 0 {
        law_hex_length(b.drop_last());
    }
}

// ---------------------------------------------------------------------------
// Listing patterns
// ---------------------------------------------------------------------------

proof fn lemma_glob_starts_with_prefix(p: Seq<char>, k: Seq<char>)
    requires
        glob_match(p, k),
    ensures
        glob_prefix(p).len() <= k.len(),
        k.take(glob_prefix(p).len() as int) == glob_prefix(p),
    decreases p.len(),
{
    if p.len() > 0 && !is_wildcard(p[0]) {
        lemma_glob_starts_with_prefix(p.drop_first(), k.drop_first());
        let rest = glob_prefix(p.drop_first());
        assert(k.take(1 + rest.len() as int) =~= seq![k[0]] + k.drop_first().take(rest.len() as int));
    } else {
        assert(k.take(0) =~= Seq::<char>::empty());
    }
}

proof fn lemma_plain_pattern_is_prefix(p: Seq<char>)
    requires
        !has_wildcard(p),
    ensures
        glob_prefix(p) == p,
    decreases p.len(),
{
    if p.len() > 0 {
        assert(!is_wildcard(p[0]));
        assert forall|i: int| 0 <= i < p.drop_first().len() implies !is_wildcard(
            #[trigger] p.drop_first()[i],
        ) by {
            assert(p.drop_first()[i] == p[i + 1]);
        }
        lemma_plain_pattern_is_prefix(p.drop_first());
        assert(seq![p[0]] + p.drop_first() =~= p);
    }
}

/// Every key a listing pattern selects begins with the prefix the listing
/// asks the storage for, so narrowing the request by that prefix loses no
/// selected key.
pub proof fn law_pattern_within_prefix(p: Seq<char>, k: Seq<char>)
    requires
        pattern_selects(p, k),
    ensures
        glob_prefix(p).len() <= k.len(),
        k.take(glob_prefix(p).len() as int) == glob_prefix(p),
{
    if has_wildcard(p) {
        lemma_glob_starts_with_prefix(p, k);
    } else {
        lemma_plain_pattern_is_prefix(p);
    }
}

/// `*` matches any key at all.
pub proof fn law_star_matches_all(k: Seq<char>)
    ensures
        glob_match(seq!['*'], k),
    decreases k.len(),
{
    let star = seq!['*'];
    assert(star.len() == 1 && star[0] == '*');
    assert(star.drop_first() =~= Seq::<char>::empty());
    if k.len() > 0 {
        law_star_matches_all(k.drop_first());
        assert(glob_match(star, k.drop_first()));
    } else {
        assert(glob_match(star.drop_first(), k));
    }
}

// ---------------------------------------------------------------------------
// Keys
// ---------------------------------------------------------------------------

/// The name of a key holds no `/`, and is the whole key when the key has
/// none.
pub proof fn law_last_segment(s: Seq<char>)
    ensures
        !last_segment(s).contains('/'),
        !s.contains('/') ==> last_segment(s) == s,
        last_segment(s).len() <= s.len(),
    decreases s.len(),
{
    if s.len() > 0 {
        let init = s.drop_last();
        law_last_segment(init);
        if s.last() != '/' {
            let r = last_segment(init).push(s.last());
            assert forall|i: int| 0 <= i < r.len() implies r[i] != '/' by {
                if i < r.len() - 1 {
                    assert(r[i] == last_segment(init)[i]);
                }
            }
            if !s.contains('/') {
                assert forall|i: int| 0 <= i < init.len() implies init[i] != '/' by {
                    assert(init[i] == s[i]);
                }
                assert(s == init.push(s.last()));
            }
        } else {
            assert(s.contains('/')) by {
                assert(s[s.len() - 1] == '/');
            }
        }
    }
}

proof fn lemma_symbols_not_separators(s: Seq<char>)
    requires
        is_object_id(s),
    ensures
        !s.contains('/'),
        !s.contains('.'),
{
    law_object_id_shape(s);
    reveal_strlit("0123456789ABCDEFGHJKMNPQRSTVWXYZ");
    let a = crockford_symbols();
    assert forall|j: int| 0 <= j < a.len() implies '0' <= #[trigger] a[j] by {
        assert(a[j] == "0123456789ABCDEFGHJKMNPQRSTVWXYZ"@[j]);
    }
    assert forall|i: int| 0 <= i < s.len() implies '0' <= #[trigger] s[i] by {
        assert(a.contains(s[i]));
    }
}

proof fn lemma_last_segment_after_slash(a: Seq<char>, b: Seq<char>)
    requires
        !b.contains('/'),
    ensures
        last_segment(a + seq!['/'] + b) == b,
    decreases b.len(),
{
    let s = a + seq!['/'] + b;
    if b.len() == 0 {
        assert(s.last() == '/');
    } else {
        assert(s.drop_last() =~= a + seq!['/'] + b.drop_last());
        assert(s.last() == b.last());
        assert(b.last() != '/') by {
            if b.last() == '/' {
                assert(b[b.len() - 1] == '/');
            }
        }
        assert(!b.drop_last().contains('/')) by {
            if b.drop_last().contains('/') {
                let i = choose|i: int| 0 <= i < b.drop_last().len() && b.drop_last()[i] == '/';
                assert(b[i] == '/');
            }
        }
        lemma_last_segment_after_slash(a, b.drop_last());
        assert(b.drop_last().push(b.last()) =~= b);
    }
}

proof fn lemma_dot_search(id: Seq<char>, rest: Seq<char>)
    requires
        !id.contains('.'),
        rest.len() == 0 || rest[0] == '.',
    ensures
        rest.len() == 0 ==> find_from(id + rest, "."@, 0) is None,
        rest.len() > 0 ==> find_from(id + rest, "."@, 0) == Some(id.len() as int),
{
    reveal_strlit(".");
    let s = id + rest;
    lemma_find_from_properties(s, "."@, 0);
    assert forall|k: int| 0 <= k < id.len() implies !occurs_at(s, "."@, k) by {
        if occurs_at(s, "."@, k) {
            assert(s.subrange(k, k + 1)[0] == s[k]);
            assert(id[k] == '.');
        }
    }
    if rest.len() > 0 {
        assert(s.subrange(id.len() as int, id.len() + 1int) =~= "."@);
        assert(occurs_at(s, "."@, id.len() as int));
    } else {
        assert(s =~= id);
    }
}

/// The key an upload is stored under names the upload's identifier, so the
/// entry made for it and the entries a listing reads back carry that
/// identifier (given an extension without `/`, as `Path::extension` gives).
pub proof fn law_upload_key_names_id(name: Seq<char>, id: Seq<char>)
    requires
        is_object_id(id),
        path_extension_of(name) matches Some(e) ==> !e.contains('/'),
    ensures
        key_id(upload_key(name, id)) == id,
{
    reveal_strlit("uploads");
    reveal_strlit("/");
    reveal_strlit(".");
    lemma_symbols_not_separators(id);
    let tail: Seq<char> = match path_extension_of(name) {
        Some(e) => "."@ + e,
        None => Seq::empty(),
    };
    let rest = id + tail;
    assert(upload_key(name, id) =~= "uploads"@ + seq!['/'] + rest);
    assert(!rest.contains('/')) by {
        if rest.contains('/') {
            let i = choose|i: int| 0 <= i < rest.len() && rest[i] == '/';
            if i < id.len() {
                assert(id[i] == '/');
            } else {
                assert(tail[i - id.len()] == '/');
                match path_extension_of(name) {
                    Some(e) => {
                        if i - id.len() > 0 {
                            assert(e[i - id.len() - 1] == '/');
                        }
                    },
                    None => {},
                }
            }
        }
    }
    lemma_last_segment_after_slash("uploads"@, rest);
    lemma_dot_search(id, tail);
    if tail.len() > 0 {
        assert(rest.take(id.len() as int) =~= id);
    }
}

/// A content type is guessed exactly for paths with an extension, and only
/// the lower-cased extension decides which: two paths whose extensions
/// lower-case alike get the same type.
pub proof fn law_content_type_by_extension(p1: Seq<char>, p2: Seq<char>)
    ensures
        guessed_content_type(p1) is Some <==> path_extension_of(p1) is Some,
        (path_extension_of(p1) matches Some(e1) && path_extension_of(p2) matches Some(e2)
            && lowercase_of(e1) == lowercase_of(e2)) ==> guessed_content_type(p1)
            == guessed_content_type(p2),
        path_extension_of(p1) matches Some(e) ==> guessed_content_type(p1) == Some(
            mime_for(lowercase_of(e)),
        ),
{
}

proof fn lemma_final_component_is_suffix(p: Seq<char>)
    ensures
        final_component(p).len() <= p.len(),
        forall|k: int| 0 <= k < final_component(p).len() ==> #[trigger] final_component(p)[k]
            == p[p.len() - final_component(p).len() + k],
        forall|k: int| 0 <= k < final_component(p).len() ==> #[trigger] final_component(p)[k] != '/',
    decreases p.len(),
{
    if p.len() > 0 && p.last() != '/' {
        lemma_final_component_is_suffix(p.drop_last());
    }
}

proof fn lemma_final_component_of_plain(p: Seq<char>)
    requires
        forall|k: int| 0 <= k < p.len() ==> #[trigger] p[k] != '/',
    ensures
        final_component(p) == p,
    decreases p.len(),
{
    if p.len() > 0 {
        lemma_final_component_of_plain(p.drop_last());
        assert(p.drop_last().push(p.last()) =~= p);
    }
}

proof fn lemma_last_dot_bounds(p: Seq<char>)
    ensures
        -1 <= last_dot(p) < p.len(),
        last_dot(p) >= 0 ==> p[last_dot(p)] == '.',
        forall|k: int| last_dot(p) < k < p.len() ==> #[trigger] p[k] != '.',
    decreases p.len(),
{
    if p.len() > 0 && p.last() != '.' {
        lemma_last_dot_bounds(p.drop_last());
        assert forall|k: int| last_dot(p) < k < p.len() implies #[trigger] p[k] != '.' by {
            if k < p.len() - 1 {
                assert(p[k] == p.drop_last()[k]);
            }
        }
    }
}

proof fn lemma_last_dot_append(a: Seq<char>, b: Seq<char>)
    requires
        forall|k: int| 0 <= k < b.len() ==> #[trigger] b[k] != '.',
    ensures
        last_dot(a + b) == last_dot(a),
    decreases b.len(),
{
    if b.len() == 0 {
        assert(a + b =~= a);
    } else {
        assert((a + b).drop_last() =~= a + b.drop_last());
        assert((a + b).last() == b.last());
        lemma_last_dot_append(a, b.drop_last());
    }
}

/// For a simple path whose extension is ASCII, only the lower-cased last
/// extension decides the content type: the path gets the type that the name
/// `x.<lower-cased extension>` gets, and a path without an extension gets
/// none.
pub proof fn law_content_type_by_lowered_extension(p: Seq<char>)
    requires
        simple_path(p),
        ascii_extension(p),
    ensures
        name_extension(final_component(p)) is None ==> ascii_guess(p) is None,
        name_extension(final_component(p)) matches Some(x) ==> {
            let q = "x."@ + ascii_lower(x);
            &&& simple_path(q)
            &&& ascii_extension(q)
            &&& ascii_guess(q) == ascii_guess(p)
        },
{
    let name = final_component(p);
    match name_extension(name) {
        None => {},
        Some(x) => {
            reveal_strlit("x.");
            reveal_strlit(".");
            reveal_strlit("..");
            lemma_final_component_is_suffix(p);
            lemma_last_dot_bounds(name);
            let i = last_dot(name);
            let l = ascii_lower(x);
            let q = "x."@ + l;
            assert forall|k: int| 0 <= k < x.len() implies #[trigger] x[k] != '.' && x[k] != '/'
                && x[k] != '\\' && x[k] != ':' by {
                assert(x[k] == name[i + 1 + k]);
                assert(name[i + 1 + k] == p[p.len() - name.len() + i + 1 + k]);
            }
            assert forall|k: int| 0 <= k < l.len() implies #[trigger] l[k] != '.' && l[k] != '/'
                && l[k] != '\\' && l[k] != ':' && (l[k] as u32) < 128 && ascii_lower_char(l[k])
                == l[k] by {
                assert(l[k] == ascii_lower_char(x[k]));
                assert((x[k] as u32) < 128);
            }
            assert forall|k: int| 0 <= k < q.len() implies #[trigger] q[k] != '/' && q[k] != '\\'
                && q[k] != ':' by {
                if k >= 2 {
                    assert(q[k] == l[k - 2]);
                }
            }
            lemma_final_component_of_plain(q);
            assert(q[0] == 'x');
            assert(q != "."@) by {
                assert(q.len() != "."@.len());
            }
            assert(q != ".."@) by {
                if q == ".."@ {
                    assert(q[0] == ".."@[0]);
                }
            }
            lemma_last_dot_append("x."@, l);
            assert("x."@.last() == '.');
            assert(last_dot("x."@) == 1);
            assert(q.skip(2) =~= l);
            assert(name_extension(q) == Some(l));
            assert(ascii_lower(l) =~= l);
        },
    }
}

/// The content-type table: each extension the client knows maps to its
/// type, `jpg` and `jpeg` alike to `image/jpeg`, `html` and `htm` alike to
/// `text/html`.
pub proof fn law_content_type_table()
    ensures
        mime_for("html"@) == "text/html"@,
        mime_for("htm"@) == "text/html"@,
        mime_for("css"@) == "text/css"@,
        mime_for("js"@) == "application/javascript"@,
        mime_for("json"@) == "application/json"@,
        mime_for("xml"@) == "application/xml"@,
        mime_for("txt"@) == "text/plain"@,
        mime_for("md"@) == "text/markdown"@,
        mime_for("png"@) == "image/png"@,
        mime_for("jpg"@) == "image/jpeg"@,
        mime_for("jpeg"@) == "image/jpeg"@,
        mime_for("gif"@) == "image/gif"@,
        mime_for("svg"@) == "image/svg+xml"@,
        mime_for("pdf"@) == "application/pdf"@,
        mime_for("zip"@) == "application/zip"@,
        mime_for("tar"@) == "application/x-tar"@,
        mime_for("gz"@) == "application/gzip"@,
        mime_for("mp4"@) == "video/mp4"@,
        mime_for("mp3"@) == "audio/mpeg"@,
        mime_for("wav"@) == "audio/wav"@,
        mime_for("ogg"@) == "audio/ogg"@,
{
    reveal_strlit("application/gzip");
    reveal_strlit("application/javascript");
    reveal_strlit("application/json");
    reveal_strlit("application/pdf");
    reveal_strlit("application/x-tar");
    reveal_strlit("application/xml");
    reveal_strlit("application/zip");
    reveal_strlit("audio/mpeg");
    reveal_strlit("audio/ogg");
    reveal_strlit("audio/wav");
    reveal_strlit("css");
    reveal_strlit("gif");
    reveal_strlit("gz");
    reveal_strlit("htm");
    reveal_strlit("html");
    reveal_strlit("image/gif");
    reveal_strlit("image/jpeg");
    reveal_strlit("image/png");
    reveal_strlit("image/svg+xml");
    reveal_strlit("jpeg");
    reveal_strlit("jpg");
    reveal_strlit("js");
    reveal_strlit("json");
    reveal_strlit("md");
    reveal_strlit("mp3");
    reveal_strlit("mp4");
    reveal_strlit("ogg");
    reveal_strlit("pdf");
    reveal_strlit("png");
    reveal_strlit("svg");
    reveal_strlit("tar");
    reveal_strlit("text/css");
    reveal_strlit("text/html");
    reveal_strlit("text/markdown");
    reveal_strlit("text/plain");
    reveal_strlit("txt");
    reveal_strlit("video/mp4");
    reveal_strlit("wav");
    reveal_strlit("xml");
    reveal_strlit("zip");
    assert("htm"@.len() != "html"@.len());
    assert("css"@.len() != "html"@.len());
    assert("js"@.len() != "html"@.len());
    assert("js"@.len() != "htm"@.len());
    assert("js"@.len() != "css"@.len());
    assert("json"@.len() != "htm"@.len());
    assert("json"@.len() != "css"@.len());
    assert("json"@.len() != "js"@.len());
    assert("xml"@.len() != "html"@.len());
    assert("xml"@.len() != "js"@.len());
    assert("xml"@.len() != "json"@.len());
    assert("txt"@.len() != "html"@.len());
    assert("txt"@.len() != "js"@.len());
    assert("txt"@.len() != "json"@.len());
    assert("md"@.len() != "html"@.len());
    assert("md"@.len() != "htm"@.len());
    assert("md"@.len() != "css"@.len());
    assert("md"@.len() != "json"@.len());
    assert("md"@.len() != "xml"@.len());
    assert("md"@.len() != "txt"@.len());
    assert("png"@.len() != "html"@.len());
    assert("png"@.len() != "js"@.len());
    assert("png"@.len() != "json"@.len());
    assert("png"@.len() != "md"@.len());
    assert("jpg"@.len() != "html"@.len());
    assert("jpg"@.len() != "js"@.len());
    assert("jpg"@.len() != "json"@.len());
    assert("jpg"@.len() != "md"@.len());
    assert("jpeg"@.len() != "htm"@.len());
    assert("jpeg"@.len() != "css"@.len());
    assert("jpeg"@.len() != "js"@.len());
    assert("jpeg"@.len() != "xml"@.len());
    assert("jpeg"@.len() != "txt"@.len());
    assert("jpeg"@.len() != "md"@.len());
    assert("jpeg"@.len() != "png"@.len());
    assert("jpeg"@.len() != "jpg"@.len());
    assert("gif"@.len() != "html"@.len());
    assert("gif"@.len() != "js"@.len());
    assert("gif"@.len() != "json"@.len());
    assert("gif"@.len() != "md"@.len());
    assert("gif"@.len() != "jpeg"@.len());
    assert("svg"@.len() != "html"@.len());
    assert("svg"@.len() != "js"@.len());
    assert("svg"@.len() != "json"@.len());
    assert("svg"@.len() != "md"@.len());
    assert("svg"@.len() != "jpeg"@.len());
    assert("pdf"@.len() != "html"@.len());
    assert("pdf"@.len() != "js"@.len());
    assert("pdf"@.len() != "json"@.len());
    assert("pdf"@.len() != "md"@.len());
    assert("pdf"@.len() != "jpeg"@.len());
    assert("zip"@.len() != "html"@.len());
    assert("zip"@.len() != "js"@.len());
    assert("zip"@.len() != "json"@.len());
    assert("zip"@.len() != "md"@.len());
    assert("zip"@.len() != "jpeg"@.len());
    assert("tar"@.len() != "html"@.len());
    assert("tar"@.len() != "js"@.len());
    assert("tar"@.len() != "json"@.len());
    assert("tar"@.len() != "md"@.len());
    assert("tar"@.len() != "jpeg"@.len());
    assert("gz"@.len() != "html"@.len());
    assert("gz"@.len() != "htm"@.len());
    assert("gz"@.len() != "css"@.len());
    assert("gz"@.len() != "json"@.len());
    assert("gz"@.len() != "xml"@.len());
    assert("gz"@.len() != "txt"@.len());
    assert("gz"@.len() != "png"@.len());
    assert("gz"@.len() != "jpg"@.len());
    assert("gz"@.len() != "jpeg"@.len());
    assert("gz"@.len() != "gif"@.len());
    assert("gz"@.len() != "svg"@.len());
    assert("gz"@.len() != "pdf"@.len());
    assert("gz"@.len() != "zip"@.len());
    assert("gz"@.len() != "tar"@.len());
    assert("mp4"@.len() != "html"@.len());
    assert("mp4"@.len() != "js"@.len());
    assert("mp4"@.len() != "json"@.len());
    assert("mp4"@.len() != "md"@.len());
    assert("mp4"@.len() != "jpeg"@.len());
    assert("mp4"@.len() != "gz"@.len());
    assert("mp3"@.len() != "html"@.len());
    assert("mp3"@.len() != "js"@.len());
    assert("mp3"@.len() != "json"@.len());
    assert("mp3"@.len() != "md"@.len());
    assert("mp3"@.len() != "jpeg"@.len());
    assert("mp3"@.len() != "gz"@.len());
    assert("wav"@.len() != "html"@.len());
    assert("wav"@.len() != "js"@.len());
    assert("wav"@.len() != "json"@.len());
    assert("wav"@.len() != "md"@.len());
    assert("wav"@.len() != "jpeg"@.len());
    assert("wav"@.len() != "gz"@.len());
    assert("ogg"@.len() != "html"@.len());
    assert("ogg"@.len() != "js"@.len());
    assert("ogg"@.len() != "json"@.len());
    assert("ogg"@.len() != "md"@.len());
    assert("ogg"@.len() != "jpeg"@.len());
    assert("ogg"@.len() != "gz"@.len());
    assert("css"@[0] != "htm"@[0]);
    assert("json"@[0] != "html"@[0]);
    assert("xml"@[0] != "htm"@[0]);
    assert("xml"@[0] != "css"@[0]);
    assert("txt"@[0] != "htm"@[0]);
    assert("txt"@[0] != "css"@[0]);
    assert("txt"@[0] != "xml"@[0]);
    assert("md"@[0] != "js"@[0]);
    assert("png"@[0] != "htm"@[0]);
    assert("png"@[0] != "css"@[0]);
    assert("png"@[0] != "xml"@[0]);
    assert("png"@[0] != "txt"@[0]);
    assert("jpg"@[0] != "htm"@[0]);
    assert("jpg"@[0] != "css"@[0]);
    assert("jpg"@[0] != "xml"@[0]);
    assert("jpg"@[0] != "txt"@[0]);
    assert("jpg"@[0] != "png"@[0]);
    assert("jpeg"@[0] != "html"@[0]);
    assert("jpeg"@[1] != "json"@[1]);
    assert("gif"@[0] != "htm"@[0]);
    assert("gif"@[0] != "css"@[0]);
    assert("gif"@[0] != "xml"@[0]);
    assert("gif"@[0] != "txt"@[0]);
    assert("gif"@[0] != "png"@[0]);
    assert("gif"@[0] != "jpg"@[0]);
    assert("svg"@[0] != "htm"@[0]);
    assert("svg"@[0] != "css"@[0]);
    assert("svg"@[0] != "xml"@[0]);
    assert("svg"@[0] != "txt"@[0]);
    assert("svg"@[0] != "png"@[0]);
    assert("svg"@[0] != "jpg"@[0]);
    assert("svg"@[0] != "gif"@[0]);
    assert("pdf"@[0] != "htm"@[0]);
    assert("pdf"@[0] != "css"@[0]);
    assert("pdf"@[0] != "xml"@[0]);
    assert("pdf"@[0] != "txt"@[0]);
    assert("pdf"@[1] != "png"@[1]);
    assert("pdf"@[0] != "jpg"@[0]);
    assert("pdf"@[0] != "gif"@[0]);
    assert("pdf"@[0] != "svg"@[0]);
    assert("zip"@[0] != "htm"@[0]);
    assert("zip"@[0] != "css"@[0]);
    assert("zip"@[0] != "xml"@[0]);
    assert("zip"@[0] != "txt"@[0]);
    assert("zip"@[0] != "png"@[0]);
    assert("zip"@[0] != "jpg"@[0]);
    assert("zip"@[0] != "gif"@[0]);
    assert("zip"@[0] != "svg"@[0]);
    assert("zip"@[0] != "pdf"@[0]);
    assert("tar"@[0] != "htm"@[0]);
    assert("tar"@[0] != "css"@[0]);
    assert("tar"@[0] != "xml"@[0]);
    assert("tar"@[1] != "txt"@[1]);
    assert("tar"@[0] != "png"@[0]);
    assert("tar"@[0] != "jpg"@[0]);
    assert("tar"@[0] != "gif"@[0]);
    assert("tar"@[0] != "svg"@[0]);
    assert("tar"@[0] != "pdf"@[0]);
    assert("tar"@[0] != "zip"@[0]);
    assert("gz"@[0] != "js"@[0]);
    assert("gz"@[0] != "md"@[0]);
    assert("mp4"@[0] != "htm"@[0]);
    assert("mp4"@[0] != "css"@[0]);
    assert("mp4"@[0] != "xml"@[0]);
    assert("mp4"@[0] != "txt"@[0]);
    assert("mp4"@[0] != "png"@[0]);
    assert("mp4"@[0] != "jpg"@[0]);
    assert("mp4"@[0] != "gif"@[0]);
    assert("mp4"@[0] != "svg"@[0]);
    assert("mp4"@[0] != "pdf"@[0]);
    assert("mp4"@[0] != "zip"@[0]);
    assert("mp4"@[0] != "tar"@[0]);
    assert("mp3"@[0] != "htm"@[0]);
    assert("mp3"@[0] != "css"@[0]);
    assert("mp3"@[0] != "xml"@[0]);
    assert("mp3"@[0] != "txt"@[0]);
    assert("mp3"@[0] != "png"@[0]);
    assert("mp3"@[0] != "jpg"@[0]);
    assert("mp3"@[0] != "gif"@[0]);
    assert("mp3"@[0] != "svg"@[0]);
    assert("mp3"@[0] != "pdf"@[0]);
    assert("mp3"@[0] != "zip"@[0]);
    assert("mp3"@[0] != "tar"@[0]);
    assert("mp3"@[2] != "mp4"@[2]);
    assert("wav"@[0] != "htm"@[0]);
    assert("wav"@[0] != "css"@[0]);
    assert("wav"@[0] != "xml"@[0]);
    assert("wav"@[0] != "txt"@[0]);
    assert("wav"@[0] != "png"@[0]);
    assert("wav"@[0] != "jpg"@[0]);
    assert("wav"@[0] != "gif"@[0]);
    assert("wav"@[0] != "svg"@[0]);
    assert("wav"@[0] != "pdf"@[0]);
    assert("wav"@[0] != "zip"@[0]);
    assert("wav"@[0] != "tar"@[0]);
    assert("wav"@[0] != "mp4"@[0]);
    assert("wav"@[0] != "mp3"@[0]);
    assert("ogg"@[0] != "htm"@[0]);
    assert("ogg"@[0] != "css"@[0]);
    assert("ogg"@[0] != "xml"@[0]);
    assert("ogg"@[0] != "txt"@[0]);
    assert("ogg"@[0] != "png"@[0]);
    assert("ogg"@[0] != "jpg"@[0]);
    assert("ogg"@[0] != "gif"@[0]);
    assert("ogg"@[0] != "svg"@[0]);
    assert("ogg"@[0] != "pdf"@[0]);
    assert("ogg"@[0] != "zip"@[0]);
    assert("ogg"@[0] != "tar"@[0]);
    assert("ogg"@[0] != "mp4"@[0]);
    assert("ogg"@[0] != "mp3"@[0]);
    assert("ogg"@[0] != "wav"@[0]);
}

/// The canonical request a request is signed over starts with the method,
/// the path and the query, verbatim, each on a line of its own: the query
/// is the third line, so requests that differ in their query are signed
/// over different texts.
pub proof fn law_canonical_request_lines(
    method: Seq<char>,
    path: Seq<char>,
    query: Seq<char>,
    host: Seq<char>,
    payload_hash: Seq<char>,
    amz_date: Seq<char>,
    acl: Option<Seq<char>>,
)
    ensures
        ({
            let c = canonical_request(method, path, query, host, payload_hash, amz_date, acl);
            let a = method.len() as int;
            let b = a + 1 + path.len() as int;
            let d = b + 1 + query.len();
            &&& d < c.len()
            &&& c.take(a) == method
            &&& c[a] == '\n'
            &&& c.subrange(a + 1, b) == path
            &&& c[b] == '\n'
            &&& c.subrange(b + 1, d) == query
            &&& c[d] == '\n'
        }),
{
    reveal_strlit("\n");
    let c = canonical_request(method, path, query, host, payload_hash, amz_date, acl);
    let nl = "\n"@;
    let start = method + nl + path + nl + query + nl;
    let rest = c.skip(start.len() as int);
    assert(c =~= start + rest);
    let a = method.len() as int;
    let b = a + 1 + path.len() as int;
    let d = b + 1 + query.len();
    assert(start.len() == d + 1);
    assert(c.take(a) =~= method);
    assert(c.subrange(a + 1, b) =~= path);
    assert(c.subrange(b + 1, d) =~= query);
}

/// The canonical request of a presigned link likewise holds the link's
/// query, verbatim, as its third line, after `GET` and the path.
pub proof fn law_presign_canonical_lines(path: Seq<char>, query: Seq<char>, host: Seq<char>)
    ensures
        ({
            let c = presign_canonical_request(path, query, host);
            let b = 4 + path.len() as int;
            let d = b + 1 + query.len();
            &&& d < c.len()
            &&& c.take(3) == "GET"@
            &&& c[3] == '\n'
            &&& c.subrange(4, b) == path
            &&& c[b] == '\n'
            &&& c.subrange(b + 1, d) == query
            &&& c[d] == '\n'
        }),
{
    reveal_strlit("\n");
    reveal_strlit("GET");
    let c = presign_canonical_request(path, query, host);
    let nl = "\n"@;
    let start = "GET"@ + nl + path + nl + query + nl;
    let rest = c.skip(start.len() as int);
    assert(c =~= start + rest);
    let b = 4 + path.len() as int;
    let d = b + 1 + query.len();
    assert(c.take(3) =~= "GET"@);
    assert(c.subrange(4, b) =~= path);
    assert(c.subrange(b + 1, d) =~= query);
}

/// Whether `url` is `pre`, the `X-Amz-Expires` parameter with the text `t`,
/// the signed header list, and `post`.
pub open spec fn expiry_field_at(url: Seq<char>, pre: Seq<char>, t: Seq<char>, post: Seq<char>) -> bool {
    url == pre + "&X-Amz-Expires="@ + t + "&X-Amz-SignedHeaders=host"@ + post
}

/// A presigned link asks for exactly the expiry it was made with: for every
/// expiry up to `i64::MAX` seconds, the link carries `X-Amz-Expires=` with a
/// text that reads back as that number of seconds, followed by the signed
/// header list.
pub proof fn law_presigned_expiry(
    endpoint: Seq<char>,
    key: Seq<char>,
    access: Seq<char>,
    secret: Option<Seq<char>>,
    region: Seq<char>,
    date_stamp: Seq<char>,
    amz_date: Seq<char>,
    secs: u64,
)
    requires
        secs <= i64::MAX,
    ensures
        exists|pre: Seq<char>, t: Seq<char>, post: Seq<char>|
            #[trigger] expiry_field_at(
                presigned_url_spec(endpoint, key, access, secret, region, date_stamp, amz_date, secs),
                pre,
                t,
                post,
            ) && parse_u64_spec(t) == Some(secs),
{
    let url = presigned_url_spec(endpoint, key, access, secret, region, date_stamp, amz_date, secs);
    let t = decimal(secs as nat);
    law_parse_decimal(secs);
    let pre = endpoint + ("/"@ + key) + "?"@ + ("X-Amz-Algorithm=AWS4-HMAC-SHA256&X-Amz-Credential="@
        + url_encoded(encode_utf8(access)) + "%2F"@ + date_stamp + "%2F"@ + region
        + "%2Fs3%2Faws4_request&X-Amz-Date="@ + amz_date);
    let post = match secret {
        Some(k) => url.skip((pre + "&X-Amz-Expires="@ + t + "&X-Amz-SignedHeaders=host"@).len() as int),
        None => Seq::<char>::empty(),
    };
    assert(url =~= pre + "&X-Amz-Expires="@ + t + "&X-Amz-SignedHeaders=host"@ + post);
    assert(expiry_field_at(url, pre, t, post));
}

/// Every answer of the `config init` dialogue is taken trimmed: the setting
/// a question fills holds the answer with the white space around it (the
/// line's newline among it) removed.
pub proof fn law_init_answers_trimmed(
    old: Config,
    new: Config,
    step: InitStep,
    answer: Seq<char>,
    next: InitStep,
)
    requires
        init_answered(old, new, step, answer, next),
    ensures
        step == InitStep::Provider && trim(answer).len() > 0 ==> Some(new.provider) == provider_named(
            lowercase_of(trim(answer)),
        ),
        step == InitStep::Endpoint ==> opt_string_view(new.endpoint) == Some(trim(answer)),
        step == InitStep::Region && trim(answer).len() > 0 ==> new.region@ == trim(answer),
        step == InitStep::Bucket ==> new.bucket@ == trim(answer),
        step == InitStep::AccessKey ==> opt_string_view(new.access_key) == Some(trim(answer)),
        step == InitStep::SecretKey ==> opt_string_view(new.secret_key) == Some(trim(answer)),
{
}

/// Whether two configurations hold the same settings.
pub open spec fn same_settings(a: Config, b: Config) -> bool {
    &&& a.provider == b.provider
    &&& opt_string_view(a.endpoint) == opt_string_view(b.endpoint)
    &&& a.region@ == b.region@
    &&& a.bucket@ == b.bucket@
    &&& opt_string_view(a.access_key) == opt_string_view(b.access_key)
    &&& opt_string_view(a.secret_key) == opt_string_view(b.secret_key)
    &&& opt_string_view(a.path) == opt_string_view(b.path)
    &&& a.default_expiry@ == b.default_expiry@
    &&& a.verify_ssl == b.verify_ssl
    &&& a.color@ == b.color@
    &&& a.upload_concurrency == b.upload_concurrency
    &&& a.download_concurrency == b.download_concurrency
    &&& a.part_size@ == b.part_size@
}

/// White space around an answer of `config init` makes no difference: two
/// answers that trim alike (such as a line read with and without its
/// newline) lead to the same settings and the same next question.
pub proof fn law_init_ignores_surrounding_space(
    old: Config,
    n1: Config,
    n2: Config,
    step: InitStep,
    a: Seq<char>,
    b: Seq<char>,
    x1: InitStep,
    x2: InitStep,
)
    requires
        init_answered(old, n1, step, a, x1),
        init_answered(old, n2, step, b, x2),
        trim(a) == trim(b),
    ensures
        same_settings(n1, n2),
        x1 == x2,
{
    reveal_setting_keys();
}

/// A pattern without wildcards selects every key it begins, the key equal
/// to it included: it is a prefix.
pub proof fn law_plain_pattern_selects_extensions(p: Seq<char>, k: Seq<char>)
    requires
        !has_wildcard(p),
        p.len() <= k.len(),
        k.take(p.len() as int) == p,
    ensures
        pattern_selects(p, k),
{
}

proof fn lemma_glob_matches_itself(k: Seq<char>)
    ensures
        glob_match(k, k),
    decreases k.len(),
{
    if k.len() > 0 {
        lemma_glob_matches_itself(k.drop_first());
        if k[0] == '*' {
            assert(glob_match(k, k.drop_first()));
        }
    }
}

/// Every key is selected by the pattern that spells it out, wildcards and
/// all: listing with a key as the pattern lists that key.
pub proof fn law_key_selects_itself(k: Seq<char>)
    ensures
        pattern_selects(k, k),
{
    if has_wildcard(k) {
        lemma_glob_matches_itself(k);
    } else {
        assert(k.take(k.len() as int) =~= k);
    }
}

/// The duration units: a second, a minute of 60 seconds, an hour of 60
/// minutes, a day of 24 hours and a week of 7 days; no other letter is a
/// unit.
pub proof fn law_duration_units(u: char)
    ensures
        unit_seconds('s') == Some(1u64),
        unit_seconds('m') matches Some(m) && m == 60 * unit_seconds('s')->0,
        unit_seconds('h') matches Some(h) && h == 60 * unit_seconds('m')->0,
        unit_seconds('d') matches Some(d) && d == 24 * unit_seconds('h')->0,
        unit_seconds('w') matches Some(w) && w == 7 * unit_seconds('d')->0,
        unit_seconds(u) is Some <==> (u == 's' || u == 'm' || u == 'h' || u == 'd' || u == 'w'),
{
}

/// A listing body with one object: its key, then its size.
pub open spec fn one_object_listing(key: Seq<char>, size: Seq<char>) -> Seq<char> {
    "<Contents><Key>"@ + key + "</Key><Size>"@ + size + "</Size></Contents>"@
}

proof fn lemma_find_at(hay: Seq<char>, needle: Seq<char>, from: int, at: int)
    requires
        0 <= from <= at,
        occurs_at(hay, needle, at),
        forall|j: int| from <= j < at ==> !#[trigger] occurs_at(hay, needle, j),
    ensures
        find_from(hay, needle, from) == Some(at),
{
    lemma_find_from_properties(hay, needle, from);
}

proof fn lemma_find_none(hay: Seq<char>, needle: Seq<char>, from: int)
    requires
        0 <= from,
        forall|j: int| from <= j ==> !#[trigger] occurs_at(hay, needle, j),
    ensures
        find_from(hay, needle, from) is None,
{
    lemma_find_from_properties(hay, needle, from);
}

/// The tags of a one-object listing stand where they are written, and
/// nowhere else: every `<` of the body opens one of its six tags.
proof fn lemma_one_object_tags(key: Seq<char>, size: Seq<char>)
    requires
        forall|i: int| 0 <= i < key.len() ==> #[trigger] key[i] != '<',
        all_digits(size),
    ensures
        ({
            let b = one_object_listing(key, size);
            let kk = key.len() as int;
            let tt = size.len() as int;
            forall|j: int|
                0 <= j < b.len() && #[trigger] b[j] == '<' ==> (j == 0 && b[j + 1] == 'C') || (j
                    == 10 && b[j + 1] == 'K') || (j == 15 + kk && b[j + 1] == '/' && b[j + 2]
                    == 'K') || (j == 21 + kk && b[j + 1] == 'S') || (j == 27 + kk + tt && b[j
                    + 1] == '/' && b[j + 2] == 'S') || (j == 34 + kk + tt && b[j + 1] == '/'
                    && b[j + 2] == 'C')
        }),
{
    reveal_strlit("<Contents><Key>");
    reveal_strlit("</Key><Size>");
    reveal_strlit("</Size></Contents>");
    let b = one_object_listing(key, size);
    let kk = key.len() as int;
    let tt = size.len() as int;
    let a1 = "<Contents><Key>"@;
    let a2 = "</Key><Size>"@;
    let a3 = "</Size></Contents>"@;
    assert(b.len() == 45 + kk + tt);
    assert forall|j: int| 0 <= j < b.len() && #[trigger] b[j] == '<' implies (j == 0 && b[j + 1]
        == 'C') || (j == 10 && b[j + 1] == 'K') || (j == 15 + kk && b[j + 1] == '/' && b[j + 2]
        == 'K') || (j == 21 + kk && b[j + 1] == 'S') || (j == 27 + kk + tt && b[j + 1] == '/'
        && b[j + 2] == 'S') || (j == 34 + kk + tt && b[j + 1] == '/' && b[j + 2] == 'C') by {
        if j < 15 {
            assert(b[j] == a1[j]);
            assert(b[j + 1] == a1[j + 1]);
        } else if j < 15 + kk {
            assert(b[j] == key[j - 15]);
        } else if j < 27 + kk {
            assert(b[j] == a2[j - 15 - kk]);
            assert(b[j + 1] == a2[j + 1 - 15 - kk]);
            if j + 2 < 27 + kk {
                assert(b[j + 2] == a2[j + 2 - 15 - kk]);
            }
        } else if j < 27 + kk + tt {
            assert(b[j] == size[j - 27 - kk]);
            assert(is_digit(size[j - 27 - kk]));
        } else {
            assert(b[j] == a3[j - 27 - kk - tt]);
            assert(b[j + 1] == a3[j + 1 - 27 - kk - tt]);
            assert(b[j + 2] == a3[j + 2 - 27 - kk - tt]);
        }
    }
}

/// A listing body naming one object lists exactly that object, with its key
/// as written and its size read from the text between `<Size>` and
/// `</Size>`.
pub proof fn law_listing_reads_key_and_size(key: Seq<char>, n: u64)
    requires
        forall|i: int| 0 <= i < key.len() ==> #[trigger] key[i] != '<',
    ensures
        list_entries(one_object_listing(key, decimal(n as nat))) == seq![(key, n)],
{
    reveal_strlit("<Contents><Key>");
    reveal_strlit("</Key><Size>");
    reveal_strlit("</Size></Contents>");
    reveal_strlit("<Contents>");
    reveal_strlit("<Key>");
    reveal_strlit("</Key>");
    reveal_strlit("<Size>");
    reveal_strlit("</Size>");
    let t = decimal(n as nat);
    law_decimal_round_trip(n as nat);
    law_parse_decimal(n);
    let b = one_object_listing(key, t);
    lemma_one_object_tags(key, t);
    let kk = key.len() as int;
    let tt = t.len() as int;
    assert(b.len() == 45 + kk + tt);
    // <Contents> at 0.
    assert(b.subrange(0, 10) =~= "<Contents>"@);
    lemma_find_at(b, "<Contents>"@, 0, 0);
    assert(b.skip(0) =~= b);
    // <Key> at 10.
    assert(b.subrange(10, 15) =~= "<Key>"@);
    assert forall|j: int| 0 <= j < 10 implies !#[trigger] occurs_at(b, "<Key>"@, j) by {
        if occurs_at(b, "<Key>"@, j) {
            assert(b[j] == b.subrange(j, j + 5)[0]);
            assert(b[j + 1] == b.subrange(j, j + 5)[1]);
        }
    }
    lemma_find_at(b, "<Key>"@, 0, 10);
    // </Key> at 15 + kk.
    assert(b.subrange(15 + kk, 21 + kk) =~= "</Key>"@);
    assert forall|j: int| 10 <= j < 15 + kk implies !#[trigger] occurs_at(b, "</Key>"@, j) by {
        if occurs_at(b, "</Key>"@, j) {
            assert(b[j] == b.subrange(j, j + 6)[0]);
            assert(b[j + 1] == b.subrange(j, j + 6)[1]);
        }
    }
    lemma_find_at(b, "</Key>"@, 10, 15 + kk);
    // <Size> at 21 + kk.
    assert(b.subrange(21 + kk, 27 + kk) =~= "<Size>"@);
    assert forall|j: int| 10 <= j < 21 + kk implies !#[trigger] occurs_at(b, "<Size>"@, j) by {
        if occurs_at(b, "<Size>"@, j) {
            assert(b[j] == b.subrange(j, j + 6)[0]);
            assert(b[j + 1] == b.subrange(j, j + 6)[1]);
        }
    }
    lemma_find_at(b, "<Size>"@, 10, 21 + kk);
    // </Size> at 27 + kk + tt.
    assert(b.subrange(27 + kk + tt, 34 + kk + tt) =~= "</Size>"@);
    assert forall|j: int| 27 + kk <= j < 27 + kk + tt implies !#[trigger] occurs_at(
        b,
        "</Size>"@,
        j,
    ) by {
        if occurs_at(b, "</Size>"@, j) {
            assert(b[j] == b.subrange(j, j + 7)[0]);
        }
    }
    lemma_find_at(b, "</Size>"@, 27 + kk, 27 + kk + tt);
    assert(b.subrange(27 + kk, 27 + kk + tt) =~= t);
    assert(size_field(b, 10) == n);
    // No <Key> after the first one's end.
    assert forall|j: int| 21 + kk <= j implies !#[trigger] occurs_at(b, "<Key>"@, j) by {
        if occurs_at(b, "<Key>"@, j) {
            assert(b[j] == b.subrange(j, j + 5)[0]);
            assert(b[j + 1] == b.subrange(j, j + 5)[1]);
        }
    }
    lemma_find_none(b, "<Key>"@, 21 + kk);
    assert(listed_from(b, 21 + kk) == Seq::<(Seq<char>, u64)>::empty());
    assert(b.subrange(15, 15 + kk) =~= key);
    assert(listed_from(b, 0) =~= seq![(key, n)]);
}

/// The lower-case hex digits, in order of value.
pub open spec fn lower_hex_digits() -> Seq<char> {
    "0123456789abcdef"@
}

/// Hex encoding writes each byte as two lower-case hex digits, the high
/// half first, in the order of the bytes.
pub proof fn law_hex_digits(b: Seq<u8>)
    ensures
        hex_lower(b).len() == 2 * b.len(),
        forall|i: int|
            0 <= i < b.len() ==> hex_lower(b)[2 * i] == lower_hex_digits()[(#[trigger] b[i]) as int / 16]
                && hex_lower(b)[2 * i + 1] == lower_hex_digits()[b[i] as int % 16],
    decreases b.len(),
{
    reveal_strlit("0123456789abcdef");
    law_hex_length(b);
    if b.len() > 0 {
        let init = b.drop_last();
        law_hex_digits(init);
        assert forall|v: int| 0 <= v < 16 implies crate::text::hex_digit_lower(v)
            == #[trigger] lower_hex_digits()[v] by {
            assert(lower_hex_digits()[v] == "0123456789abcdef"@[v]);
        }
        assert forall|i: int| 0 <= i < b.len() implies hex_lower(b)[2 * i] == lower_hex_digits()[
            (#[trigger] b[i]) as int / 16] && hex_lower(b)[2 * i + 1] == lower_hex_digits()[b[i] as int % 16] by {
            if i < init.len() {
                assert(b[i] == init[i]);
                assert(hex_lower(b)[2 * i] == hex_lower(init)[2 * i]);
                assert(hex_lower(b)[2 * i + 1] == hex_lower(init)[2 * i + 1]);
            } else {
                assert(b[i] == b.last());
                let d1 = b[i] as int / 16;
                let d2 = b[i] as int % 16;
                assert(crate::text::hex_digit_lower(d1) == lower_hex_digits()[d1]);
                assert(crate::text::hex_digit_lower(d2) == lower_hex_digits()[d2]);
            }
        }
    }
}

/// The Crockford alphabet: the ten digits and the upper-case letters
/// without `I`, `L`, `O` and `U`, in increasing order.
pub proof fn law_crockford_alphabet()
    ensures
        crockford_symbols().len() == 32,
        forall|i: int| 0 <= i < 31 ==> (#[trigger] crockford_symbols()[i] as u32) < (
        crockford_symbols()[i + 1] as u32),
        forall|i: int|
            0 <= i < 32 ==> ('0' <= #[trigger] crockford_symbols()[i] <= '9') || ('A'
                <= crockford_symbols()[i] <= 'Z' && crockford_symbols()[i] != 'I'
                && crockford_symbols()[i] != 'L' && crockford_symbols()[i] != 'O'
                && crockford_symbols()[i] != 'U'),
{
    reveal_strlit("0123456789ABCDEFGHJKMNPQRSTVWXYZ");
    let a = crockford_symbols();
    assert forall|i: int| 0 <= i < 31 implies (#[trigger] a[i] as u32) < (a[i + 1] as u32) by {
        assert(a[i] == "0123456789ABCDEFGHJKMNPQRSTVWXYZ"@[i]);
        assert(a[i + 1] == "0123456789ABCDEFGHJKMNPQRSTVWXYZ"@[i + 1]);
    }
}

} // verus!
