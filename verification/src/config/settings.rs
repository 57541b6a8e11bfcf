//! The client's settings, their defaults, validation, and the key/value view
//! through which they are read and changed.
use vstd::prelude::*;

use super::providers::{
    Provider,
    provider_name,
    provider_named,
    requires_endpoint_spec,
};
use crate::text::{chars_of, lowercase_of, owned, push_str, same_text, string_of, trim, trim_bounds};

verus! {

/// Everything the client needs to reach a bucket.
#[derive(Debug)]
pub struct Config {
    pub provider: Provider,
    pub endpoint: Option<String>,
    pub region: String,
    pub bucket: String,
    pub access_key: Option<String>,
    pub secret_key: Option<String>,
    pub path: Option<String>,
    pub default_expiry: String,
    pub verify_ssl: bool,
    pub color: String,
    pub upload_concurrency: usize,
    pub download_concurrency: usize,
    pub part_size: String,
}

/// A copy of an optional string.
fn copy_opt(o: &Option<String>) -> (r: Option<String>)
    ensures
        r == *o,
{
    match o {
        Some(s) => Some(s.clone()),
        None => None,
    }
}

impl Clone for Config {
    fn clone(&self) -> (r: Self)
        ensures
            r == *self,
    {
        Config {
            provider: self.provider,
            endpoint: copy_opt(&self.endpoint),
            region: self.region.clone(),
            bucket: self.bucket.clone(),
            access_key: copy_opt(&self.access_key),
            secret_key: copy_opt(&self.secret_key),
            path: copy_opt(&self.path),
            default_expiry: self.default_expiry.clone(),
            verify_ssl: self.verify_ssl,
            color: self.color.clone(),
            upload_concurrency: self.upload_concurrency,
            download_concurrency: self.download_concurrency,
            part_size: self.part_size.clone(),
        }
    }
}

/// The provider used when none is set.
pub fn default_provider() -> (p: Provider)
    ensures
        p == Provider::S3,
{
    Provider::S3
}

/// The region used when none is set.
pub fn default_region() -> (r: String)
    ensures
        r@ == "us-east-1"@,
{
    owned("us-east-1")
}

/// The link lifetime used when none is set.
pub fn default_expiry() -> (r: String)
    ensures
        r@ == "7d"@,
{
    owned("7d")
}

/// The value of flags that are on unless switched off.
pub fn default_true() -> (b: bool)
    ensures
        b,
{
    true
}

/// The number of parallel transfers used when none is set.
pub fn default_concurrency() -> (n: usize)
    ensures
        n == 4,
{
    4
}

/// The multipart chunk size used when none is set.
pub fn default_part_size() -> (r: String)
    ensures
        r@ == "8MB"@,
{
    owned("8MB")
}

/// Whether `c` holds the default settings.
pub open spec fn is_default_config(c: Config) -> bool {
    &&& c.provider == Provider::S3
    &&& c.endpoint is None
    &&& c.region@ == "us-east-1"@
    &&& c.bucket@ == Seq::<char>::empty()
    &&& c.access_key is None
    &&& c.secret_key is None
    &&& c.path is None
    &&& c.default_expiry@ == "7d"@
    &&& c.verify_ssl
    &&& c.color@ == "auto"@
    &&& c.upload_concurrency == 4
    &&& c.download_concurrency == 4
    &&& c.part_size@ == "8MB"@
}

impl Default for Config {
    fn default() -> (c: Self)
        ensures
            is_default_config(c),
    {
        Config {
            provider: Provider::S3,
            endpoint: None,
            region: default_region(),
            bucket: String::new(),
            access_key: None,
            secret_key: None,
            path: None,
            default_expiry: default_expiry(),
            verify_ssl: default_true(),
            color: owned("auto"),
            upload_concurrency: default_concurrency(),
            download_concurrency: default_concurrency(),
            part_size: default_part_size(),
        }
    }
}

/// Why a configuration could not be loaded or used.
#[derive(Debug)]
pub enum ConfigError {
    IoError(String),
    ParseError(String),
    MissingField(String),
    MissingCredentials,
    MissingEndpoint(Provider),
}

/// The message shown for a configuration error.
pub open spec fn config_error_message(e: ConfigError) -> Seq<char> {
    match e {
        ConfigError::IoError(s) => "Failed to read config file: "@ + s@,
        ConfigError::ParseError(s) => "Failed to parse config: "@ + s@,
        ConfigError::MissingField(s) => "Missing required field: "@ + s@,
        ConfigError::MissingCredentials => "Missing credentials"@,
        ConfigError::MissingEndpoint(p) => "Provider "@ + provider_name(p)
            + " requires an endpoint URL"@,
    }
}

impl ConfigError {
    /// The message shown for this error.
    pub fn message(&self) -> (r: String)
        ensures
            r@ == config_error_message(*self),
    {
        match self {
            ConfigError::IoError(s) => {
                let mut r = owned("Failed to read config file: ");
                push_str(&mut r, s.as_str());
                r
            },
            ConfigError::ParseError(s) => {
                let mut r = owned("Failed to parse config: ");
                push_str(&mut r, s.as_str());
                r
            },
            ConfigError::MissingField(s) => {
                let mut r = owned("Missing required field: ");
                push_str(&mut r, s.as_str());
                r
            },
            ConfigError::MissingCredentials => owned("Missing credentials"),
            ConfigError::MissingEndpoint(p) => {
                let mut r = owned("Provider ");
                push_str(&mut r, p.name());
                push_str(&mut r, " requires an endpoint URL");
                r
            },
        }
    }
}

/// Past the bucket, the first problem that stops a configuration from being
/// usable: a provider that needs an endpoint without one; then, for any
/// provider but the local one, a missing key.
pub open spec fn config_problem(c: Config) -> Option<ConfigError> {
    if requires_endpoint_spec(c.provider) && c.endpoint is None {
        Some(ConfigError::MissingEndpoint(c.provider))
    } else if c.provider != Provider::Local && (c.access_key is None || c.secret_key is None) {
        Some(ConfigError::MissingCredentials)
    } else {
        None
    }
}

/// Whether `r` is the verdict that validation gives on `c`: a missing bucket
/// first, then the problem `config_problem` names, else success.
pub open spec fn validation_verdict(c: Config, r: Result<(), ConfigError>) -> bool {
    if c.bucket@.len() == 0 {
        r matches Err(ConfigError::MissingField(f)) && f@ == "bucket"@
    } else {
        match config_problem(c) {
            Some(e) => r == Err::<(), ConfigError>(e),
            None => r == Ok::<(), ConfigError>(()),
        }
    }
}

impl Config {
    /// Checks that the configuration can be used to reach a bucket.
    pub fn validate(&self) -> (r: Result<(), ConfigError>)
        ensures
            validation_verdict(*self, r),
    {
        if self.bucket.as_str().is_empty() {
            return Err(ConfigError::MissingField(owned("bucket")));
        }
        if self.provider.requires_endpoint() && self.endpoint.is_none() {
            return Err(ConfigError::MissingEndpoint(self.provider));
        }
        if !matches!(self.provider, Provider::Local) {
            if self.access_key.is_none() || self.secret_key.is_none() {
                return Err(ConfigError::MissingCredentials);
            }
        }
        Ok(())
    }
}

/// The outcome of settling on a configuration: the configuration or the error
/// that stops the client, and a warning to show for a loaded configuration
/// that does not validate.
pub open spec fn load_outcome(
    file: Result<Option<Config>, ConfigError>,
    r: (Result<Config, ConfigError>, Option<ConfigError>),
) -> bool {
    match file {
        Err(e) => r.0 == Err::<Config, ConfigError>(e) && r.1 is None,
        Ok(Some(c)) => r.0 == Ok::<Config, ConfigError>(c) && (match r.1 {
            None => validation_verdict(c, Ok(())),
            Some(w) => validation_verdict(c, Err(w)),
        }),
        Ok(None) => (r.0 matches Err(ConfigError::MissingField(f)) && f@ == "bucket"@)
            && r.1 is None,
    }
}

/// Settles on the configuration to use from what reading the configuration
/// file gave: a read error stops the client; a file's configuration is used
/// even when it does not validate, with the validation error as a warning;
/// without a file the default configuration is used only if it validates,
/// which it never does, since it names no bucket.
pub fn load_config(file: Result<Option<Config>, ConfigError>) -> (r: (
    Result<Config, ConfigError>,
    Option<ConfigError>,
))
    ensures
        load_outcome(file, r),
{
    match file {
        Err(e) => (Err(e), None),
        Ok(Some(config)) => {
            let check = config.validate();
            match check {
                Ok(()) => (Ok(config), None),
                Err(w) => (Ok(config), Some(w)),
            }
        },
        Ok(None) => {
            let config = Config::default();
            match config.validate() {
                Ok(()) => (Ok(config), None),
                Err(e) => (Err(e), None),
            }
        },
    }
}

/// The text of a boolean (`bool::to_string`).
pub open spec fn bool_text(b: bool) -> Seq<char> {
    if b {
        "true"@
    } else {
        "false"@
    }
}

/// The value shown for a settings key, or `None` for a key that cannot be
/// read. An unset endpoint reads as empty; credentials cannot be read.
pub open spec fn setting_value(c: Config, key: Seq<char>) -> Option<Seq<char>> {
    if key == "provider"@ {
        Some(provider_name(c.provider))
    } else if key == "endpoint"@ {
        Some(
            match c.endpoint {
                Some(e) => e@,
                None => Seq::empty(),
            },
        )
    } else if key == "region"@ {
        Some(c.region@)
    } else if key == "bucket"@ {
        Some(c.bucket@)
    } else if key == "default_expiry"@ {
        Some(c.default_expiry@)
    } else if key == "verify_ssl"@ {
        Some(bool_text(c.verify_ssl))
    } else if key == "color"@ {
        Some(c.color@)
    } else {
        None
    }
}

/// Reads one setting of a loaded configuration. Without a configuration the
/// answer is `MissingField("no config found")`; an unknown key is refused as
/// `MissingField(key)`.
pub fn config_value(config: Option<Config>, key: &str) -> (r: Result<String, ConfigError>)
    ensures
        config is None ==> (r matches Err(ConfigError::MissingField(f)) && f@ == "no config found"@),
        config matches Some(c) ==> match setting_value(c, key@) {
            Some(v) => r matches Ok(s) && s@ == v,
            None => r matches Err(ConfigError::MissingField(f)) && f@ == key@,
        },
{
    let config = match config {
        Some(c) => c,
        None => return Err(ConfigError::MissingField(owned("no config found"))),
    };
    let k = chars_of(key);
    if same_text(&k, "provider") {
        Ok(config.provider.to_string())
    } else if same_text(&k, "endpoint") {
        match config.endpoint {
            Some(e) => Ok(e),
            None => Ok(String::new()),
        }
    } else if same_text(&k, "region") {
        Ok(config.region)
    } else if same_text(&k, "bucket") {
        Ok(config.bucket)
    } else if same_text(&k, "default_expiry") {
        Ok(config.default_expiry)
    } else if same_text(&k, "verify_ssl") {
        if config.verify_ssl {
            Ok(owned("true"))
        } else {
            Ok(owned("false"))
        }
    } else if same_text(&k, "color") {
        Ok(config.color)
    } else {
        Err(ConfigError::MissingField(owned(key)))
    }
}

/// Whether `a` and `b` agree on every setting but the one that `key` names.
pub open spec fn agree_except(a: Config, b: Config, key: Seq<char>) -> bool {
    &&& (key != "provider"@ ==> a.provider == b.provider)
    &&& (key != "endpoint"@ ==> a.endpoint == b.endpoint)
    &&& (key != "region"@ ==> a.region == b.region)
    &&& (key != "bucket"@ ==> a.bucket == b.bucket)
    &&& (key != "access_key"@ ==> a.access_key == b.access_key)
    &&& (key != "secret_key"@ ==> a.secret_key == b.secret_key)
    &&& a.path == b.path
    &&& (key != "default_expiry"@ ==> a.default_expiry == b.default_expiry)
    &&& (key != "verify_ssl"@ ==> a.verify_ssl == b.verify_ssl)
    &&& (key != "color"@ ==> a.color == b.color)
    &&& a.upload_concurrency == b.upload_concurrency
    &&& a.download_concurrency == b.download_concurrency
    &&& a.part_size == b.part_size
}

/// The keys that can be set.
pub open spec fn settable_key(key: Seq<char>) -> bool {
    key == "provider"@ || key == "endpoint"@ || key == "region"@ || key == "bucket"@ || key
        == "access_key"@ || key == "secret_key"@ || key == "default_expiry"@ || key
        == "verify_ssl"@ || key == "color"@
}

/// Whether `new` is `old` with the setting `key` changed to `value`: an
/// optional setting becomes `Some(value)`; a provider is parsed; `verify_ssl`
/// is off only for the exact text `false` (`bool::from_str`, defaulting to on).
pub open spec fn setting_applied(old: Config, new: Config, key: Seq<char>, value: Seq<char>) -> bool {
    &&& agree_except(old, new, key)
    &&& (key == "provider"@ ==> Some(new.provider) == provider_named(lowercase_of(value)))
    &&& (key == "endpoint"@ ==> (new.endpoint matches Some(e) && e@ == value))
    &&& (key == "region"@ ==> new.region@ == value)
    &&& (key == "bucket"@ ==> new.bucket@ == value)
    &&& (key == "access_key"@ ==> (new.access_key matches Some(a) && a@ == value))
    &&& (key == "secret_key"@ ==> (new.secret_key matches Some(s) && s@ == value))
    &&& (key == "default_expiry"@ ==> new.default_expiry@ == value)
    &&& (key == "verify_ssl"@ ==> new.verify_ssl == (value != "false"@))
    &&& (key == "color"@ ==> new.color@ == value)
}

/// Changes one setting. An unknown key is refused as `MissingField(key)`; an
/// unknown provider as `ParseError("Unknown provider: <value>")`; in both
/// cases the configuration is left as it was.
pub fn apply_setting(config: &mut Config, key: &str, value: &str) -> (r: Result<(), ConfigError>)
    ensures
        r is Ok <==> settable_key(key@) && (key@ == "provider"@ ==> provider_named(
            lowercase_of(value@),
        ) is Some),
        r is Ok ==> setting_applied(*old(config), *final(config), key@, value@),
        r is Err ==> *final(config) == *old(config),
        !settable_key(key@) ==> (r matches Err(ConfigError::MissingField(f)) && f@ == key@),
        key@ == "provider"@ && provider_named(lowercase_of(value@)) is None ==> (r matches Err(
            ConfigError::ParseError(m),
        ) && m@ == "Unknown provider: "@ + value@),
{
    proof {
        reveal_strlit("provider");
        reveal_strlit("endpoint");
        reveal_strlit("region");
        reveal_strlit("bucket");
        reveal_strlit("access_key");
        reveal_strlit("secret_key");
        reveal_strlit("default_expiry");
        reveal_strlit("verify_ssl");
        reveal_strlit("color");
        reveal_strlit("false");
        assert("provider"@[0] != "endpoint"@[0]);
        assert("region"@[0] != "bucket"@[0]);
        assert("access_key"@[0] != "secret_key"@[0]);
        assert("access_key"@[0] != "verify_ssl"@[0]);
        assert("secret_key"@[0] != "verify_ssl"@[0]);
        assert("color"@.len() == 5);
    }
    let k = chars_of(key);
    if same_text(&k, "provider") {
        match Provider::parse(value) {
            Ok(p) => config.provider = p,
            Err(e) => return Err(ConfigError::ParseError(e)),
        }
    } else if same_text(&k, "endpoint") {
        config.endpoint = Some(owned(value));
    } else if same_text(&k, "region") {
        config.region = owned(value);
    } else if same_text(&k, "bucket") {
        config.bucket = owned(value);
    } else if same_text(&k, "access_key") {
        config.access_key = Some(owned(value));
    } else if same_text(&k, "secret_key") {
        config.secret_key = Some(owned(value));
    } else if same_text(&k, "default_expiry") {
        config.default_expiry = owned(value);
    } else if same_text(&k, "verify_ssl") {
        let v = chars_of(value);
        config.verify_ssl = !same_text(&v, "false");
    } else if same_text(&k, "color") {
        config.color = owned(value);
    } else {
        return Err(ConfigError::MissingField(owned(key)));
    }
    Ok(())
}

// ---------------------------------------------------------------------------
// Listing the configuration
// ---------------------------------------------------------------------------

/// A line `<key> = <value>`.
pub open spec fn setting_line(key: Seq<char>, value: Seq<char>) -> Seq<char> {
    key + " = "@ + value
}

/// The lines `config list` shows: every readable setting, the endpoint and
/// access key only when set, the secret key masked; without a configuration,
/// a hint to create one.
pub open spec fn config_listing_spec(config: Option<Config>) -> Seq<Seq<char>> {
    match config {
        None => seq!["No configuration found. Run 's3cli config init' to create one."@],
        Some(c) => seq![setting_line("provider"@, provider_name(c.provider))] + (match c.endpoint {
            Some(e) => seq![setting_line("endpoint"@, e@)],
            None => Seq::empty(),
        }) + seq![setting_line("region"@, c.region@), setting_line("bucket"@, c.bucket@)] + (
        match c.access_key {
            Some(a) => seq![setting_line("access_key"@, a@)],
            None => Seq::empty(),
        }) + (match c.secret_key {
            Some(_) => seq![setting_line("secret_key"@, "***"@)],
            None => Seq::empty(),
        }) + seq![
            setting_line("default_expiry"@, c.default_expiry@),
            setting_line("verify_ssl"@, bool_text(c.verify_ssl)),
            setting_line("color"@, c.color@),
        ],
    }
}

/// A line `<key> = <value>`.
fn setting_line_of(key: &str, value: &str) -> (r: String)
    ensures
        r@ == setting_line(key@, value@),
{
    let mut r = owned(key);
    push_str(&mut r, " = ");
    push_str(&mut r, value);
    r
}

/// The view of a list of lines.
pub open spec fn lines_view(v: Seq<String>) -> Seq<Seq<char>> {
    v.map_values(|s: String| s@)
}

/// The lines `config list` shows.
pub fn config_listing(config: Option<&Config>) -> (r: Vec<String>)
    ensures
        lines_view(r@) == config_listing_spec(
            match config {
                Some(c) => Some(*c),
                None => None,
            },
        ),
{
    let mut lines: Vec<String> = Vec::new();
    let c = match config {
        None => {
            lines.push(owned("No configuration found. Run 's3cli config init' to create one."));
            assert(lines_view(lines@) == seq![
                "No configuration found. Run 's3cli config init' to create one."@,
            ]);
            return lines;
        },
        Some(c) => c,
    };
    let ghost mut expected: Seq<Seq<char>> = Seq::empty();
    lines.push(setting_line_of("provider", c.provider.name()));
    proof { expected = expected.push(setting_line("provider"@, provider_name(c.provider))); }
    assert(lines_view(lines@) == expected);
    match &c.endpoint {
        Some(e) => {
            lines.push(setting_line_of("endpoint", e.as_str()));
            proof { expected = expected.push(setting_line("endpoint"@, e@)); }
        },
        None => {},
    }
    assert(lines_view(lines@) == expected);
    lines.push(setting_line_of("region", c.region.as_str()));
    proof { expected = expected.push(setting_line("region"@, c.region@)); }
    lines.push(setting_line_of("bucket", c.bucket.as_str()));
    proof { expected = expected.push(setting_line("bucket"@, c.bucket@)); }
    assert(lines_view(lines@) == expected);
    match &c.access_key {
        Some(a) => {
            lines.push(setting_line_of("access_key", a.as_str()));
            proof { expected = expected.push(setting_line("access_key"@, a@)); }
        },
        None => {},
    }
    assert(lines_view(lines@) == expected);
    match &c.secret_key {
        Some(_) => {
            lines.push(setting_line_of("secret_key", "***"));
            proof { expected = expected.push(setting_line("secret_key"@, "***"@)); }
        },
        None => {},
    }
    assert(lines_view(lines@) == expected);
    lines.push(setting_line_of("default_expiry", c.default_expiry.as_str()));
    proof { expected = expected.push(setting_line("default_expiry"@, c.default_expiry@)); }
    let ssl = if c.verify_ssl { "true" } else { "false" };
    lines.push(setting_line_of("verify_ssl", ssl));
    proof { expected = expected.push(setting_line("verify_ssl"@, bool_text(c.verify_ssl))); }
    lines.push(setting_line_of("color", c.color.as_str()));
    proof { expected = expected.push(setting_line("color"@, c.color@)); }
    assert(lines_view(lines@) == expected);
    assert(expected == config_listing_spec(Some(*c)));
    lines
}

// ---------------------------------------------------------------------------
// Interactive set-up
// ---------------------------------------------------------------------------

/// The questions `config init` asks, in order, and the end of the dialogue.
#[derive(Debug, Clone, Copy, PartialEq, Eq, Structural)]
pub enum InitStep {
    Provider,
    Endpoint,
    Region,
    Bucket,
    AccessKey,
    SecretKey,
    Done,
}

/// The prompt shown for a question.
pub open spec fn init_prompt_spec(step: InitStep) -> Seq<char> {
    match step {
        InitStep::Provider => "Provider (s3, r2, minio, local) [s3]: "@,
        InitStep::Endpoint => "Endpoint URL: "@,
        InitStep::Region => "Region [us-east-1]: "@,
        InitStep::Bucket => "Bucket name: "@,
        InitStep::AccessKey => "Access Key: "@,
        InitStep::SecretKey => "Secret Key: "@,
        InitStep::Done => Seq::empty(),
    }
}

/// The prompt shown for a question.
pub fn init_prompt(step: InitStep) -> (r: &'static str)
    ensures
        r@ == init_prompt_spec(step),
{
    proof {
        reveal_strlit("");
    }
    match step {
        InitStep::Endpoint => "Endpoint URL: ",
        InitStep::Provider => "Provider (s3, r2, minio, local) [s3]: ",
        InitStep::Region => "Region [us-east-1]: ",
        InitStep::Bucket => "Bucket name: ",
        InitStep::AccessKey => "Access Key: ",
        InitStep::SecretKey => "Secret Key: ",
        InitStep::Done => "",
    }
}

/// The question after the provider: the endpoint for providers that need
/// one, else the region.
pub open spec fn after_provider(p: Provider) -> InitStep {
    if requires_endpoint_spec(p) {
        InitStep::Endpoint
    } else {
        InitStep::Region
    }
}

/// The question after the bucket: the keys, except for the local provider.
pub open spec fn after_bucket(p: Provider) -> InitStep {
    if p == Provider::Local {
        InitStep::Done
    } else {
        InitStep::AccessKey
    }
}

/// Whether answering `answer` to the question `step` takes the configuration
/// from `old` to `new` and the dialogue to `next`. Answers are trimmed; an
/// empty answer keeps the default provider and region.
pub open spec fn init_answered(old: Config, new: Config, step: InitStep, answer: Seq<char>, next: InitStep) -> bool {
    let a = trim(answer);
    match step {
        InitStep::Provider => {
            &&& (a.len() == 0 ==> new == old)
            &&& (a.len() > 0 ==> agree_except(old, new, "provider"@) && Some(new.provider)
                == provider_named(lowercase_of(a)))
            &&& next == after_provider(new.provider)
        },
        InitStep::Endpoint => agree_except(old, new, "endpoint"@) && (new.endpoint matches Some(
            e,
        ) && e@ == a) && next == InitStep::Region,
        InitStep::Region => {
            &&& (a.len() == 0 ==> new == old)
            &&& (a.len() > 0 ==> agree_except(old, new, "region"@) && new.region@ == a)
            &&& next == InitStep::Bucket
        },
        InitStep::Bucket => agree_except(old, new, "bucket"@) && new.bucket@ == a && next
            == after_bucket(new.provider),
        InitStep::AccessKey => agree_except(old, new, "access_key"@) && (new.access_key matches Some(
            k,
        ) && k@ == a) && next == InitStep::SecretKey,
        InitStep::SecretKey => agree_except(old, new, "secret_key"@) && (new.secret_key matches Some(
            k,
        ) && k@ == a) && next == InitStep::Done,
        InitStep::Done => new == old && next == InitStep::Done,
    }
}

/// Takes the answer to one question of `config init` into the configuration
/// and names the next question. An unknown provider is refused as
/// `ParseError("Unknown provider: <answer>")`, leaving the configuration as
/// it was.
pub fn init_advance(config: &mut Config, step: InitStep, answer: &str) -> (r: Result<
    InitStep,
    ConfigError,
>)
    ensures
        r matches Ok(next) ==> init_answered(*old(config), *final(config), step, answer@, next),
        r is Err ==> *final(config) == *old(config),
        r is Err <==> (step == InitStep::Provider && trim(answer@).len() > 0 && provider_named(
            lowercase_of(trim(answer@)),
        ) is None),
        r matches Err(e) ==> (e matches ConfigError::ParseError(m) && m@ == "Unknown provider: "@
            + trim(answer@)),
{
    proof {
        reveal_strlit("provider");
        reveal_strlit("endpoint");
        reveal_strlit("region");
        reveal_strlit("bucket");
        reveal_strlit("access_key");
        reveal_strlit("secret_key");
        assert("provider"@[0] != "endpoint"@[0]);
        assert("region"@[0] != "bucket"@[0]);
        assert("access_key"@[0] != "secret_key"@[0]);
    }
    let c = chars_of(answer);
    let (lo, hi) = trim_bounds(&c);
    let a = string_of(&c, lo, hi);
    match step {
        InitStep::Provider => {
            if lo < hi {
                match Provider::parse(a.as_str()) {
                    Ok(p) => config.provider = p,
                    Err(e) => return Err(ConfigError::ParseError(e)),
                }
            }
            if config.provider.requires_endpoint() {
                Ok(InitStep::Endpoint)
            } else {
                Ok(InitStep::Region)
            }
        },
        InitStep::Endpoint => {
            config.endpoint = Some(a);
            Ok(InitStep::Region)
        },
        InitStep::Region => {
            if lo < hi {
                config.region = a;
            }
            Ok(InitStep::Bucket)
        },
        InitStep::Bucket => {
            config.bucket = a;
            if matches!(config.provider, Provider::Local) {
                Ok(InitStep::Done)
            } else {
                Ok(InitStep::AccessKey)
            }
        },
        InitStep::AccessKey => {
            config.access_key = Some(a);
            Ok(InitStep::SecretKey)
        },
        InitStep::SecretKey => {
            config.secret_key = Some(a);
            Ok(InitStep::Done)
        },
        InitStep::Done => Ok(InitStep::Done),
    }
}

} // verus!
