//! The storage providers the client can talk to.
use vstd::prelude::*;

use crate::text::{chars_of, is_lower_alnum, lowercase, lowercase_of, owned, push_str, same_text};

verus! {

/// An S3-compatible storage provider.
#[derive(Debug, Clone, Copy, PartialEq, Eq, Structural)]
pub enum Provider {
    S3,
    R2,
    Backblaze,
    MinIO,
    Local,
}

impl Default for Provider {
    fn default() -> (p: Self)
        ensures
            p == Provider::S3,
    {
        Provider::S3
    }
}

/// The name under which a provider is shown and stored.
pub open spec fn provider_name(p: Provider) -> Seq<char> {
    match p {
        Provider::S3 => "s3"@,
        Provider::R2 => "r2"@,
        Provider::Backblaze => "backblaze"@,
        Provider::MinIO => "minio"@,
        Provider::Local => "local"@,
    }
}

/// The provider that an already lower-cased name stands for, aliases included.
pub open spec fn provider_named(name: Seq<char>) -> Option<Provider> {
    if name == "s3"@ || name == "aws"@ {
        Some(Provider::S3)
    } else if name == "r2"@ || name == "cloudflare"@ {
        Some(Provider::R2)
    } else if name == "backblaze"@ || name == "b2"@ {
        Some(Provider::Backblaze)
    } else if name == "minio"@ {
        Some(Provider::MinIO)
    } else if name == "local"@ || name == "filesystem"@ {
        Some(Provider::Local)
    } else {
        None
    }
}

/// The endpoint a provider suggests when none is configured.
pub open spec fn default_endpoint_spec(p: Provider) -> Option<Seq<char>> {
    match p {
        Provider::S3 => None,
        Provider::R2 => Some("https://<account_id>.r2.cloudflarestorage.com"@),
        Provider::Backblaze => Some("https://s3.<region>.backblazeb2.com"@),
        Provider::MinIO => Some("http://localhost:9000"@),
        Provider::Local => None,
    }
}

/// Whether a provider cannot be reached without an explicit endpoint.
pub open spec fn requires_endpoint_spec(p: Provider) -> bool {
    match p {
        Provider::S3 => false,
        Provider::R2 => true,
        Provider::Backblaze => true,
        Provider::MinIO => true,
        Provider::Local => false,
    }
}

impl Provider {
    /// The provider's display name.
    pub fn name(&self) -> (r: &'static str)
        ensures
            r@ == provider_name(*self),
    {
        match self {
            Provider::S3 => "s3",
            Provider::R2 => "r2",
            Provider::Backblaze => "backblaze",
            Provider::MinIO => "minio",
            Provider::Local => "local",
        }
    }

    /// The provider's display name as an owned string.
    pub fn to_string(&self) -> (r: String)
        ensures
            r@ == provider_name(*self),
    {
        owned(self.name())
    }

    /// The provider that a lower-case name (or alias) stands for.
    pub fn from_name(name: &str) -> (r: Option<Provider>)
        ensures
            r == provider_named(name@),
    {
        let n = chars_of(name);
        if same_text(&n, "s3") || same_text(&n, "aws") {
            Some(Provider::S3)
        } else if same_text(&n, "r2") || same_text(&n, "cloudflare") {
            Some(Provider::R2)
        } else if same_text(&n, "backblaze") || same_text(&n, "b2") {
            Some(Provider::Backblaze)
        } else if same_text(&n, "minio") {
            Some(Provider::MinIO)
        } else if same_text(&n, "local") || same_text(&n, "filesystem") {
            Some(Provider::Local)
        } else {
            None
        }
    }

    /// Parses a provider name, case-insensitively, aliases included.
    /// An unknown name is refused with `Unknown provider: <name>`.
    pub fn parse(s: &str) -> (r: Result<Provider, String>)
        ensures
            provider_named(lowercase_of(s@)) matches Some(p) ==> r == Ok::<Provider, String>(p),
            provider_named(lowercase_of(s@)) is None ==> (r matches Err(m) && m@
                == "Unknown provider: "@ + s@),
            is_lower_alnum(s@) ==> lowercase_of(s@) == s@,
    {
        let lower = lowercase(s);
        match Provider::from_name(lower.as_str()) {
            Some(p) => Ok(p),
            None => {
                let mut m = owned("Unknown provider: ");
                push_str(&mut m, s);
                Err(m)
            },
        }
    }

    /// The endpoint template the provider suggests, if any.
    pub fn default_endpoint(&self) -> (r: Option<&'static str>)
        ensures
            r matches Some(e) ==> default_endpoint_spec(*self) == Some(e@),
            r is None ==> default_endpoint_spec(*self) is None,
    {
        match self {
            Provider::S3 => None,
            Provider::R2 => Some("https://<account_id>.r2.cloudflarestorage.com"),
            Provider::Backblaze => Some("https://s3.<region>.backblazeb2.com"),
            Provider::MinIO => Some("http://localhost:9000"),
            Provider::Local => None,
        }
    }

    /// Whether the provider needs an explicit endpoint URL.
    pub fn requires_endpoint(&self) -> (r: bool)
        ensures
            r == requires_endpoint_spec(*self),
    {
        match self {
            Provider::S3 => false,
            Provider::R2 => true,
            Provider::Backblaze => true,
            Provider::MinIO => true,
            Provider::Local => false,
        }
    }
}

impl std::str::FromStr for Provider {
    type Err = String;

    /// Parses a provider name as `Provider::parse` does.
    fn from_str(s: &str) -> (r: Result<Provider, String>)
        ensures
            provider_named(lowercase_of(s@)) matches Some(p) ==> r == Ok::<Provider, String>(p),
            provider_named(lowercase_of(s@)) is None ==> (r matches Err(m) && m@
                == "Unknown provider: "@ + s@),
    {
        Provider::parse(s)
    }
}

} // verus!
