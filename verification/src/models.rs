//! The records the client passes around: stored objects, upload metadata,
//! paging and ordering of listings, and lengths of time.
use vstd::prelude::*;

use std::collections::HashMap;

verus! {

/// An instant, as seconds and nanoseconds since the Unix epoch (UTC).
#[derive(Debug, Clone, Copy, PartialEq, Eq, Structural)]
pub struct Timestamp {
    pub secs: i64,
    pub nanos: u32,
}

/// The first second chrono can represent: -262143-01-01T00:00:00 UTC.
pub open spec fn first_chrono_second() -> i64 {
    -8_334_601_315_200i64
}

/// The last second chrono can represent: 262142-12-31T23:59:59 UTC.
pub open spec fn last_chrono_second() -> i64 {
    8_210_266_876_799
}

/// Whether `t` is an instant a clock reading can give: within chrono's range
/// of instants, with less than a second of nanoseconds.
pub open spec fn is_clock_reading(t: Timestamp) -> bool {
    &&& first_chrono_second() <= t.secs <= last_chrono_second()
    &&& t.nanos < 1_000_000_000
}

/// The system clock (`std::time::SystemTime::now`) read once and taken into
/// chrono with `DateTime::<Utc>::from`, then apart into seconds and
/// nanoseconds since the epoch. Which instant comes back depends on the
/// clock; what is stated is what every reading satisfies: the conversion
/// counts a clock set before the epoch as negative seconds, keeps the
/// nanoseconds below one second, and builds the instant with
/// `Utc.timestamp_opt`, which yields only instants within chrono's range.
/// That conversion gives up (unwraps) on a clock more than 262 000 years
/// from the epoch; no system clock reads such a time, and this is not
/// stated.
#[verifier::external_body]
pub(crate) fn utc_now() -> (t: Timestamp)
    ensures
        is_clock_reading(t),
{
    let now = chrono::DateTime::<chrono::Utc>::from(std::time::SystemTime::now());
    Timestamp { secs: now.timestamp(), nanos: now.timestamp_subsec_nanos() }
}

/// A length of time, in whole seconds.
#[derive(Debug, Clone, Copy, PartialEq, Eq, Structural)]
pub struct Duration {
    secs: u64,
}

impl Duration {
    /// The number of seconds.
    pub closed spec fn secs_spec(self) -> u64 {
        self.secs
    }

    /// A duration of `secs` seconds.
    pub fn from_secs(secs: u64) -> (d: Duration)
        ensures
            d.secs_spec() == secs,
    {
        Duration { secs }
    }

    /// The number of whole seconds.
    pub fn as_secs(&self) -> (s: u64)
        ensures
            s == self.secs_spec(),
    {
        self.secs
    }
}

/// An object stored in the bucket.
#[derive(Debug, Clone)]
pub struct FileEntry {
    pub id: String,
    pub key: String,
    pub size: u64,
    pub etag: String,
    pub content_type: String,
    pub metadata: HashMap<String, String>,
    pub created_at: Timestamp,
    pub updated_at: Timestamp,
    pub expires_at: Option<Timestamp>,
    pub storage_class: Option<String>,
}

/// Whether `e` is a freshly made entry for the given object: no etag, no
/// metadata, no expiry or storage class, created and updated at one instant.
pub open spec fn is_new_entry(
    e: FileEntry,
    id: Seq<char>,
    key: Seq<char>,
    size: u64,
    content_type: Seq<char>,
) -> bool {
    &&& e.id@ == id
    &&& e.key@ == key
    &&& e.size == size
    &&& e.etag@ == Seq::<char>::empty()
    &&& e.content_type@ == content_type
    &&& e.metadata@ == Map::<String, String>::empty()
    &&& e.created_at == e.updated_at
    &&& e.expires_at is None
    &&& e.storage_class is None
}

impl FileEntry {
    /// An entry for an object, stamped with one reading of the clock.
    pub fn new(id: String, key: String, size: u64, content_type: String) -> (e: Self)
        ensures
            is_new_entry(e, id@, key@, size, content_type@),
            is_clock_reading(e.created_at),
    {
        let now = utc_now();
        FileEntry {
            id,
            key,
            size,
            etag: String::new(),
            content_type,
            metadata: HashMap::new(),
            created_at: now,
            updated_at: now,
            expires_at: None,
            storage_class: None,
        }
    }
}

/// What is known of an object beyond its bytes.
#[derive(Debug, Clone)]
pub struct FileMetadata {
    pub original_name: String,
    pub content_type: Option<String>,
    pub cache_control: Option<String>,
    pub content_disposition: Option<String>,
    pub metadata: HashMap<String, String>,
    pub expires_after: Option<Duration>,
    pub is_public: bool,
}

/// Whether `m` holds no information: empty name, no headers, no metadata, no
/// expiry, not public.
pub open spec fn is_empty_metadata(m: FileMetadata) -> bool {
    &&& m.original_name@ == Seq::<char>::empty()
    &&& m.content_type is None
    &&& m.cache_control is None
    &&& m.content_disposition is None
    &&& m.metadata@ == Map::<String, String>::empty()
    &&& m.expires_after is None
    &&& !m.is_public
}

impl Default for FileMetadata {
    fn default() -> (m: Self)
        ensures
            is_empty_metadata(m),
    {
        FileMetadata {
            original_name: String::new(),
            content_type: None,
            cache_control: None,
            content_disposition: None,
            metadata: HashMap::new(),
            expires_after: None,
            is_public: false,
        }
    }
}

/// Which part of a listing to fetch.
#[derive(Debug, Clone)]
pub struct Pagination {
    pub limit: Option<usize>,
    pub offset: Option<usize>,
    pub continuation_token: Option<String>,
}

impl Default for Pagination {
    fn default() -> (p: Self)
        ensures
            p.limit == Some(100usize),
            p.offset is None,
            p.continuation_token is None,
    {
        Pagination { limit: Some(100), offset: None, continuation_token: None }
    }
}

/// The field a listing is ordered by.
#[derive(Debug, Clone, Copy, PartialEq, Eq, Structural)]
pub enum SortField {
    Name,
    Size,
    Date,
}

/// The direction of a listing's order.
#[derive(Debug, Clone, Copy, PartialEq, Eq, Structural)]
pub enum SortOrder {
    Asc,
    Desc,
}

impl Default for SortOrder {
    fn default() -> (o: Self)
        ensures
            o == SortOrder::Desc,
    {
        SortOrder::Desc
    }
}

/// One page of a listing.
#[derive(Debug)]
pub struct ListResult {
    pub entries: Vec<FileEntry>,
    pub next_continuation_token: Option<String>,
}

} // verus!
