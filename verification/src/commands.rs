//! The decisions the sub-commands make: how durations, names and content
//! types are read, where downloads go, how links and sizes are written, and
//! the errors the commands report.
use vstd::prelude::*;

use crate::config::settings::{config_error_message, ConfigError};
use crate::models::{is_clock_reading, Duration, FileEntry, FileMetadata, Timestamp};
use crate::storage::error::{storage_error_message, StorageError};
use crate::storage::s3::{generate_id, is_object_id, key_id, key_id_of, stamp_of, utc_text};
use crate::text::{
    char_of_digit,
    chars_of,
    decimal,
    decimal_string,
    digit_char,
    lowercase,
    lowercase_of,
    owned,
    parse_u64,
    parse_u64_spec,
    path_extension,
    path_extension_of,
    path_file_name,
    path_file_name_of,
    push_char,
    push_str,
    same_text,
    string_of,
    ascii_lower,
    final_component,
    is_ascii_text,
    name_extension,
    simple_path,
    sub_chars,
    trim,
    trim_bounds,
};

verus! {

/// Why a command failed.
#[derive(Debug)]
pub enum CommandError {
    Storage(StorageError),
    Io(String),
    Config(String),
    NotFound(String),
    InvalidInput(String),
}

/// The result of a command.
pub type CmdResult<T> = Result<T, CommandError>;

/// The message shown for a command error.
pub open spec fn command_error_message(e: CommandError) -> Seq<char> {
    match e {
        CommandError::Storage(s) => "Storage error: "@ + storage_error_message(s),
        CommandError::Io(s) => "IO error: "@ + s@,
        CommandError::Config(s) => "Config error: "@ + s@,
        CommandError::NotFound(s) => "Not found: "@ + s@,
        CommandError::InvalidInput(s) => "Invalid input: "@ + s@,
    }
}

impl CommandError {
    /// The message shown for this error.
    pub fn message(&self) -> (r: String)
        ensures
            r@ == command_error_message(*self),
    {
        match self {
            CommandError::Storage(e) => {
                let mut r = owned("Storage error: ");
                let m = e.message();
                push_str(&mut r, m.as_str());
                r
            },
            CommandError::Io(s) => {
                let mut r = owned("IO error: ");
                push_str(&mut r, s.as_str());
                r
            },
            CommandError::Config(s) => {
                let mut r = owned("Config error: ");
                push_str(&mut r, s.as_str());
                r
            },
            CommandError::NotFound(s) => {
                let mut r = owned("Not found: ");
                push_str(&mut r, s.as_str());
                r
            },
            CommandError::InvalidInput(s) => {
                let mut r = owned("Invalid input: ");
                push_str(&mut r, s.as_str());
                r
            },
        }
    }

    /// A configuration error, carried as its message.
    pub fn from_config_error(err: ConfigError) -> (r: CommandError)
        ensures
            r matches CommandError::Config(m) && m@ == config_error_message(err),
    {
        CommandError::Config(err.message())
    }
}

impl From<StorageError> for CommandError {
    fn from(err: StorageError) -> (r: Self)
        ensures
            r == CommandError::Storage(err),
    {
        CommandError::Storage(err)
    }
}

impl vstd::std_specs::convert::FromSpecImpl<StorageError> for CommandError {
    open spec fn obeys_from_spec() -> bool {
        true
    }

    open spec fn from_spec(v: StorageError) -> Self {
        CommandError::Storage(v)
    }
}

// ---------------------------------------------------------------------------
// Durations
// ---------------------------------------------------------------------------

/// The seconds in one of the duration units `s`, `m`, `h`, `d`, `w`.
pub open spec fn unit_seconds(u: char) -> Option<u64> {
    if u == 's' {
        Some(1)
    } else if u == 'm' {
        Some(60)
    } else if u == 'h' {
        Some(3600)
    } else if u == 'd' {
        Some(86400)
    } else if u == 'w' {
        Some(604800)
    } else {
        None
    }
}

/// The number of seconds a duration text stands for: once trimmed, a number
/// (as `u64::from_str` reads it) followed by a one-letter unit.
pub open spec fn duration_seconds(s: Seq<char>) -> Option<int> {
    let t = trim(s);
    if t.len() == 0 {
        None
    } else {
        match (parse_u64_spec(t.drop_last()), unit_seconds(t.last())) {
            (Some(n), Some(k)) => Some(n * k),
            _ => None,
        }
    }
}

/// The message a duration text is refused with: `Empty duration` for a blank
/// text, `Invalid duration: <text>` when the number does not read, else
/// `Unknown unit: <unit>` (the text taken trimmed).
pub open spec fn duration_error_message(s: Seq<char>) -> Seq<char> {
    let t = trim(s);
    if t.len() == 0 {
        "Empty duration"@
    } else if parse_u64_spec(t.drop_last()) is None {
        "Invalid duration: "@ + t
    } else {
        "Unknown unit: "@ + seq![t.last()]
    }
}

/// The duration texts that are read without a run-time failure: the trimmed
/// text, if not empty, ends in an ASCII character (the unit is cut off at the
/// last byte), and a number with a known unit does not overflow 64 bits when
/// turned into seconds.
pub open spec fn duration_defined(s: Seq<char>) -> bool {
    let t = trim(s);
    &&& (t.len() > 0 ==> (t.last() as u32) < 128)
    &&& (duration_seconds(s) matches Some(v) ==> v <= u64::MAX)
}

/// Whether reading `s` as a duration runs without failure.
pub fn duration_is_defined(s: &str) -> (r: bool)
    ensures
        r == duration_defined(s@),
{
    let c = chars_of(s);
    let (a, b) = trim_bounds(&c);
    if a == b {
        return true;
    }
    let last = c[b - 1];
    if (last as u32) >= 128 {
        return false;
    }
    let ghost t = trim(s@);
    let num = sub_chars(&c, a, b - 1);
    assert(num@ == t.drop_last());
    let k: u64 = if last == 's' {
        1
    } else if last == 'm' {
        60
    } else if last == 'h' {
        3600
    } else if last == 'd' {
        86400
    } else if last == 'w' {
        604800
    } else {
        return true;
    };
    match parse_u64(&num) {
        None => true,
        Some(n) => {
            assert((n <= u64::MAX / k) == (n * k <= u64::MAX)) by (nonlinear_arith)
                requires
                    k > 0,
            ;
            n <= u64::MAX / k
        },
    }
}

/// The duration a text stands for: a number followed by `s`, `m`, `h`, `d` or
/// `w`, with white space around it ignored. Refuses an empty text with
/// `InvalidInput("Empty duration")`, a bad number with
/// `InvalidInput("Invalid duration: <text>")` and an unknown unit with
/// `InvalidInput("Unknown unit: <unit>")`.
pub fn parse_duration(s: &str) -> (r: CmdResult<Duration>)
    requires
        duration_defined(s@),
    ensures
        trim(s@).len() == 0 ==> (r matches Err(CommandError::InvalidInput(m)) && m@
            == "Empty duration"@),
        trim(s@).len() > 0 && parse_u64_spec(trim(s@).drop_last()) is None ==> (r matches Err(
            CommandError::InvalidInput(m),
        ) && m@ == "Invalid duration: "@ + trim(s@)),
        trim(s@).len() > 0 && parse_u64_spec(trim(s@).drop_last()) is Some && unit_seconds(
            trim(s@).last(),
        ) is None ==> (r matches Err(CommandError::InvalidInput(m)) && m@ == "Unknown unit: "@
            + seq![trim(s@).last()]),
        duration_seconds(s@) matches Some(v) ==> (r matches Ok(d) && d.secs_spec() == v),
        r is Ok ==> duration_seconds(s@) is Some,
        r matches Err(e) ==> (e matches CommandError::InvalidInput(m) && m@ == duration_error_message(
            s@,
        )),
{
    let c = chars_of(s);
    let (a, b) = trim_bounds(&c);
    let ghost t = trim(s@);
    if a == b {
        return Err(CommandError::InvalidInput(owned("Empty duration")));
    }
    let num = sub_chars(&c, a, b - 1);
    assert(num@ == t.drop_last());
    let unit = c[b - 1];
    assert(unit == t.last());
    let n = match parse_u64(&num) {
        Some(n) => n,
        None => {
            let mut m = owned("Invalid duration: ");
            let trimmed = sub_chars(&c, a, b);
            let mut i = 0usize;
            while i < trimmed.len()
                invariant
                    i <= trimmed@.len(),
                    trimmed@ == t,
                    m@ == "Invalid duration: "@ + t.take(i as int),
                decreases trimmed@.len() - i,
            {
                push_char(&mut m, trimmed[i]);
                assert(t.take(i + 1) == t.take(i as int).push(t[i as int]));
                i = i + 1;
            }
            assert(t.take(t.len() as int) == t);
            return Err(CommandError::InvalidInput(m));
        },
    };
    let k: u64 = if unit == 's' {
        1
    } else if unit == 'm' {
        60
    } else if unit == 'h' {
        3600
    } else if unit == 'd' {
        86400
    } else if unit == 'w' {
        604800
    } else {
        let mut m = owned("Unknown unit: ");
        push_char(&mut m, unit);
        return Err(CommandError::InvalidInput(m));
    };
    assert(n * k <= u64::MAX);
    Ok(Duration::from_secs(n * k))
}

// ---------------------------------------------------------------------------
// Names and content types
// ---------------------------------------------------------------------------

/// The content type of a (lower-case) file extension.
pub open spec fn mime_for(ext: Seq<char>) -> Seq<char> {
    if ext == "html"@ || ext == "htm"@ {
        "text/html"@
    } else if ext == "css"@ {
        "text/css"@
    } else if ext == "js"@ {
        "application/javascript"@
    } else if ext == "json"@ {
        "application/json"@
    } else if ext == "xml"@ {
        "application/xml"@
    } else if ext == "txt"@ {
        "text/plain"@
    } else if ext == "md"@ {
        "text/markdown"@
    } else if ext == "png"@ {
        "image/png"@
    } else if ext == "jpg"@ || ext == "jpeg"@ {
        "image/jpeg"@
    } else if ext == "gif"@ {
        "image/gif"@
    } else if ext == "svg"@ {
        "image/svg+xml"@
    } else if ext == "pdf"@ {
        "application/pdf"@
    } else if ext == "zip"@ {
        "application/zip"@
    } else if ext == "tar"@ {
        "application/x-tar"@
    } else if ext == "gz"@ {
        "application/gzip"@
    } else if ext == "mp4"@ {
        "video/mp4"@
    } else if ext == "mp3"@ {
        "audio/mpeg"@
    } else if ext == "wav"@ {
        "audio/wav"@
    } else if ext == "ogg"@ {
        "audio/ogg"@
    } else {
        "application/octet-stream"@
    }
}

/// The content type of a lower-case file extension.
pub fn mime_type_for(ext: &str) -> (r: &'static str)
    ensures
        r@ == mime_for(ext@),
{
    let e = chars_of(ext);
    if same_text(&e, "html") || same_text(&e, "htm") {
        "text/html"
    } else if same_text(&e, "css") {
        "text/css"
    } else if same_text(&e, "js") {
        "application/javascript"
    } else if same_text(&e, "json") {
        "application/json"
    } else if same_text(&e, "xml") {
        "application/xml"
    } else if same_text(&e, "txt") {
        "text/plain"
    } else if same_text(&e, "md") {
        "text/markdown"
    } else if same_text(&e, "png") {
        "image/png"
    } else if same_text(&e, "jpg") || same_text(&e, "jpeg") {
        "image/jpeg"
    } else if same_text(&e, "gif") {
        "image/gif"
    } else if same_text(&e, "svg") {
        "image/svg+xml"
    } else if same_text(&e, "pdf") {
        "application/pdf"
    } else if same_text(&e, "zip") {
        "application/zip"
    } else if same_text(&e, "tar") {
        "application/x-tar"
    } else if same_text(&e, "gz") {
        "application/gzip"
    } else if same_text(&e, "mp4") {
        "video/mp4"
    } else if same_text(&e, "mp3") {
        "audio/mpeg"
    } else if same_text(&e, "wav") {
        "audio/wav"
    } else if same_text(&e, "ogg") {
        "audio/ogg"
    } else {
        "application/octet-stream"
    }
}

/// The content type guessed from a path: `None` without an extension, else
/// the type of its lower-cased extension.
pub open spec fn guessed_content_type(path: Seq<char>) -> Option<Seq<char>> {
    match path_extension_of(path) {
        None => None,
        Some(e) => Some(mime_for(lowercase_of(e))),
    }
}

/// The content type guessed for a simple path whose extension is ASCII: the
/// type of its ASCII lower-cased extension; none without an extension.
pub open spec fn ascii_guess(path: Seq<char>) -> Option<Seq<char>> {
    match name_extension(final_component(path)) {
        Some(x) => Some(mime_for(ascii_lower(x))),
        None => None,
    }
}

/// Whether the extension of a path's final component, if any, is ASCII.
pub open spec fn ascii_extension(path: Seq<char>) -> bool {
    name_extension(final_component(path)) matches Some(x) ==> is_ascii_text(x)
}

/// Guesses the content type of a file from its extension.
pub fn guess_content_type(path: &str) -> (r: Option<String>)
    ensures
        r matches Some(c) ==> guessed_content_type(path@) == Some(c@),
        r is None ==> guessed_content_type(path@) is None,
        simple_path(path@) && ascii_extension(path@) ==> match ascii_guess(path@) {
            Some(g) => r matches Some(c) && c@ == g,
            None => r is None,
        },
{
    match path_extension(path) {
        None => None,
        Some(ext) => {
            let lower = lowercase(ext.as_str());
            Some(owned(mime_type_for(lower.as_str())))
        },
    }
}

/// The name of an upload: `stdin` for standard input (no file, or `-`),
/// else the file's name, or `unknown` when the path has none.
pub open spec fn upload_name(file: Option<Seq<char>>) -> Seq<char> {
    match file {
        None => "stdin"@,
        Some(f) => if f == "-"@ {
            "stdin"@
        } else {
            match path_file_name_of(f) {
                Some(n) => n,
                None => "unknown"@,
            }
        },
    }
}

/// The name of an upload.
pub fn push_name(file: Option<&str>) -> (r: String)
    ensures
        r@ == upload_name(
            match file {
                Some(f) => Some(f@),
                None => None,
            },
        ),
{
    match file {
        None => owned("stdin"),
        Some(f) => {
            let fc = chars_of(f);
            if same_text(&fc, "-") {
                owned("stdin")
            } else {
                match path_file_name(f) {
                    Some(n) => n,
                    None => owned("unknown"),
                }
            }
        },
    }
}

/// The folder uploads are stored in.
pub open spec fn upload_prefix() -> Seq<char> {
    "uploads"@
}

/// The key an upload named `name` is stored under with the identifier `id`:
/// `uploads/<id>.<extension>`, or `uploads/<id>` when the name has no
/// extension.
pub open spec fn upload_key(name: Seq<char>, id: Seq<char>) -> Seq<char> {
    upload_prefix() + "/"@ + id + match path_extension_of(name) {
        Some(e) => "."@ + e,
        None => Seq::empty(),
    }
}

/// The key an upload named `name` is stored under with the identifier `id`.
pub fn push_key(name: &str, id: &str) -> (r: String)
    ensures
        r@ == upload_key(name@, id@),
{
    let mut k = owned("uploads/");
    push_str(&mut k, id);
    match path_extension(name) {
        Some(e) => {
            push_str(&mut k, ".");
            push_str(&mut k, e.as_str());
        },
        None => {},
    }
    proof {
        reveal_strlit("uploads");
        reveal_strlit("uploads/");
        reveal_strlit("/");
    }
    k
}

/// A key for a new upload named `name`, under a fresh identifier.
pub fn fresh_key(name: &str) -> (r: String)
    ensures
        exists|id: Seq<char>| is_object_id(id) && r@ == #[trigger] upload_key(name@, id),
{
    let id = generate_id();
    let k = push_key(name, id.as_str());
    assert(is_object_id(id@) && k@ == upload_key(name@, id@));
    k
}

/// The metadata an upload is sent with: its name as original name, the given
/// content type or else the one guessed from the name, the public flag, and
/// the expiry when one is given. A bad expiry is refused as `parse_duration`
/// refuses it.
pub fn push_metadata(
    name: &str,
    public: bool,
    content_type: Option<String>,
    expires: Option<&str>,
) -> (r: CmdResult<FileMetadata>)
    requires
        expires matches Some(e) ==> duration_defined(e@),
    ensures
        expires matches Some(e) ==> (r is Ok <==> duration_seconds(e@) is Some),
        expires is None ==> r is Ok,
        r matches Err(err) ==> (expires matches Some(e) && err matches CommandError::InvalidInput(m)
            && m@ == duration_error_message(e@)),
        r matches Ok(m) ==> {
            &&& m.original_name@ == name@
            &&& match content_type {
                Some(c) => m.content_type == Some(c),
                None => match guessed_content_type(name@) {
                    Some(g) => m.content_type matches Some(c) && c@ == g,
                    None => m.content_type is None,
                },
            }
            &&& m.is_public == public
            &&& m.cache_control is None
            &&& m.content_disposition is None
            &&& m.metadata@ == Map::<String, String>::empty()
            &&& match expires {
                Some(e) => m.expires_after matches Some(d) && duration_seconds(e@) == Some(
                    d.secs_spec() as int,
                ),
                None => m.expires_after is None,
            }
        },
{
    let ct = match content_type {
        Some(c) => Some(c),
        None => guess_content_type(name),
    };
    let mut metadata = FileMetadata {
        original_name: owned(name),
        content_type: ct,
        cache_control: None,
        content_disposition: None,
        metadata: std::collections::HashMap::new(),
        expires_after: None,
        is_public: public,
    };
    match expires {
        Some(e) => {
            match parse_duration(e) {
                Ok(d) => metadata.expires_after = Some(d),
                Err(err) => return Err(err),
            }
        },
        None => {},
    }
    Ok(metadata)
}

/// Where a download goes: the given output path, else a file in the current
/// directory named after the last segment of the object's key (`output` when
/// it has none); and whether it is written to standard output (only for the
/// output path `-`).
pub open spec fn pull_target_spec(id: Seq<char>, output: Option<Seq<char>>) -> (Seq<char>, bool) {
    match output {
        Some(p) => (p, p == "-"@),
        None => (
            match path_file_name_of(id) {
                Some(n) => n,
                None => "output"@,
            },
            false,
        ),
    }
}

/// Where a download goes, and whether to standard output.
pub fn pull_target(id: &str, output: Option<&str>) -> (r: (String, bool))
    ensures
        (r.0@, r.1) == pull_target_spec(
            id@,
            match output {
                Some(p) => Some(p@),
                None => None,
            },
        ),
{
    match output {
        Some(p) => {
            let pc = chars_of(p);
            (owned(p), same_text(&pc, "-"))
        },
        None => {
            let name = match path_file_name(id) {
                Some(n) => n,
                None => owned("output"),
            };
            (name, false)
        },
    }
}

/// The prefix the upload with identifier `id` is stored under.
pub fn id_prefix(id: &str) -> (r: String)
    ensures
        r@ == upload_prefix() + "/"@ + id@,
{
    proof {
        reveal_strlit("uploads");
        reveal_strlit("/");
        reveal_strlit("uploads/");
    }
    let mut r = owned("uploads/");
    push_str(&mut r, id);
    r
}

/// The key of the first listed object whose key names the identifier `id`,
/// if any: how a download by identifier finds its object.
pub fn key_for_id(id: &str, entries: &Vec<FileEntry>) -> (r: Option<String>)
    ensures
        r is None <==> forall|i: int| 0 <= i < entries@.len() ==> key_id(#[trigger] entries@[i].key@)
            != id@,
        r matches Some(k) ==> exists|i: int|
            0 <= i < entries@.len() && k@ == #[trigger] entries@[i].key@ && key_id(k@) == id@
                && forall|j: int| 0 <= j < i ==> key_id(#[trigger] entries@[j].key@) != id@,
{
    let want = chars_of(id);
    let mut i = 0usize;
    while i < entries.len()
        invariant
            i <= entries@.len(),
            want@ == id@,
            forall|j: int| 0 <= j < i ==> key_id(#[trigger] entries@[j].key@) != id@,
        decreases entries@.len() - i,
    {
        let named = key_id_of(entries[i].key.as_str());
        if same_text(&want, named.as_str()) {
            let k = entries[i].key.clone();
            assert(key_id(entries@[i as int].key@) == id@);
            return Some(k);
        }
        i = i + 1;
    }
    None
}

/// What a download does next: fetch an object by key, search a prefix for
/// the object an identifier names, or give up with the not-found error.
#[derive(Debug)]
pub enum PullAction {
    Get(String),
    Search(String),
    Stop,
}

/// A download first fetches its argument as a key.
pub fn pull_start(id: &str) -> (r: PullAction)
    ensures
        r matches PullAction::Get(k) && k@ == id@,
{
    PullAction::Get(owned(id))
}

/// After a fetch found nothing: search for the object the argument names as
/// an identifier, unless that search was already made.
pub fn pull_on_missing(id: &str, searched: bool) -> (r: PullAction)
    ensures
        searched ==> r is Stop,
        !searched ==> (r matches PullAction::Search(p) && p@ == upload_prefix() + "/"@ + id@),
{
    if searched {
        PullAction::Stop
    } else {
        PullAction::Search(id_prefix(id))
    }
}

/// After the search: fetch the first listed object whose key names the
/// identifier, or give up when none does.
pub fn pull_on_listed(id: &str, entries: &Vec<FileEntry>) -> (r: PullAction)
    ensures
        r is Stop <==> forall|i: int| 0 <= i < entries@.len() ==> key_id(#[trigger] entries@[i].key@)
            != id@,
        r matches PullAction::Get(k) ==> exists|i: int|
            0 <= i < entries@.len() && k@ == #[trigger] entries@[i].key@ && key_id(k@) == id@
                && forall|j: int| 0 <= j < i ==> key_id(#[trigger] entries@[j].key@) != id@,
        !(r is Search),
{
    match key_for_id(id, entries) {
        Some(k) => PullAction::Get(k),
        None => PullAction::Stop,
    }
}

/// The refusal to overwrite an existing file without `--force`.
pub fn overwrite_refusal(path: &str) -> (e: CommandError)
    ensures
        e matches CommandError::InvalidInput(m) && m@ == "File '"@ + path@
            + "' already exists. Use --force to overwrite."@,
{
    let mut m = owned("File '");
    push_str(&mut m, path);
    push_str(&mut m, "' already exists. Use --force to overwrite.");
    CommandError::InvalidInput(m)
}

/// A shared link, asking for a download when `download` is set.
pub fn share_url(url: String, download: bool) -> (r: String)
    ensures
        download ==> r@ == url@ + "&ResponseContentDisposition=attachment"@,
        !download ==> r@ == url@,
{
    let mut u = url;
    if download {
        push_str(&mut u, "&ResponseContentDisposition=attachment");
    }
    u
}

// ---------------------------------------------------------------------------
// Sizes
// ---------------------------------------------------------------------------

/// `2^e`.
pub open spec fn two_pow(e: nat) -> nat
    decreases e,
{
    if e == 0 {
        1
    } else {
        2 * two_pow((e - 1) as nat)
    }
}

/// `n / d` rounded to the nearest integer, ties to the even one.
pub open spec fn div_round_half_even(n: int, d: int) -> int {
    let q = n / d;
    let r = n % d;
    if 2 * r > d || (2 * r == d && q % 2 == 1) {
        q + 1
    } else {
        q
    }
}

/// The smallest `e >= from` (at most 64) for which `b / 2^e` fits in the 53
/// significant bits of an `f64`.
pub open spec fn excess_bits_from(b: int, from: nat) -> nat
    decreases 64 - from,
{
    if from >= 64 || b / (two_pow(from) as int) < two_pow(53) {
        from
    } else {
        excess_bits_from(b, from + 1)
    }
}

/// The value of `b as f64`: `b` rounded to 53 significant bits, to nearest,
/// ties to even.
pub open spec fn f64_value_of(b: u64) -> int {
    let e = excess_bits_from(b as int, 0);
    div_round_half_even(b as int, two_pow(e) as int) * two_pow(e)
}

/// `b / 2^k` as an `f64` written with `{:.1}`, in tenths: the exact quotient
/// of the `f64` value rounded to one decimal, ties to the even digit.
pub open spec fn size_tenths(b: u64, k: nat) -> int {
    div_round_half_even(10 * f64_value_of(b), two_pow(k) as int)
}

/// A number of tenths written with one decimal.
pub open spec fn tenths_text(n: int) -> Seq<char> {
    decimal((n / 10) as nat) + "."@ + seq![digit_char(n % 10)]
}

/// How a size in bytes is shown: in `G`, `M` or `K` (powers of 1024) with
/// one decimal from the first unit it reaches, else as bytes (`500B`).
pub open spec fn size_text(b: u64) -> Seq<char> {
    if b >= two_pow(30) {
        tenths_text(size_tenths(b, 30)) + "G"@
    } else if b >= two_pow(20) {
        tenths_text(size_tenths(b, 20)) + "M"@
    } else if b >= two_pow(10) {
        tenths_text(size_tenths(b, 10)) + "K"@
    } else {
        decimal(b as nat) + "B"@
    }
}

proof fn lemma_two_pow_values()
    ensures
        two_pow(10) == 1024,
        two_pow(20) == 1048576,
        two_pow(30) == 1073741824,
        two_pow(53) == 0x20_0000_0000_0000,
        two_pow(64) == 0x1_0000_0000_0000_0000,
{
    reveal_with_fuel(two_pow, 65);
}

/// `n / d` rounded half to even.
fn round_half_even(n: u128, d: u128) -> (r: u128)
    requires
        d > 0,
        n / d < u128::MAX,
    ensures
        r == div_round_half_even(n as int, d as int),
{
    let q = n / d;
    let rem = n % d;
    if (rem > d - rem) || (rem == d - rem && q % 2 == 1) {
        q + 1
    } else {
        q
    }
}

/// The value of `b as f64`, exactly.
fn f64_value(b: u64) -> (v: u128)
    ensures
        v == f64_value_of(b),
        v <= 0x2_0000_0000_0000_0000,
{
    proof {
        lemma_two_pow_values();
    }
    let n = b as u128;
    let mut e: u32 = 0;
    let mut unit: u128 = 1;
    while e < 64 && n / unit >= 0x20_0000_0000_0000
        invariant
            n == b as u128,
            e <= 64,
            unit == two_pow(e as nat),
            unit <= 0x1_0000_0000_0000_0000,
            excess_bits_from(b as int, 0) == excess_bits_from(b as int, e as nat),
            two_pow(53) == 0x20_0000_0000_0000,
            two_pow(64) == 0x1_0000_0000_0000_0000,
            unit > 0,
        decreases 64 - e,
    {
        assert(two_pow((e + 1) as nat) == 2 * two_pow(e as nat));
        assert((b as int) / (two_pow(e as nat) as int) >= two_pow(53));
        assert(excess_bits_from(b as int, e as nat) == excess_bits_from(b as int, (e + 1) as nat));
        proof {
            if e + 1 <= 64 {
                lemma_two_pow_le(e as nat + 1, 64);
            }
        }
        unit = unit * 2;
        e = e + 1;
    }
    assert(excess_bits_from(b as int, e as nat) == e as nat);
    let r = round_half_even(n, unit);
    assert(r * unit <= 0x2_0000_0000_0000_0000) by (nonlinear_arith)
        requires
            r <= n / unit + 1,
            n < 0x1_0000_0000_0000_0000,
            unit > 0,
            unit <= 0x1_0000_0000_0000_0000,
    {
        assert((n / unit) * unit <= n);
        assert(r * unit <= (n / unit) * unit + unit);
    }
    r * unit
}

proof fn lemma_two_pow_le(a: nat, b: nat)
    requires
        a <= b,
    ensures
        two_pow(a) <= two_pow(b),
    decreases b - a,
{
    if a < b {
        lemma_two_pow_le(a, (b - 1) as nat);
        assert(two_pow(b) == 2 * two_pow((b - 1) as nat));
    }
}

/// A number of tenths written with one decimal.
fn tenths_string(n: u128) -> (r: String)
    requires
        n / 10 <= u64::MAX,
    ensures
        r@ == tenths_text(n as int),
{
    let mut s = decimal_string((n / 10) as u64);
    push_str(&mut s, ".");
    push_char(&mut s, char_of_digit((n % 10) as u64));
    s
}

/// Writes a size in bytes for people: `500B`, `1.5K`, `1.0M`, `1.0G`.
pub fn format_size(bytes: u64) -> (r: String)
    ensures
        r@ == size_text(bytes),
{
    proof {
        lemma_two_pow_values();
    }
    let (k, unit_char): (u128, &str) = if bytes >= 1073741824 {
        (1073741824, "G")
    } else if bytes >= 1048576 {
        (1048576, "M")
    } else if bytes >= 1024 {
        (1024, "K")
    } else {
        let mut s = decimal_string(bytes);
        push_str(&mut s, "B");
        return s;
    };
    let v = f64_value(bytes);
    let n = round_half_even(10 * v, k);
    assert(n / 10 <= u64::MAX) by (nonlinear_arith)
        requires
            n <= (10 * v as int) / (k as int) + 1,
            v <= 0x2_0000_0000_0000_0000,
            k >= 1024,
    ;
    let mut s = tenths_string(n);
    push_str(&mut s, unit_char);
    s
}

// ---------------------------------------------------------------------------
// Listings
// ---------------------------------------------------------------------------

/// Whether `key` matches the glob `pat`: `*` stands for any run of
/// characters, `?` for any one character, and every other character for
/// itself.
pub open spec fn glob_match(pat: Seq<char>, key: Seq<char>) -> bool
    decreases pat.len(), key.len(),
{
    if pat.len() == 0 {
        key.len() == 0
    } else if pat[0] == '*' {
        glob_match(pat.drop_first(), key) || (key.len() > 0 && glob_match(pat, key.drop_first()))
    } else if key.len() == 0 {
        false
    } else if pat[0] == '?' || pat[0] == key[0] {
        glob_match(pat.drop_first(), key.drop_first())
    } else {
        false
    }
}

/// Whether a character is a glob wildcard.
pub open spec fn is_wildcard(c: char) -> bool {
    c == '*' || c == '?'
}

/// Whether a pattern holds a wildcard.
pub open spec fn has_wildcard(pat: Seq<char>) -> bool {
    exists|i: int| 0 <= i < pat.len() && is_wildcard(#[trigger] pat[i])
}

/// Whether a listing pattern selects `key`: a pattern with a wildcard is a
/// glob the whole key must match; a plain pattern selects the keys that
/// begin with it.
pub open spec fn pattern_selects(pat: Seq<char>, key: Seq<char>) -> bool {
    if has_wildcard(pat) {
        glob_match(pat, key)
    } else {
        pat.len() <= key.len() && key.take(pat.len() as int) == pat
    }
}

/// The part of a pattern before its first wildcard (the whole pattern when
/// it has none): every key the pattern selects begins with it.
pub open spec fn glob_prefix(pat: Seq<char>) -> Seq<char>
    decreases pat.len(),
{
    if pat.len() == 0 || is_wildcard(pat[0]) {
        Seq::empty()
    } else {
        seq![pat[0]] + glob_prefix(pat.drop_first())
    }
}

/// Whether `key` matches the glob `pat`.
pub fn glob_matches(pat: &str, key: &str) -> (r: bool)
    ensures
        r == glob_match(pat@, key@),
{
    let p = chars_of(pat);
    let k = chars_of(key);
    let n = p.len();
    let m = k.len();
    let mut next: Vec<bool> = Vec::new();
    let mut j = 0usize;
    assert(p@.skip(n as int).len() == 0);
    while j < m
        invariant
            j <= m,
            m == k@.len(),
            n == p@.len(),
            next@.len() == j,
            p@.skip(n as int).len() == 0,
            forall|t: int| 0 <= t < j ==> next@[t] == glob_match(p@.skip(n as int), k@.skip(t)),
        decreases m - j,
    {
        next.push(false);
        j = j + 1;
    }
    assert(k@.skip(m as int).len() == 0);
    next.push(true);
    let mut i = n;
    while i > 0
        invariant
            i <= n == p@.len(),
            m == k@.len(),
            next@.len() == m + 1,
            forall|t: int| 0 <= t <= m ==> next@[t] == glob_match(p@.skip(i as int), k@.skip(t)),
        decreases i,
    {
        let c = p[i - 1];
        let ghost pi = p@.skip(i - 1);
        assert(pi.len() > 0 && pi[0] == c);
        assert(pi.drop_first() =~= p@.skip(i as int));
        let mut cur: Vec<bool> = Vec::new();
        let mut f = 0usize;
        while f < m
            invariant
                f <= m,
                cur@.len() == f,
            decreases m - f,
        {
            cur.push(false);
            f = f + 1;
        }
        let ghost km = k@.skip(m as int);
        assert(km.len() == 0);
        let last = if c == '*' {
            next[m]
        } else {
            false
        };
        assert(last == glob_match(pi, km));
        cur.push(last);
        let mut jj = m;
        while jj > 0
            invariant
                jj <= m,
                i > 0,
                i <= n == p@.len(),
                m == k@.len(),
                c == p@[i - 1],
                pi == p@.skip(i - 1),
                pi.len() > 0 && pi[0] == c,
                pi.drop_first() == p@.skip(i as int),
                cur@.len() == m + 1,
                next@.len() == m + 1,
                forall|t: int| 0 <= t <= m ==> next@[t] == glob_match(p@.skip(i as int), k@.skip(t)),
                forall|t: int| jj <= t <= m ==> cur@[t] == glob_match(pi, k@.skip(t)),
            decreases jj,
        {
            let t = jj - 1;
            let ghost kt = k@.skip(t as int);
            proof {
                assert(kt.drop_first() =~= k@.skip(t + 1));
                assert(kt[0] == k@[t as int]);
            }
            let v = if c == '*' {
                next[t] || cur[t + 1]
            } else if c == '?' || c == k[t] {
                next[t + 1]
            } else {
                false
            };
            assert(v == glob_match(pi, kt));
            cur.set(t, v);
            jj = t;
        }
        next = cur;
        i = i - 1;
    }
    assert(p@.skip(0) =~= p@);
    assert(k@.skip(0) =~= k@);
    next[0]
}

/// Whether a listing pattern selects `key`.
pub fn selects(pat: &str, key: &str) -> (r: bool)
    ensures
        r == pattern_selects(pat@, key@),
{
    let p = chars_of(pat);
    let mut i = 0usize;
    let mut wild = false;
    while i < p.len()
        invariant
            i <= p@.len(),
            wild == exists|t: int| 0 <= t < i && is_wildcard(#[trigger] p@[t]),
        decreases p@.len() - i,
    {
        if p[i] == '*' || p[i] == '?' {
            wild = true;
        }
        i = i + 1;
    }
    if wild {
        glob_matches(pat, key)
    } else {
        let k = chars_of(key);
        if p.len() > k.len() {
            false
        } else {
            let head = sub_chars(&k, 0, p.len());
            assert(head@ == key@.take(pat@.len() as int));
            assert(!has_wildcard(pat@));
            let mut q = 0usize;
            while q < p.len()
                invariant
                    q <= p@.len() == head@.len(),
                    p@ == pat@,
                    pat@.len() <= key@.len(),
                    head@ == key@.take(pat@.len() as int),
                    !has_wildcard(pat@),
                    forall|t: int| 0 <= t < q ==> head@[t] == p@[t],
                decreases p@.len() - q,
            {
                if head[q] != p[q] {
                    assert(head@[q as int] != p@[q as int]);
                    assert(head@ != p@);
                    return false;
                }
                q = q + 1;
            }
            assert(head@ =~= p@);
            true
        }
    }
}

/// The prefix a listing asks the storage for: the part of the pattern
/// before its first wildcard.
pub fn list_prefix(pat: &str) -> (r: String)
    ensures
        r@ == glob_prefix(pat@),
{
    let p = chars_of(pat);
    let mut i = 0usize;
    assert(p@.take(0) =~= Seq::<char>::empty());
    assert(p@.skip(0) =~= p@);
    assert(Seq::<char>::empty() + glob_prefix(p@) =~= glob_prefix(p@));
    while i < p.len() && p[i] != '*' && p[i] != '?'
        invariant
            i <= p@.len(),
            glob_prefix(pat@) == p@.take(i as int) + glob_prefix(p@.skip(i as int)),
        decreases p@.len() - i,
    {
        proof {
            let s = p@.skip(i as int);
            assert(s.drop_first() =~= p@.skip(i + 1));
            assert(p@.take(i + 1) =~= p@.take(i as int) + seq![s[0]]);
            assert(p@.take(i as int) + (seq![s[0]] + glob_prefix(s.drop_first()))
                =~= p@.take(i + 1) + glob_prefix(p@.skip(i + 1)));
        }
        i = i + 1;
    }
    string_of(&p, 0, i)
}

/// The entries of a listing that a pattern selects, in their order.
pub open spec fn selected(pat: Seq<char>, entries: Seq<FileEntry>) -> Seq<FileEntry>
    decreases entries.len(),
{
    if entries.len() == 0 {
        Seq::empty()
    } else {
        (if pattern_selects(pat, entries[0].key@) {
            seq![entries[0]]
        } else {
            Seq::empty()
        }) + selected(pat, entries.drop_first())
    }
}

/// The entries of a listing that a pattern selects; all of them when there
/// is no pattern.
pub fn select_entries(pat: Option<&str>, entries: Vec<FileEntry>) -> (r: Vec<FileEntry>)
    ensures
        r@ == match pat {
            Some(p) => selected(p@, entries@),
            None => entries@,
        },
{
    let p = match pat {
        None => return entries,
        Some(p) => p,
    };
    let ghost all = entries@;
    let mut rest = entries;
    let mut kept: Vec<FileEntry> = Vec::new();
    assert(rest@ =~= all.skip(0));
    while rest.len() > 0
        invariant
            selected(p@, all) == kept@ + selected(p@, rest@),
        decreases rest@.len(),
    {
        let e = rest.remove(0);
        let ghost tail = rest@;
        let keep = selects(p, e.key.as_str());
        let ghost before = kept@;
        if keep {
            kept.push(e);
        }
        proof {
            if keep {
                assert(before + (seq![e] + selected(p@, tail)) =~= kept@ + selected(p@, tail));
            } else {
                assert(before + (Seq::<FileEntry>::empty() + selected(p@, tail)) =~= kept@ + selected(p@, tail));
            }
        }
    }
    assert(kept@ + Seq::<FileEntry>::empty() =~= kept@);
    kept
}


/// `n` spaces.
pub open spec fn spaces(n: int) -> Seq<char> {
    Seq::new(if n > 0 { n as nat } else { 0 }, |i: int| ' ')
}

/// `s` padded with spaces on the right to at least `w` characters (`{:<w}`).
pub open spec fn pad_right(s: Seq<char>, w: int) -> Seq<char> {
    s + spaces(w - s.len())
}

/// `s` padded with spaces on the left to at least `w` characters (`{:>w}`).
pub open spec fn pad_left(s: Seq<char>, w: int) -> Seq<char> {
    spaces(w - s.len()) + s
}

/// The date a long listing shows for an instant: `YYYY-MM-DD HH:MM` in
/// UTC; empty for an instant outside chrono's range.
pub fn listing_date(t: Timestamp) -> (r: String)
    ensures
        is_clock_reading(t) ==> r@ == stamp_of(t, "%Y-%m-%d %H:%M"@),
        !is_clock_reading(t) ==> r@ == Seq::<char>::empty(),
{
    proof {
        reveal_strlit("%Y-%m-%d %H:%M");
    }
    if -8_334_601_315_200i64 <= t.secs && t.secs <= 8_210_266_876_799i64 && t.nanos < 1_000_000_000 {
        utc_text(t, "%Y-%m-%d %H:%M")
    } else {
        String::new()
    }
}

/// One line of a long listing: the key in a column of 40, the size
/// right-aligned in a column of 12, then the date.
pub open spec fn listing_line_spec(key: Seq<char>, size: Seq<char>, date: Seq<char>) -> Seq<char> {
    pad_right(key, 40) + " "@ + pad_left(size, 12) + " "@ + date
}

/// `n` spaces.
fn space_string(n: usize) -> (r: String)
    ensures
        r@ == spaces(n as int),
{
    let mut r = String::new();
    let mut i = 0usize;
    while i < n
        invariant
            i <= n,
            r@ == spaces(i as int),
        decreases n - i,
    {
        push_char(&mut r, ' ');
        assert(spaces(i + 1) == spaces(i as int).push(' '));
        i = i + 1;
    }
    r
}

/// One line of a long listing.
pub fn listing_line(key: &str, size: &str, date: &str) -> (r: String)
    ensures
        r@ == listing_line_spec(key@, size@, date@),
{
    let kc = chars_of(key);
    let sc = chars_of(size);
    let mut r = owned(key);
    let kpad = if kc.len() < 40 { space_string(40 - kc.len()) } else { space_string(0) };
    assert(kpad@ == spaces(40 - key@.len()));
    push_str(&mut r, kpad.as_str());
    push_str(&mut r, " ");
    let spad = if sc.len() < 12 { space_string(12 - sc.len()) } else { space_string(0) };
    assert(spad@ == spaces(12 - size@.len()));
    push_str(&mut r, spad.as_str());
    push_str(&mut r, size);
    push_str(&mut r, " ");
    push_str(&mut r, date);
    r
}

/// The rule under the header of a long listing: 80 dashes.
pub fn listing_rule() -> (r: String)
    ensures
        r@ == Seq::new(80, |i: int| '-'),
{
    let mut r = String::new();
    let mut i = 0usize;
    while i < 80
        invariant
            i <= 80,
            r@ == Seq::new(i as nat, |k: int| '-'),
        decreases 80 - i,
    {
        push_char(&mut r, '-');
        assert(Seq::new((i + 1) as nat, |k: int| '-') == Seq::new(i as nat, |k: int| '-').push('-'));
        i = i + 1;
    }
    r
}

/// The header of a long listing.
pub fn listing_header() -> (r: String)
    ensures
        r@ == listing_line_spec("KEY"@, "SIZE"@, "CREATED"@),
{
    listing_line("KEY", "SIZE", "CREATED")
}

/// The lines `info` shows for an object before its custom metadata: key and
/// original name, then the content type, cache control and disposition when
/// known, and `Yes` when public.
pub open spec fn info_lines_spec(id: Seq<char>, m: FileMetadata) -> Seq<Seq<char>> {
    seq!["Key:          "@ + id, "Original Name: "@ + m.original_name@] + (match m.content_type {
        Some(c) => seq!["Content-Type:  "@ + c@],
        None => Seq::empty(),
    }) + (match m.cache_control {
        Some(c) => seq!["Cache-Control: "@ + c@],
        None => Seq::empty(),
    }) + (match m.content_disposition {
        Some(c) => seq!["Disposition:   "@ + c@],
        None => Seq::empty(),
    }) + (if m.is_public {
        seq!["Public:        Yes"@]
    } else {
        Seq::empty()
    })
}

/// `prefix` followed by `s`.
fn prefixed(prefix: &str, s: &str) -> (r: String)
    ensures
        r@ == prefix@ + s@,
{
    let mut r = owned(prefix);
    push_str(&mut r, s);
    r
}

/// The lines `info` shows for an object before its custom metadata.
pub fn info_lines(id: &str, m: &FileMetadata) -> (r: Vec<String>)
    ensures
        r@.map_values(|s: String| s@) == info_lines_spec(id@, *m),
{
    let mut lines: Vec<String> = Vec::new();
    let ghost mut expected: Seq<Seq<char>> = Seq::empty();
    lines.push(prefixed("Key:          ", id));
    proof { expected = expected.push("Key:          "@ + id@); }
    lines.push(prefixed("Original Name: ", m.original_name.as_str()));
    proof { expected = expected.push("Original Name: "@ + m.original_name@); }
    assert(lines@.map_values(|s: String| s@) == expected);
    match &m.content_type {
        Some(c) => {
            lines.push(prefixed("Content-Type:  ", c.as_str()));
            proof { expected = expected.push("Content-Type:  "@ + c@); }
        },
        None => {},
    }
    assert(lines@.map_values(|s: String| s@) == expected);
    match &m.cache_control {
        Some(c) => {
            lines.push(prefixed("Cache-Control: ", c.as_str()));
            proof { expected = expected.push("Cache-Control: "@ + c@); }
        },
        None => {},
    }
    assert(lines@.map_values(|s: String| s@) == expected);
    match &m.content_disposition {
        Some(c) => {
            lines.push(prefixed("Disposition:   ", c.as_str()));
            proof { expected = expected.push("Disposition:   "@ + c@); }
        },
        None => {},
    }
    assert(lines@.map_values(|s: String| s@) == expected);
    if m.is_public {
        lines.push(owned("Public:        Yes"));
        proof { expected = expected.push("Public:        Yes"@); }
    }
    assert(lines@.map_values(|s: String| s@) == expected);
    assert(expected == info_lines_spec(id@, *m));
    lines
}

} // verus!
