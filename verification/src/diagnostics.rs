//! Decisions of the diagnostic logger: what a record holds and when the log
//! file rotates. The logger writes JSON Lines records to a file that rotates
//! at 5 MB, keeping the current file and one backup.

use vstd::prelude::*;
use crate::text;

verus! {

pub const MAX_LOG_BYTES: u64 = 5242880;

pub const LOG_FILE_NAME: &'static str = "myfocus-diagnostic.jsonl";

pub const BACKUP_FILE_NAME: &'static str = "myfocus-diagnostic.1.jsonl";

pub const EVENT_MAX_CHARS: usize = 120;

pub const DETAILS_MAX_CHARS: usize = 8000;

pub struct DiagnosticInfo {
    pub enabled: bool,
    pub directory: String,
    pub file: String,
    pub size_bytes: u64,
}

/// The level a record carries: `error`, `warn` (also for `warning`), `debug`, and
/// `info` for anything else; the level is compared ignoring ASCII case.
pub open spec fn spec_normalize_level(level: Seq<char>) -> Seq<char> {
    let l = text::lower_seq(level);
    if l == "error"@ {
        "error"@
    } else if l == "warn"@ || l == "warning"@ {
        "warn"@
    } else if l == "debug"@ {
        "debug"@
    } else {
        "info"@
    }
}

pub fn normalize_level(level: &str) -> (r: &'static str)
    ensures
        r@ == spec_normalize_level(level@),
{
    let l = text::lower_vec(&text::chars_of(level));
    if text::seq_eq(&l, &text::chars_of("error")) {
        "error"
    } else if text::seq_eq(&l, &text::chars_of("warn")) || text::seq_eq(&l, &text::chars_of("warning")) {
        "warn"
    } else if text::seq_eq(&l, &text::chars_of("debug")) {
        "debug"
    } else {
        "info"
    }
}

proof fn lemma_lower_fixed(s: Seq<char>)
    requires
        forall|i: int| 0 <= i < s.len() ==> !('A' <= #[trigger] s[i] && s[i] <= 'Z'),
    ensures
        text::lower_seq(s) == s,
{
    assert(text::lower_seq(s) =~= s);
}

/// A normalized level is one of the four levels and normalizes to itself.
pub proof fn lemma_normalize_level_idempotent(level: Seq<char>)
    ensures
        spec_normalize_level(spec_normalize_level(level)) == spec_normalize_level(level),
        spec_normalize_level(level) == "error"@ || spec_normalize_level(level) == "warn"@
            || spec_normalize_level(level) == "debug"@ || spec_normalize_level(level) == "info"@,
{
    reveal_strlit("error");
    reveal_strlit("warn");
    reveal_strlit("debug");
    reveal_strlit("info");
    reveal_strlit("warning");
    let n = spec_normalize_level(level);
    lemma_lower_fixed(n);
    assert("info"@ != "error"@ && "info"@ != "warn"@ && "info"@ != "warning"@ && "info"@ != "debug"@) by {
        assert("info"@[0] != "error"@[0]);
        assert("info"@[0] != "warn"@[0]);
        assert("info"@[0] != "warning"@[0]);
        assert("info"@[0] != "debug"@[0]);
    }
    assert("warn"@ != "error"@) by {
        assert("warn"@[0] != "error"@[0]);
    }
    assert("debug"@ != "error"@ && "debug"@ != "warn"@ && "debug"@ != "warning"@) by {
        assert("debug"@[0] != "error"@[0]);
        assert("debug"@[0] != "warn"@[0]);
        assert("debug"@[0] != "warning"@[0]);
    }
}

/// `value.chars().take(max_chars).collect()`.
pub open spec fn spec_truncate(value: Seq<char>, max_chars: int) -> Seq<char> {
    if max_chars < value.len() {
        value.take(max_chars)
    } else {
        value
    }
}

pub fn truncate(value: &str, max_chars: usize) -> (r: String)
    ensures
        r@ == spec_truncate(value@, max_chars as int),
{
    let v = text::chars_of(value);
    text::string_from_chars(&text::take_chars(&v, max_chars))
}

/// Truncation never lengthens and keeps a prefix.
pub proof fn lemma_truncate_prefix(value: Seq<char>, max_chars: int)
    requires
        max_chars >= 0,
    ensures
        spec_truncate(value, max_chars).len() <= max_chars,
        spec_truncate(value, max_chars).len() <= value.len(),
        value.take(spec_truncate(value, max_chars).len() as int) == spec_truncate(value, max_chars),
{
    assert(value.take(value.len() as int) =~= value);
}

/// What the logger does with the details of a record.
pub enum DetailsLimit {
    /// keep the details as they are
    Keep,
    /// replace the details by this JSON string
    Replace(String),
}

/// Details that are a JSON string are cut to 8000 characters; other details are
/// kept when their JSON text has at most 8000 characters, else replaced by the
/// first 8000 characters of that text.
pub fn limit_details(string_content: Option<&str>, rendered: &str) -> (r: DetailsLimit)
    ensures
        string_content matches Some(s) ==> (r matches DetailsLimit::Replace(t) && t@ == spec_truncate(
            s@,
            8000,
        )),
        string_content is None && rendered@.len() <= 8000 ==> r is Keep,
        string_content is None && rendered@.len() > 8000 ==> (r matches DetailsLimit::Replace(t) && t@
            == rendered@.take(8000)),
{
    match string_content {
        Some(s) => DetailsLimit::Replace(truncate(s, DETAILS_MAX_CHARS)),
        None => {
            let v = text::chars_of(rendered);
            if v.len() <= DETAILS_MAX_CHARS {
                DetailsLimit::Keep
            } else {
                DetailsLimit::Replace(truncate(rendered, DETAILS_MAX_CHARS))
            }
        },
    }
}

/// The current file is rotated before a write once it holds 5 MB.
pub fn needs_rotation(current_size: u64) -> (r: bool)
    ensures
        r == (current_size >= MAX_LOG_BYTES),
{
    current_size >= MAX_LOG_BYTES
}

/// What switching logging on or off does.
pub enum EnableChange {
    /// the flag already had the requested value
    Unchanged,
    /// logging was turned on: a `logging_enabled` record follows
    Enabled,
    /// logging was turned off: a final `logging_disabled` record is written and the file closed
    Disabled,
}

pub fn enable_change(previous: bool, requested: bool) -> (r: EnableChange)
    ensures
        previous == requested ==> r is Unchanged,
        !previous && requested ==> r is Enabled,
        previous && !requested ==> r is Disabled,
{
    if previous == requested {
        EnableChange::Unchanged
    } else if requested {
        EnableChange::Enabled
    } else {
        EnableChange::Disabled
    }
}

/// Level and event name as a record stores them.
pub fn record_head(level: &str, event: &str) -> (r: (&'static str, String))
    ensures
        r.0@ == spec_normalize_level(level@),
        r.1@ == spec_truncate(event@, 120),
{
    (normalize_level(level), truncate(event, EVENT_MAX_CHARS))
}

} // verus!
