//! Regular expressions from the `regex` crate: compilation, matching, and a
//! thread-safe cache of compiled patterns keyed by pattern text.
use std::sync::Arc;

use vstd::prelude::*;
use vstd::hash_map::StringHashMap;
use vstd::rwlock::{RwLock, RwLockPredicate};

verus! {

#[verifier::external_type_specification]
#[verifier::external_body]
pub struct ExRegex(regex::Regex);

#[verifier::external_type_specification]
#[verifier::external_body]
pub struct ExRegexError(regex::Error);

/// Whether `regex::Regex::new` accepts the pattern (it rejects invalid syntax
/// and patterns whose compiled form exceeds the default size limit).
pub uninterp spec fn regex_compiles(pattern: Seq<char>) -> bool;

/// What `regex::Regex::is_match` answers for a regex compiled from
/// `pattern`: whether it matches anywhere in `haystack`.
pub uninterp spec fn regex_is_match(pattern: Seq<char>, haystack: Seq<char>) -> bool;

/// A compiled regular expression together with the pattern text it was
/// compiled from. Values are only built by compiling (or cloning one that
/// was), so the regex always belongs to the pattern.
pub struct CompiledRegex {
    source: String,
    regex: regex::Regex,
}

/// `regex::Regex::new(pattern)`: `Ok` exactly when the pattern compiles; the
/// compiled value keeps the pattern text beside the regex.
#[verifier::external_body]
fn regex_new(pattern: &str) -> (r: Result<CompiledRegex, regex::Error>)
    ensures
        r is Ok <==> regex_compiles(pattern@),
        r matches Ok(c) ==> c.source() == pattern@,
{
    regex::Regex::new(pattern).map(|regex| CompiledRegex { source: pattern.to_string(), regex })
}

/// `regex::Regex::is_match(haystack)` on the regex that was compiled from
/// `c.source()`.
#[verifier::external_body]
fn regex_is_match_call(c: &CompiledRegex, haystack: &str) -> (r: bool)
    ensures
        r == regex_is_match(c.source(), haystack@),
{
    c.regex.is_match(haystack)
}

/// `<regex::Regex as Clone>::clone`: the same compiled regex.
#[verifier::external_body]
fn regex_clone(c: &CompiledRegex) -> (r: CompiledRegex)
    ensures
        r.source() == c.source(),
{
    CompiledRegex { source: c.source.clone(), regex: c.regex.clone() }
}

impl CompiledRegex {
    /// The pattern text this regex was compiled from.
    pub closed spec fn source(&self) -> Seq<char> {
        self.source@
    }

    /// Compiles `pattern`; the error is the one `regex` reports.
    pub fn compile(pattern: &str) -> (r: Result<CompiledRegex, regex::Error>)
        ensures
            r is Ok <==> regex_compiles(pattern@),
            r matches Ok(c) ==> c.source() == pattern@,
    {
        regex_new(pattern)
    }

    /// The pattern text this regex was compiled from.
    pub fn as_str(&self) -> (r: &str)
        ensures
            r@ == self.source(),
    {
        self.source.as_str()
    }

    /// Whether the regex matches anywhere in `haystack`.
    pub fn is_match(&self, haystack: &str) -> (r: bool)
        ensures
            r == regex_is_match(self.source(), haystack@),
    {
        regex_is_match_call(self, haystack)
    }
}

impl Clone for CompiledRegex {
    fn clone(&self) -> (r: Self)
        ensures
            r.source() == self.source(),
    {
        regex_clone(self)
    }
}

/// A cache entry is faithful: a compiled regex is stored for `key` exactly
/// when `key` compiles, and it was compiled from `key`.
pub open spec fn entry_faithful(key: Seq<char>, e: Option<CompiledRegex>) -> bool {
    &&& (e is Some) == regex_compiles(key)
    &&& e matches Some(c) ==> c.source() == key
}

/// The invariant of the cache's lock: every entry is faithful to its key.
pub struct FaithfulEntries;

impl RwLockPredicate<StringHashMap<Option<CompiledRegex>>> for FaithfulEntries {
    open spec fn inv(self, m: StringHashMap<Option<CompiledRegex>>) -> bool {
        forall|k: Seq<char>| #[trigger] m@.contains_key(k) ==> entry_faithful(k, m@[k])
    }
}

/// Cache of compiled regex patterns keyed by the raw pattern string.
/// Prevents re-compilation on every evaluation pass; clones share one cache.
#[derive(Clone)]
pub struct RegexCache {
    inner: Arc<RwLock<StringHashMap<Option<CompiledRegex>>, FaithfulEntries>>,
}

impl Default for RegexCache {
    /// An empty cache.
    fn default() -> (r: RegexCache) {
        let lock = RwLock::new(StringHashMap::new(), Ghost(FaithfulEntries));
        RegexCache { inner: Arc::new(lock) }
    }
}

impl RegexCache {
    /// Returns a compiled regex, or `None` if the pattern is invalid.
    pub fn get_or_compile(&self, pattern: &str) -> (r: Option<CompiledRegex>)
        ensures
            r is Some <==> regex_compiles(pattern@),
            r matches Some(c) ==> c.source() == pattern@,
    {
        // Fast path: already compiled.
        let read = self.inner.acquire_read();
        let cached = read.borrow();
        let found: Option<Option<CompiledRegex>> = match cached.get(pattern) {
            Some(e) => {
                assert(entry_faithful(pattern@, cached@[pattern@]));
                Some(
                    match e {
                        Some(c) => Some(c.clone()),
                        None => None,
                    },
                )
            },
            None => None,
        };
        read.release_read();
        if let Some(e) = found {
            return e;
        }
        // Slow path: compile and insert.
        let compiled = match CompiledRegex::compile(pattern) {
            Ok(c) => Some(c),
            Err(_) => None,
        };
        let stored = match &compiled {
            Some(c) => Some(c.clone()),
            None => None,
        };
        let (mut cached, write) = self.inner.acquire_write();
        cached.insert(pattern.to_owned(), stored);
        write.release_write(cached);
        compiled
    }
}

} // verus!
