//! The response cache: one file for each request path, named by a hash of the
//! path, and the decisions that keep a bad response out of it.

use crate::text::{contains, hex, occurs, to_hex};
use vstd::prelude::*;
use vstd::string::StringExecFns;

verus! {

/// The MD5 digest of `data`, as the `md5` crate computes it.
pub uninterp spec fn md5_of(data: Seq<u8>) -> Seq<u8>;

/// `md5::compute` hashes the bytes it is given and returns the sixteen bytes
/// of the digest. The digest depends on those bytes alone.
#[verifier::external_body]
fn md5_digest(data: &[u8]) -> (digest: [u8; 16])
    ensures
        digest@ == md5_of(data@),
{
    md5::compute(data).0
}

/// The directory that holds the cache files.
pub const CACHE_DIR: &'static str = "cache";

/// The cache file for a digest: inside the cache directory, the digest in
/// lower-case hexadecimal, then `.json`.
pub open spec fn file_of_digest(digest: Seq<u8>) -> Seq<char> {
    CACHE_DIR@ + "/"@ + hex(digest) + ".json"@
}

/// The cache file of a request path: the file for the digest of the path's
/// UTF-8 bytes.
pub open spec fn cache_file_of(path: Seq<char>) -> Seq<char> {
    file_of_digest(md5_of(vstd::utf8::encode_utf8(path)))
}

/// The cache file for a digest.
pub fn file_for_digest(digest: &[u8]) -> (file: String)
    ensures
        file@ == file_of_digest(digest@),
{
    let name = to_hex(digest);
    let mut file = String::from_str(CACHE_DIR);
    file.append("/");
    file.append(name.as_str());
    file.append(".json");
    file
}

/// The cache file of a request path. Equal paths share a file; the path is
/// hashed as it stands.
pub fn cache_file_path(path: &str) -> (file: String)
    ensures
        file@ == cache_file_of(path@),
{
    let digest = md5_digest(path.as_bytes());
    file_for_digest(digest.as_slice())
}

/// The phrase by which the service says that the quota of the day is used up.
pub const QUOTA_PHRASE: &'static str = "Too many requests for 24 hrs.";

/// Why the whole run has to stop.
#[derive(Clone, Copy, Debug, PartialEq, Eq, Structural)]
pub enum Fatal {
    /// The service has said that it will answer no more requests today.
    QuotaExhausted,
    /// A cache file does not hold what was written to it.
    CorruptCache,
}

/// What becomes of a text that was read for a request.
#[derive(Clone, Copy, Debug, PartialEq, Eq, Structural)]
pub enum Verdict {
    /// The text has the expected shape: the caller gets what it parses to.
    Accept,
    /// The resource has nothing: the caller gets the empty value.
    Nothing,
    /// The run stops.
    Stop(Fatal),
}

/// The verdict on a text that the cache held. `parses` says whether the text
/// has the expected shape. The cache is written only with texts that have
/// it, so one that has not is damage.
pub open spec fn verdict_on_cached(parses: bool) -> Verdict {
    if parses {
        Verdict::Accept
    } else {
        Verdict::Stop(Fatal::CorruptCache)
    }
}

/// The verdict on a text that the service sent. `parses` says whether the
/// text has the expected shape. One that has not is the end of the run where
/// it holds the quota phrase, and stands for "nothing" otherwise.
pub open spec fn verdict_on_fetched(body: Seq<char>, parses: bool) -> Verdict {
    if parses {
        Verdict::Accept
    } else if occurs(body, QUOTA_PHRASE@) {
        Verdict::Stop(Fatal::QuotaExhausted)
    } else {
        Verdict::Nothing
    }
}

/// Judges a text that the cache held.
pub fn judge_cached(parses: bool) -> (verdict: Verdict)
    ensures
        verdict == verdict_on_cached(parses),
{
    if parses {
        Verdict::Accept
    } else {
        Verdict::Stop(Fatal::CorruptCache)
    }
}

/// Judges a text that the service sent.
pub fn judge_fetched(body: &str, parses: bool) -> (verdict: Verdict)
    ensures
        verdict == verdict_on_fetched(body@, parses),
{
    if parses {
        Verdict::Accept
    } else if contains(body, QUOTA_PHRASE) {
        Verdict::Stop(Fatal::QuotaExhausted)
    } else {
        Verdict::Nothing
    }
}

/// Where a lookup stands: what the caller is to do next, or how it ended.
#[derive(Debug)]
pub enum Lookup {
    /// Read this cache file and answer with what was found.
    ReadCache { file: String },
    /// Ask the service for the path and answer with what it sent.
    Fetch { file: String },
    /// Write the text that the service sent to this cache file, as it came;
    /// the caller gets what the text parses to.
    StoreAndUse { file: String },
    /// The caller gets what the cached text parses to.
    UseCached,
    /// The caller gets the empty value. Nothing is written.
    UseEmpty,
    /// The run stops.
    Stop(Fatal),
}

/// A lookup with its file names as sequences of characters.
pub enum LookupView {
    ReadCache { file: Seq<char> },
    Fetch { file: Seq<char> },
    StoreAndUse { file: Seq<char> },
    UseCached,
    UseEmpty,
    Stop(Fatal),
}

impl View for Lookup {
    type V = LookupView;

    open spec fn view(&self) -> LookupView {
        match self {
            Lookup::ReadCache { file } => LookupView::ReadCache { file: file@ },
            Lookup::Fetch { file } => LookupView::Fetch { file: file@ },
            Lookup::StoreAndUse { file } => LookupView::StoreAndUse { file: file@ },
            Lookup::UseCached => LookupView::UseCached,
            Lookup::UseEmpty => LookupView::UseEmpty,
            Lookup::Stop(why) => LookupView::Stop(*why),
        }
    }
}

/// What the caller found when it did what a lookup asked for. `parses` says
/// whether the text has the shape that the request expects.
#[derive(Debug)]
pub enum Answer<'a> {
    /// There is no cache file.
    NoCacheFile,
    /// The cache file holds a text.
    CacheFile { parses: bool },
    /// The service sent a text.
    Service { body: &'a str, parses: bool },
}

/// An answer with its text as a sequence of characters.
pub enum AnswerView {
    NoCacheFile,
    CacheFile { parses: bool },
    Service { body: Seq<char>, parses: bool },
}

impl<'a> View for Answer<'a> {
    type V = AnswerView;

    open spec fn view(&self) -> AnswerView {
        match self {
            Answer::NoCacheFile => AnswerView::NoCacheFile,
            Answer::CacheFile { parses } => AnswerView::CacheFile { parses: *parses },
            Answer::Service { body, parses } => AnswerView::Service { body: body@, parses: *parses },
        }
    }
}

/// The first step of a lookup: read the cache file of the path.
pub open spec fn first_step(path: Seq<char>) -> LookupView {
    LookupView::ReadCache { file: cache_file_of(path) }
}

/// The step that follows `state` on `answer`. The service is asked only
/// where there is no cache file, and only a text that was accepted is
/// stored. An answer that the state did not ask for changes nothing.
pub open spec fn next_step(state: LookupView, answer: AnswerView) -> LookupView {
    match (state, answer) {
        (LookupView::ReadCache { file }, AnswerView::NoCacheFile) => LookupView::Fetch { file },
        (LookupView::ReadCache { file }, AnswerView::CacheFile { parses }) => match verdict_on_cached(
            parses,
        ) {
            Verdict::Accept => LookupView::UseCached,
            Verdict::Nothing => LookupView::UseEmpty,
            Verdict::Stop(why) => LookupView::Stop(why),
        },
        (LookupView::Fetch { file }, AnswerView::Service { body, parses }) => match verdict_on_fetched(
            body,
            parses,
        ) {
            Verdict::Accept => LookupView::StoreAndUse { file },
            Verdict::Nothing => LookupView::UseEmpty,
            Verdict::Stop(why) => LookupView::Stop(why),
        },
        _ => state,
    }
}

impl Lookup {
    /// Starts the lookup of a request path.
    pub fn begin(path: &str) -> (start: Lookup)
        ensures
            start@ == first_step(path@),
    {
        Lookup::ReadCache { file: cache_file_path(path) }
    }

    /// Takes the caller's answer and says what follows.
    pub fn step(self, answer: &Answer<'_>) -> (next: Lookup)
        ensures
            next@ == next_step(self@, answer@),
    {
        match self {
            Lookup::ReadCache { file } => match answer {
                Answer::NoCacheFile => Lookup::Fetch { file },
                Answer::CacheFile { parses } => match judge_cached(*parses) {
                    Verdict::Accept => Lookup::UseCached,
                    Verdict::Nothing => Lookup::UseEmpty,
                    Verdict::Stop(why) => Lookup::Stop(why),
                },
                Answer::Service { .. } => Lookup::ReadCache { file },
            },
            Lookup::Fetch { file } => match answer {
                Answer::Service { body, parses } => match judge_fetched(body, *parses) {
                    Verdict::Accept => Lookup::StoreAndUse { file },
                    Verdict::Nothing => Lookup::UseEmpty,
                    Verdict::Stop(why) => Lookup::Stop(why),
                },
                _ => Lookup::Fetch { file },
            },
            other => other,
        }
    }
}

/// What a request gave its caller.
pub enum Reply {
    /// The value that this text parses to.
    Parsed(Seq<char>),
    /// The empty value.
    Empty,
    /// Nothing: the run stopped.
    Stopped(Fatal),
}

/// A request that was served: the cache files after it, what the caller got
/// and whether the service was asked.
pub struct Exchange {
    pub files: Map<Seq<char>, Seq<char>>,
    pub reply: Reply,
    pub asked_service: bool,
}

/// What the last step of a lookup does to the cache files and hands to the
/// caller. `text` is the text that the lookup was about.
pub open spec fn conclude(
    last: LookupView,
    files: Map<Seq<char>, Seq<char>>,
    text: Seq<char>,
    asked_service: bool,
) -> Exchange {
    match last {
        LookupView::StoreAndUse { file } => Exchange {
            files: files.insert(file, text),
            reply: Reply::Parsed(text),
            asked_service,
        },
        LookupView::UseCached => Exchange { files, reply: Reply::Parsed(text), asked_service },
        LookupView::Stop(why) => Exchange { files, reply: Reply::Stopped(why), asked_service },
        _ => Exchange { files, reply: Reply::Empty, asked_service },
    }
}

/// One request, served by a caller that follows the lookup step by step and
/// answers truthfully: `files` is what the cache holds, `remote` what the
/// service would send for the path, and `parses` tells which texts have the
/// shape that the request expects.
pub open spec fn serve(
    files: Map<Seq<char>, Seq<char>>,
    path: Seq<char>,
    remote: Seq<char>,
    parses: spec_fn(Seq<char>) -> bool,
) -> Exchange {
    let file = cache_file_of(path);
    let found = if files.dom().contains(file) {
        AnswerView::CacheFile { parses: parses(files[file]) }
    } else {
        AnswerView::NoCacheFile
    };
    let second = next_step(first_step(path), found);
    if second is Fetch {
        let sent = AnswerView::Service { body: remote, parses: parses(remote) };
        conclude(next_step(second, sent), files, remote, true)
    } else {
        conclude(second, files, files[file], false)
    }
}

/// Every cache file holds a text of the expected shape.
pub open spec fn sound(files: Map<Seq<char>, Seq<char>>, parses: spec_fn(Seq<char>) -> bool) -> bool {
    forall|file: Seq<char>| files.dom().contains(file) ==> parses(#[trigger] files[file])
}

/// Serving a request never spoils the cache. Where every file held a text of
/// the expected shape before, every file does so after, whatever the service
/// sent; and no file that was there is changed or lost.
pub proof fn lemma_cache_stays_sound(
    files: Map<Seq<char>, Seq<char>>,
    path: Seq<char>,
    remote: Seq<char>,
    parses: spec_fn(Seq<char>) -> bool,
)
    requires
        sound(files, parses),
    ensures
        sound(serve(files, path, remote, parses).files, parses),
        forall|file: Seq<char>|
            files.dom().contains(file) ==> serve(files, path, remote, parses).files.dom().contains(
                file,
            ) && serve(files, path, remote, parses).files[file] == #[trigger] files[file],
{
}

/// Asking twice gives the same value, and the second time the service is not
/// asked. This holds of every path, for a service that sends a text of the
/// expected shape and a cache whose files were written by earlier lookups:
/// the first lookup hands out a parsed value, the text `body` itself where
/// the cache had no file for the path; the second hands out the same,
/// whatever the service would send by then, from the cache alone and without
/// changing it.
pub proof fn lemma_second_lookup_is_served_from_cache(
    files: Map<Seq<char>, Seq<char>>,
    path: Seq<char>,
    body: Seq<char>,
    later_body: Seq<char>,
    parses: spec_fn(Seq<char>) -> bool,
)
    requires
        parses(body),
        files.dom().contains(cache_file_of(path)) ==> parses(files[cache_file_of(path)]),
    ensures
        serve(files, path, body, parses).reply is Parsed,
        !files.dom().contains(cache_file_of(path)) ==> {
            &&& serve(files, path, body, parses).reply == Reply::Parsed(body)
            &&& serve(files, path, body, parses).asked_service
            &&& serve(files, path, body, parses).files == files.insert(cache_file_of(path), body)
        },
        ({
            let first = serve(files, path, body, parses);
            let second = serve(first.files, path, later_body, parses);
            &&& second.reply == first.reply
            &&& !second.asked_service
            &&& second.files == first.files
        }),
{
}

/// A text that is not of the expected shape never reaches the cache. Where
/// the cache has no file for the path and the service sends such a text
/// without the quota phrase, the caller gets the empty value, the cache is
/// left as it was, and the next lookup of the path asks the service again.
pub proof fn lemma_rejected_text_is_not_cached(
    files: Map<Seq<char>, Seq<char>>,
    path: Seq<char>,
    body: Seq<char>,
    later_body: Seq<char>,
    parses: spec_fn(Seq<char>) -> bool,
)
    requires
        !parses(body),
        !occurs(body, QUOTA_PHRASE@),
        !files.dom().contains(cache_file_of(path)),
    ensures
        serve(files, path, body, parses).reply == Reply::Empty,
        serve(files, path, body, parses).files == files,
        !serve(files, path, body, parses).files.dom().contains(cache_file_of(path)),
        serve(serve(files, path, body, parses).files, path, later_body, parses).asked_service,
{
}

/// The quota phrase ends the run. Where the cache has no file for the path
/// and the service sends a text that is not of the expected shape and holds
/// the phrase, the lookup stops and hands out no value, and nothing is
/// written.
pub proof fn lemma_quota_phrase_stops_the_run(
    files: Map<Seq<char>, Seq<char>>,
    path: Seq<char>,
    body: Seq<char>,
    parses: spec_fn(Seq<char>) -> bool,
)
    requires
        !parses(body),
        occurs(body, QUOTA_PHRASE@),
        !files.dom().contains(cache_file_of(path)),
    ensures
        serve(files, path, body, parses).reply == Reply::Stopped(Fatal::QuotaExhausted),
        serve(files, path, body, parses).files == files,
{
}

} // verus!
