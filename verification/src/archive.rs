//! Choosing the log of a job out of the archive that holds the logs of a run.

use crate::log_tail::{
    extract_step_log_tail, is_tail_of_output, match_key, normalize_log_match_key, step_log_tail,
    tail_reaches_the_end_of_the_output, text_lines, texts,
};
use crate::run::{FailedStepRef, FailedStepRefView};
use crate::text::{
    chars_of, contains_text, decimal, decimal_text, decimals_read_back, digits_value,
    finishes_with, found_parts_stand_in_the_text, has_text, parts_are_found_wherever_they_stand,
    stands_at,
};
use vstd::prelude::*;
use vstd::utf8::{decode_utf8, encode_utf8, valid_utf8};

verus! {

/// `std::io::Cursor`, the reader behind an archive that lies in memory.
#[verifier::external_type_specification]
#[verifier::external_body]
#[verifier::reject_recursive_types(T)]
pub struct ExCursor<T>(std::io::Cursor<T>);

/// `zip::ZipArchive`, an archive that has been opened.
#[verifier::external_type_specification]
#[verifier::external_body]
#[verifier::reject_recursive_types(R)]
pub struct ExZipArchive<R>(zip::ZipArchive<R>);

/// The entries of an open archive, in their order: of each, the name that looking it up gives, and
/// the bytes that reading it gives, or in place of either the text of the error.
pub uninterp spec fn archive_entries(archive: zip::ZipArchive<std::io::Cursor<&[u8]>>) -> Seq<
    (Result<Seq<char>, Seq<char>>, Result<Seq<u8>, Seq<char>>),
>;

/// What `zip::ZipArchive::new` makes of some bytes: the entries of the archive, or the text of the
/// error.
pub uninterp spec fn opened_archive(bytes: Seq<u8>) -> Result<
    Seq<(Result<Seq<char>, Seq<char>>, Result<Seq<u8>, Seq<char>>)>,
    Seq<char>,
>;

/// `zip::ZipArchive::new` on bytes in memory. What comes of it, the entries or the error, depends on
/// the bytes alone.
#[verifier::external_body]
fn open_archive<'a>(bytes: &'a [u8]) -> (r: Result<
    zip::ZipArchive<std::io::Cursor<&'a [u8]>>,
    String,
>)
    ensures
        match r {
            Ok(archive) => opened_archive(bytes@) == Ok::<
                Seq<(Result<Seq<char>, Seq<char>>, Result<Seq<u8>, Seq<char>>)>,
                Seq<char>,
            >(archive_entries(archive)),
            Err(message) => opened_archive(bytes@) == Err::<
                Seq<(Result<Seq<char>, Seq<char>>, Result<Seq<u8>, Seq<char>>)>,
                Seq<char>,
            >(message@),
        },
{
    match zip::ZipArchive::new(std::io::Cursor::new(bytes)) {
        Ok(archive) => Ok(archive),
        Err(error) => Err(error.to_string()),
    }
}

/// `zip::ZipArchive::len` counts the entries.
#[verifier::external_body]
fn entry_count(archive: &zip::ZipArchive<std::io::Cursor<&[u8]>>) -> (r: usize)
    ensures
        r == archive_entries(*archive).len(),
{
    archive.len()
}

/// `zip::ZipArchive::by_index` looks an entry up, and `ZipFile::name` gives its name. The entries
/// stay what they are.
#[verifier::external_body]
fn entry_name(archive: &mut zip::ZipArchive<std::io::Cursor<&[u8]>>, index: usize) -> (r: Result<
    String,
    String,
>)
    requires
        index < archive_entries(*old(archive)).len(),
    ensures
        archive_entries(*final(archive)) == archive_entries(*old(archive)),
        match r {
            Ok(name) => archive_entries(*old(archive))[index as int].0 == Ok::<
                Seq<char>,
                Seq<char>,
            >(name@),
            Err(message) => archive_entries(*old(archive))[index as int].0 == Err::<
                Seq<char>,
                Seq<char>,
            >(message@),
        },
{
    match archive.by_index(index) {
        Ok(file) => Ok(file.name().to_string()),
        Err(error) => Err(error.to_string()),
    }
}

/// `std::io::Read::read_to_end` on the `zip::read::ZipFile` that `zip::ZipArchive::by_index` gives
/// reads and unpacks an entry. The entries stay what they are.
#[verifier::external_body]
fn entry_bytes(archive: &mut zip::ZipArchive<std::io::Cursor<&[u8]>>, index: usize) -> (r: Result<
    Vec<u8>,
    String,
>)
    requires
        index < archive_entries(*old(archive)).len(),
    ensures
        archive_entries(*final(archive)) == archive_entries(*old(archive)),
        match r {
            Ok(bytes) => archive_entries(*old(archive))[index as int].1 == Ok::<
                Seq<u8>,
                Seq<char>,
            >(bytes@),
            Err(message) => archive_entries(*old(archive))[index as int].1 == Err::<
                Seq<u8>,
                Seq<char>,
            >(message@),
        },
{
    let mut raw: Vec<u8> = Vec::new();
    match archive.by_index(index) {
        Ok(mut file) => match std::io::Read::read_to_end(&mut file, &mut raw) {
            Ok(_) => Ok(raw),
            Err(error) => Err(error.to_string()),
        },
        Err(error) => Err(error.to_string()),
    }
}

/// The text that `String::from_utf8_lossy` makes of some bytes.
pub uninterp spec fn lossy_text(bytes: Seq<u8>) -> Seq<char>;

/// `String::from_utf8_lossy` decodes bytes, and puts replacement characters where they are not
/// UTF-8. Bytes that are UTF-8 throughout are decoded as they are.
#[verifier::external_body]
fn decode_lossy(bytes: &Vec<u8>) -> (r: String)
    ensures
        r@ == lossy_text(bytes@),
        valid_utf8(bytes@) ==> r@ == decode_utf8(bytes@),
{
    String::from_utf8_lossy(bytes).into_owned()
}

/// The number of points that a log earns by its size: one for every twenty thousand bytes. The size
/// counts as a signed number of 32 bits.
pub open spec fn size_points(content: Seq<char>) -> int {
    let size = encode_utf8(content).len() as usize as i32;
    if size < 0 {
        -((-size) / 20000)
    } else {
        size as int / 20000
    }
}

/// The keys by which logs are matched with a failed step: those of the names of its job and its
/// own, and the number of the job.
pub struct LogKeysView {
    pub job_name: Seq<char>,
    pub step_name: Seq<char>,
    pub job_id: Seq<char>,
}

impl FailedStepRefView {
    /// The keys by which logs are matched with the step.
    pub open spec fn log_keys(self) -> LogKeysView {
        LogKeysView {
            job_name: match_key(self.job_name),
            step_name: match_key(self.step_name),
            job_id: decimal(self.job_id as nat),
        }
    }
}

/// How well a log fits a failed step: points for the name of the job and its number in the name of
/// the log, for the names of the step and of the job in the log itself, and for its size.
pub open spec fn log_points(name: Seq<char>, content: Seq<char>, keys: LogKeysView) -> int {
    (if contains_text(match_key(name), keys.job_name) {
        8int
    } else {
        0
    }) + (if contains_text(match_key(name), keys.job_id) {
        4int
    } else {
        0
    }) + (if contains_text(match_key(content), keys.step_name) {
        4int
    } else {
        0
    }) + (if contains_text(match_key(content), keys.job_name) {
        2int
    } else {
        0
    }) + size_points(content)
}

/// The better of two logs; the one found first, where they fit equally well.
pub open spec fn better_log(best: Option<(int, Seq<char>)>, points: int, content: Seq<char>) -> (
    int,
    Seq<char>,
) {
    match best {
        Some((best_points, best_content)) if best_points >= points => (best_points, best_content),
        _ => (points, content),
    }
}

/// Why no log could be taken from an archive.
#[derive(Debug, PartialEq, Eq)]
pub enum LogError {
    /// The archive, or an entry of it, cannot be read.
    Archive(String),
    /// The archive holds no log.
    NoMatchingLog,
}

impl LogError {
    /// The words that tell of an error.
    pub open spec fn words(self) -> Seq<char> {
        match self {
            LogError::Archive(message) => message@,
            LogError::NoMatchingLog => "No matching job log found in workflow log archive"@,
        }
    }

    /// Tells of the error in words.
    pub fn message(&self) -> (r: String)
        ensures
            r@ == self.words(),
    {
        match self {
            LogError::Archive(message) => message.clone(),
            LogError::NoMatchingLog => "No matching job log found in workflow log archive".to_owned(),
        }
    }
}

/// The best of the first `n` logs among some entries, or the text of the first error that looking an
/// entry up, or reading one that holds a log, gives.
pub open spec fn best_log(
    entries: Seq<(Result<Seq<char>, Seq<char>>, Result<Seq<u8>, Seq<char>>)>,
    n: int,
    step: FailedStepRefView,
) -> Result<Option<(int, Seq<char>)>, Seq<char>>
    decreases n,
{
    if n <= 0 {
        Ok(None)
    } else {
        match best_log(entries, n - 1, step) {
            Err(message) => Err(message),
            Ok(best) => match entries[n - 1] {
                (Err(message), _) => Err(message),
                (Ok(name), outcome) => if !finishes_with(name, ".txt"@) {
                    Ok(best)
                } else {
                    match outcome {
                        Err(message) => Err(message),
                        Ok(bytes) => {
                            let content = lossy_text(bytes);
                            Ok(Some(better_log(best, log_points(name, content, step.log_keys()), content)))
                        },
                    }
                },
            },
        }
    }
}

/// The log of the job of a failed step among the entries of an archive. The error is a text, or none
/// where there is no log at all.
pub open spec fn job_log_among(
    opened: Result<Seq<(Result<Seq<char>, Seq<char>>, Result<Seq<u8>, Seq<char>>)>, Seq<char>>,
    step: FailedStepRefView,
) -> Result<Seq<char>, Option<Seq<char>>> {
    match opened {
        Err(message) => Err(Some(message)),
        Ok(entries) => match best_log(entries, entries.len() as int, step) {
            Err(message) => Err(Some(message)),
            Ok(None) => Err(None),
            Ok(Some((_, content))) => Ok(content),
        },
    }
}

/// The cause that a `LogError` carries, where it carries one.
pub open spec fn log_error_cause(error: LogError) -> Option<Seq<char>> {
    match error {
        LogError::Archive(message) => Some(message@),
        LogError::NoMatchingLog => None,
    }
}

/// The keys by which logs are matched with a failed step.
pub struct LogKeys {
    job_name: Vec<char>,
    step_name: Vec<char>,
    job_id: Vec<char>,
}

impl View for LogKeys {
    type V = LogKeysView;

    closed spec fn view(&self) -> LogKeysView {
        LogKeysView {
            job_name: self.job_name@,
            step_name: self.step_name@,
            job_id: self.job_id@,
        }
    }
}

impl LogKeys {
    /// Makes the keys of a failed step.
    pub fn new(step: &FailedStepRef) -> (r: LogKeys)
        ensures
            r@ == step@.log_keys(),
    {
        LogKeys {
            job_name: chars_of(normalize_log_match_key(step.job_name.as_str()).as_str()),
            step_name: chars_of(normalize_log_match_key(step.step_name.as_str()).as_str()),
            job_id: chars_of(decimal_text(step.job_id).as_str()),
        }
    }
}

/// Counts how well a log fits the failed step whose keys are given.
pub fn score_log(name: &str, content: &str, keys: &LogKeys) -> (r: i32)
    ensures
        r == log_points(name@, content@, keys@),
{
    let name_key: Vec<char> = chars_of(normalize_log_match_key(name).as_str());
    let content_key: Vec<char> = chars_of(normalize_log_match_key(content).as_str());
    let mut score: i32 = 0;
    if has_text(&name_key, &keys.job_name) {
        score = score + 8;
    }
    if has_text(&name_key, &keys.job_id) {
        score = score + 4;
    }
    if has_text(&content_key, &keys.step_name) {
        score = score + 4;
    }
    if has_text(&content_key, &keys.job_name) {
        score = score + 2;
    }
    let size: i32 = #[verifier::truncate] (content.len() as i32);
    let points: i64 = if size < 0 {
        -((-(size as i64)) / 20000)
    } else {
        size as i64 / 20000
    };
    score + points as i32
}

/// What is known of the best log so far.
pub open spec fn best_view(best: Option<(i32, String)>) -> Option<(int, Seq<char>)> {
    match best {
        Some((points, content)) => Some((points as int, content@)),
        None => None,
    }
}

/// Keeps the better of the best log so far and another one; the former, where they fit equally well.
pub fn keep_better_log(best: Option<(i32, String)>, points: i32, content: String) -> (r: (
    i32,
    String,
))
    ensures
        (r.0 as int, r.1@) == better_log(best_view(best), points as int, content@),
{
    match best {
        Some((best_points, best_content)) => if best_points >= points {
            (best_points, best_content)
        } else {
            (points, content)
        },
        None => (points, content),
    }
}

/// Whether an entry holds a log, by its name: logs are text files.
pub fn is_log_name(name: &str) -> (r: bool)
    ensures
        r == finishes_with(name@, ".txt"@),
{
    let chars: Vec<char> = chars_of(name);
    let suffix: Vec<char> = chars_of(".txt");
    chars.len() >= suffix.len() && stands_at(&chars, &suffix, chars.len() - suffix.len())
}

/// Takes the log of the job of `failed_step` out of the archive of the logs of a run: the text file
/// that fits the step best.
pub fn extract_job_log_text_from_archive(archive_bytes: &[u8], failed_step: &FailedStepRef) -> (r:
    Result<String, LogError>)
    ensures
        match r {
            Ok(content) => job_log_among(opened_archive(archive_bytes@), failed_step@) == Ok::<
                Seq<char>,
                Option<Seq<char>>,
            >(content@),
            Err(error) => job_log_among(opened_archive(archive_bytes@), failed_step@) == Err::<
                Seq<char>,
                Option<Seq<char>>,
            >(log_error_cause(error)),
        },
{
    let mut archive = match open_archive(archive_bytes) {
        Ok(archive) => archive,
        Err(message) => {
            return Err(LogError::Archive(message));
        },
    };
    let ghost entries = archive_entries(archive);
    let keys: LogKeys = LogKeys::new(failed_step);
    let count: usize = entry_count(&archive);
    let mut best: Option<(i32, String)> = None;
    let mut i: usize = 0;
    while i < count
        invariant
            i <= count,
            count == entries.len(),
            entries == archive_entries(archive),
            opened_archive(archive_bytes@) == Ok::<
                Seq<(Result<Seq<char>, Seq<char>>, Result<Seq<u8>, Seq<char>>)>,
                Seq<char>,
            >(entries),
            keys@ == failed_step@.log_keys(),
            best_log(entries, i as int, failed_step@) == Ok::<
                Option<(int, Seq<char>)>,
                Seq<char>,
            >(best_view(best)),
        decreases count - i,
    {
        let name: String = match entry_name(&mut archive, i) {
            Ok(name) => name,
            Err(message) => {
                proof {
                    lemma_best_log_fails(entries, i + 1, failed_step@, message@);
                }
                return Err(LogError::Archive(message));
            },
        };
        if is_log_name(name.as_str()) {
            let raw: Vec<u8> = match entry_bytes(&mut archive, i) {
                Ok(raw) => raw,
                Err(message) => {
                    proof {
                        lemma_best_log_fails(entries, i + 1, failed_step@, message@);
                    }
                    return Err(LogError::Archive(message));
                },
            };
            let content: String = decode_lossy(&raw);
            let score: i32 = score_log(name.as_str(), content.as_str(), &keys);
            best = Some(keep_better_log(best, score, content));
        }
        i = i + 1;
    }
    match best {
        Some((_, content)) => Ok(content),
        None => Err(LogError::NoMatchingLog),
    }
}

/// An error at one entry is the outcome, whatever follows.
proof fn lemma_best_log_fails(
    entries: Seq<(Result<Seq<char>, Seq<char>>, Result<Seq<u8>, Seq<char>>)>,
    n: int,
    step: FailedStepRefView,
    message: Seq<char>,
)
    requires
        0 <= n <= entries.len(),
        best_log(entries, n, step) == Err::<Option<(int, Seq<char>)>, Seq<char>>(message),
    ensures
        best_log(entries, entries.len() as int, step) == Err::<
            Option<(int, Seq<char>)>,
            Seq<char>,
        >(message),
    decreases entries.len() - n,
{
    if n < entries.len() {
        lemma_best_log_fails(entries, n + 1, step, message);
    }
}

/// The points and the content of a log, where an entry is one that can be read.
pub open spec fn log_of(
    entry: (Result<Seq<char>, Seq<char>>, Result<Seq<u8>, Seq<char>>),
    step: FailedStepRefView,
) -> Option<(int, Seq<char>)> {
    match entry {
        (Ok(name), Ok(bytes)) if finishes_with(name, ".txt"@) => Some(
            (log_points(name, lossy_text(bytes), step.log_keys()), lossy_text(bytes)),
        ),
        _ => None,
    }
}

/// The log that is taken out of an archive is the first of those with the most points. Where none is
/// taken, and nothing went wrong, the archive holds no log.
pub proof fn chosen_log_fits_best(
    entries: Seq<(Result<Seq<char>, Seq<char>>, Result<Seq<u8>, Seq<char>>)>,
    n: int,
    step: FailedStepRefView,
) -> (at: int)
    requires
        0 <= n <= entries.len(),
    ensures
        best_log(entries, n, step) matches Ok(Some(best)) ==> {
            &&& 0 <= at < n
            &&& log_of(entries[at], step) == Some(best)
            &&& forall|k: int|
                0 <= k < n ==> (#[trigger] log_of(entries[k], step) matches Some(other) ==> {
                    &&& other.0 <= best.0
                    &&& k < at ==> other.0 < best.0
                })
        },
        best_log(entries, n, step) matches Ok(None) ==> forall|k: int|
            0 <= k < n ==> #[trigger] log_of(entries[k], step) is None,
    decreases n,
{
    if n <= 0 {
        0
    } else {
        let before = chosen_log_fits_best(entries, n - 1, step);
        match (best_log(entries, n - 1, step), log_of(entries[n - 1], step)) {
            (Ok(Some(best)), Some(log)) => if best.0 >= log.0 {
                before
            } else {
                n - 1
            },
            (_, Some(_)) => n - 1,
            _ => before,
        }
    }
}

/// At most this many lines of the log of a failed step are kept.
pub const FAILED_LOG_TAIL_LINES: usize = 100;

/// The end of the log of a failed step, out of an archive that has been opened.
pub open spec fn failed_step_tail(
    opened: Result<Seq<(Result<Seq<char>, Seq<char>>, Result<Seq<u8>, Seq<char>>)>, Seq<char>>,
    step: FailedStepRefView,
) -> Result<Seq<Seq<char>>, Option<Seq<char>>> {
    match job_log_among(opened, step) {
        Ok(log) => Ok(step_log_tail(log, step.step_name, FAILED_LOG_TAIL_LINES as nat)),
        Err(cause) => Err(cause),
    }
}

/// Takes the end of the log of a failed step out of the archive of the logs of its run.
pub fn failed_step_log_tail(archive_bytes: &[u8], failed_step: &FailedStepRef) -> (r: Result<
    Vec<String>,
    LogError,
>)
    ensures
        match r {
            Ok(lines) => job_log_among(opened_archive(archive_bytes@), failed_step@) matches Ok(
                log,
            ) && texts(lines@) == step_log_tail(
                log,
                failed_step@.step_name,
                FAILED_LOG_TAIL_LINES as nat,
            ),
            Err(error) => job_log_among(opened_archive(archive_bytes@), failed_step@) == Err::<
                Seq<char>,
                Option<Seq<char>>,
            >(log_error_cause(error)),
        },
        (match r {
            Ok(lines) => Ok(texts(lines@)),
            Err(error) => Err(log_error_cause(error)),
        }) == failed_step_tail(opened_archive(archive_bytes@), failed_step@),
{
    match extract_job_log_text_from_archive(archive_bytes, failed_step) {
        Ok(log) => Ok(
            extract_step_log_tail(
                log.as_str(),
                failed_step.step_name.as_str(),
                FAILED_LOG_TAIL_LINES,
            ),
        ),
        Err(error) => Err(error),
    }
}

/// The name of the step earns a log four points wherever in the log it stands: with the key of a step
/// that the log does not mention in its place, the log has exactly four points less.
pub proof fn steps_earn_points_wherever_they_stand(
    name: Seq<char>,
    content: Seq<char>,
    keys: LogKeysView,
    before: Seq<char>,
    after: Seq<char>,
    stranger: Seq<char>,
)
    requires
        match_key(content) == before + keys.step_name + after,
        !contains_text(match_key(content), stranger),
    ensures
        log_points(name, content, keys) == 4 + log_points(
            name,
            content,
            LogKeysView { step_name: stranger, ..keys },
        ),
{
    parts_are_found_wherever_they_stand(before, keys.step_name, after);
}

/// The number of the job earns a log four points wherever in its name it stands.
pub proof fn job_numbers_earn_points_wherever_they_stand(
    name: Seq<char>,
    content: Seq<char>,
    keys: LogKeysView,
    before: Seq<char>,
    after: Seq<char>,
    stranger: Seq<char>,
)
    requires
        match_key(name) == before + keys.job_id + after,
        !contains_text(match_key(name), stranger),
    ensures
        log_points(name, content, keys) == 4 + log_points(
            name,
            content,
            LogKeysView { job_id: stranger, ..keys },
        ),
{
    parts_are_found_wherever_they_stand(before, keys.job_id, after);
}

/// The name of the job earns a log eight points wherever in its name it stands, and two wherever in
/// the log it stands.
pub proof fn job_names_earn_points_wherever_they_stand(
    name: Seq<char>,
    content: Seq<char>,
    keys: LogKeysView,
    before: Seq<char>,
    after: Seq<char>,
    stranger: Seq<char>,
)
    requires
        !contains_text(match_key(name), stranger),
        !contains_text(match_key(content), stranger),
    ensures
        ({
            let without = log_points(name, content, LogKeysView { job_name: stranger, ..keys });
            let in_name = match_key(name) == before + keys.job_name + after;
            let in_log = match_key(content) == before + keys.job_name + after;
            &&& in_name && !contains_text(match_key(content), keys.job_name) ==> log_points(
                name,
                content,
                keys,
            ) == 8 + without
            &&& in_log && !contains_text(match_key(name), keys.job_name) ==> log_points(
                name,
                content,
                keys,
            ) == 2 + without
            &&& in_name && contains_text(match_key(content), keys.job_name) ==> log_points(
                name,
                content,
                keys,
            ) == 10 + without
        }),
{
    parts_are_found_wherever_they_stand(before, keys.job_name, after);
}

/// A log that mentions nothing earns points by its size alone: one for every full twenty thousand
/// bytes.
pub proof fn strangers_earn_points_by_size_alone(
    name: Seq<char>,
    content: Seq<char>,
    keys: LogKeysView,
)
    requires
        forall|part: Seq<char>|
            part == keys.job_name || part == keys.job_id ==> !contains_text(match_key(name), part),
        forall|part: Seq<char>|
            part == keys.job_name || part == keys.step_name ==> !contains_text(
                match_key(content),
                part,
            ),
        encode_utf8(content).len() <= i32::MAX,
    ensures
        20000 * log_points(name, content, keys) <= encode_utf8(content).len(),
        encode_utf8(content).len() < 20000 * log_points(name, content, keys) + 20000,
{
    let size = encode_utf8(content).len() as usize as i32;
    assert(size == encode_utf8(content).len());
}

/// The keys of a step are made of its own name, the name of its job, and the digits of the number of
/// its job.
pub proof fn keys_are_those_of_the_step(step: FailedStepRefView)
    ensures
        step.log_keys().job_name == match_key(step.job_name),
        step.log_keys().step_name == match_key(step.step_name),
        digits_value(step.log_keys().job_id) == step.job_id,
        step.job_id > 0 ==> step.log_keys().job_id[0] != '0',
        forall|i: int|
            0 <= i < step.log_keys().job_id.len() ==> '0' <= #[trigger] step.log_keys().job_id[i]
                <= '9',
{
    decimals_read_back(step.job_id as nat);
}

/// Of two logs the one with more points is kept, and the former where they have equally many.
pub proof fn more_points_are_better(
    best: (int, Seq<char>),
    points: int,
    content: Seq<char>,
)
    ensures
        better_log(None, points, content) == (points, content),
        best.0 >= points ==> better_log(Some(best), points, content) == best,
        best.0 < points ==> better_log(Some(best), points, content) == (points, content),
{
}

/// A name with the suffix of a text file.
pub open spec fn is_text_file(name: Seq<char>) -> bool {
    name.len() >= 4 && name.skip(name.len() - 4) == ".txt"@
}

/// An entry that causes no error: its name can be had, and where it is a text file, its bytes.
pub open spec fn is_sound(
    entry: (Result<Seq<char>, Seq<char>>, Result<Seq<u8>, Seq<char>>),
) -> bool {
    entry.0 is Ok && (is_text_file(entry.0->Ok_0) ==> entry.1 is Ok)
}

/// An entry that causes an error with some text.
pub open spec fn fails_with(
    entry: (Result<Seq<char>, Seq<char>>, Result<Seq<u8>, Seq<char>>),
    message: Seq<char>,
) -> bool {
    match entry.0 {
        Err(m) => m == message,
        Ok(name) => is_text_file(name) && entry.1 == Err::<Seq<u8>, Seq<char>>(message),
    }
}

/// The points of a text file that can be read.
pub open spec fn points_of(
    entry: (Result<Seq<char>, Seq<char>>, Result<Seq<u8>, Seq<char>>),
    step: FailedStepRefView,
) -> int {
    log_points(entry.0->Ok_0, lossy_text(entry.1->Ok_0), step.log_keys())
}

/// What comes of searching the first `n` entries. Either all are sound, and what is found is the text
/// of the first text file with the most points, or there is no text file; or the first one that is
/// not sound gives its error.
pub open spec fn is_search_outcome(
    entries: Seq<(Result<Seq<char>, Seq<char>>, Result<Seq<u8>, Seq<char>>)>,
    n: int,
    step: FailedStepRefView,
    outcome: Result<Option<Seq<char>>, Seq<char>>,
    at: int,
) -> bool {
    match outcome {
        Err(message) => {
            &&& 0 <= at < n
            &&& fails_with(entries[at], message)
            &&& forall|k: int| 0 <= k < at ==> is_sound(#[trigger] entries[k])
        },
        Ok(found) => {
            &&& forall|k: int| 0 <= k < n ==> is_sound(#[trigger] entries[k])
            &&& found is None ==> forall|k: int|
                0 <= k < n ==> !is_text_file((#[trigger] entries[k]).0->Ok_0)
            &&& found matches Some(content) ==> {
                &&& 0 <= at < n
                &&& is_text_file(entries[at].0->Ok_0)
                &&& content == lossy_text(entries[at].1->Ok_0)
                &&& forall|k: int|
                    0 <= k < n && is_text_file((#[trigger] entries[k]).0->Ok_0) ==> {
                        &&& points_of(entries[k], step) <= points_of(entries[at], step)
                        &&& k < at ==> points_of(entries[k], step) < points_of(entries[at], step)
                    }
            }
        },
    }
}

proof fn lemma_text_file(name: Seq<char>)
    ensures
        finishes_with(name, ".txt"@) == is_text_file(name),
{
    reveal_strlit(".txt");
    let _ = found_parts_stand_in_the_text(name, ".txt"@);
}

proof fn lemma_search(
    entries: Seq<(Result<Seq<char>, Seq<char>>, Result<Seq<u8>, Seq<char>>)>,
    n: int,
    step: FailedStepRefView,
) -> (at: int)
    requires
        0 <= n <= entries.len(),
    ensures
        is_search_outcome(
            entries,
            n,
            step,
            match best_log(entries, n, step) {
                Err(message) => Err(message),
                Ok(None) => Ok(None),
                Ok(Some(best)) => Ok(Some(best.1)),
            },
            at,
        ),
        best_log(entries, n, step) matches Ok(Some(best)) ==> best.0 == points_of(
            entries[at],
            step,
        ),
    decreases n,
{
    if n <= 0 {
        0
    } else {
        let before = lemma_search(entries, n - 1, step);
        if let Ok(name) = entries[n - 1].0 {
            lemma_text_file(name);
        }
        match best_log(entries, n - 1, step) {
            Err(_) => before,
            Ok(best) => if !is_sound(entries[n - 1]) {
                n - 1
            } else if !is_text_file(entries[n - 1].0->Ok_0) {
                before
            } else {
                match best {
                    Some(log) if log.0 >= points_of(entries[n - 1], step) => before,
                    _ => n - 1,
                }
            },
        }
    }
}

/// What is taken out of an archive: the text of the first text file with the most points, where every
/// entry is sound; the text of the first error, where one is not; and that there is no log, where
/// there is no text file. An archive that could not be opened gives its error.
pub proof fn the_best_text_file_is_taken(
    opened: Result<Seq<(Result<Seq<char>, Seq<char>>, Result<Seq<u8>, Seq<char>>)>, Seq<char>>,
    step: FailedStepRefView,
) -> (at: int)
    ensures
        opened matches Err(message) ==> job_log_among(opened, step) == Err::<
            Seq<char>,
            Option<Seq<char>>,
        >(Some(message)),
        opened matches Ok(entries) ==> is_search_outcome(
            entries,
            entries.len() as int,
            step,
            match job_log_among(opened, step) {
                Ok(content) => Ok(Some(content)),
                Err(Some(message)) => Err(message),
                Err(None) => Ok(None),
            },
            at,
        ),
{
    match opened {
        Err(_) => 0,
        Ok(entries) => lemma_search(entries, entries.len() as int, step),
    }
}

/// Of two logs that earn equally many points but for the step, the one that mentions the step is
/// taken, whichever comes first.
pub proof fn logs_that_mention_the_step_are_taken(
    names: (Seq<char>, Seq<char>),
    bytes: (Seq<u8>, Seq<u8>),
    step: FailedStepRefView,
    stranger: Seq<char>,
    before: Seq<char>,
    after: Seq<char>,
)
    requires
        is_text_file(names.0),
        is_text_file(names.1),
        match_key(lossy_text(bytes.1)) == before + match_key(step.step_name) + after,
        !contains_text(match_key(lossy_text(bytes.0)), match_key(step.step_name)),
        !contains_text(match_key(lossy_text(bytes.0)), stranger),
        !contains_text(match_key(lossy_text(bytes.1)), stranger),
        log_points(
            names.0,
            lossy_text(bytes.0),
            LogKeysView { step_name: stranger, ..step.log_keys() },
        ) == log_points(
            names.1,
            lossy_text(bytes.1),
            LogKeysView { step_name: stranger, ..step.log_keys() },
        ),
    ensures
        ({
            let plain = (Ok::<Seq<char>, Seq<char>>(names.0), Ok::<Seq<u8>, Seq<char>>(bytes.0));
            let mentioning = (
                Ok::<Seq<char>, Seq<char>>(names.1),
                Ok::<Seq<u8>, Seq<char>>(bytes.1),
            );
            let taken = Ok::<Seq<char>, Option<Seq<char>>>(lossy_text(bytes.1));
            &&& job_log_among(Ok(seq![plain, mentioning]), step) == taken
            &&& job_log_among(Ok(seq![mentioning, plain]), step) == taken
        }),
{
    let plain = (Ok::<Seq<char>, Seq<char>>(names.0), Ok::<Seq<u8>, Seq<char>>(bytes.0));
    let mentioning = (Ok::<Seq<char>, Seq<char>>(names.1), Ok::<Seq<u8>, Seq<char>>(bytes.1));
    let keys = step.log_keys();
    steps_earn_points_wherever_they_stand(
        names.1,
        lossy_text(bytes.1),
        keys,
        before,
        after,
        stranger,
    );
    lemma_text_file(names.0);
    lemma_text_file(names.1);
    assert(points_of(mentioning, step) == points_of(plain, step) + 4);
    let one = seq![plain, mentioning];
    let other = seq![mentioning, plain];
    let a = the_best_text_file_is_taken(Ok(one), step);
    let b = the_best_text_file_is_taken(Ok(other), step);
    assert(is_sound(one[0]) && is_sound(one[1]) && is_sound(other[0]) && is_sound(other[1]));
    assert(is_text_file(one[0].0->Ok_0) && is_text_file(one[1].0->Ok_0));
    assert(is_text_file(other[0].0->Ok_0) && is_text_file(other[1].0->Ok_0));
}

/// The words of an error are those of its cause, where it has one.
pub proof fn errors_tell_their_cause(error: LogError)
    ensures
        log_error_cause(error) matches Some(cause) ==> error.words() == cause,
        log_error_cause(error) is None <==> error is NoMatchingLog,
{
}

/// The end of the log of a failed step is the end of the output of that step in the log that is taken
/// for its job, and at most a hundred lines of it. Where no log can be taken, the error is the same.
pub proof fn tails_come_from_the_taken_log(
    opened: Result<Seq<(Result<Seq<char>, Seq<char>>, Result<Seq<u8>, Seq<char>>)>, Seq<char>>,
    step: FailedStepRefView,
) -> (r: (int, int, int, int))
    ensures
        job_log_among(opened, step) matches Err(cause) ==> failed_step_tail(opened, step) == Err::<
            Seq<Seq<char>>,
            Option<Seq<char>>,
        >(cause),
        job_log_among(opened, step) matches Ok(log) ==> (failed_step_tail(opened, step) matches Ok(
            tail,
        ) && is_tail_of_output(text_lines(log), step.step_name, 100, tail, r)),
{
    match job_log_among(opened, step) {
        Ok(log) => tail_reaches_the_end_of_the_output(log, step.step_name, 100),
        Err(_) => (0, 0, 0, 0),
    }
}

/// The size of a log counts as a signed number of 32 bits: beyond the largest of them it counts from the
/// smallest on, and a log earns as many points less.
pub proof fn sizes_count_as_signed_numbers(content: Seq<char>)
    requires
        encode_utf8(content).len() < 0x1_0000_0000,
    ensures
        encode_utf8(content).len() < 0x8000_0000 ==> size_points(content) == encode_utf8(content).len()
            as int / 20000,
        encode_utf8(content).len() >= 0x8000_0000 ==> size_points(content) == -((0x1_0000_0000
            - encode_utf8(content).len()) / 20000),
{
    let n = encode_utf8(content).len() as u32;
    let u = n as usize;
    assert(u == n);
    assert(n >= 0x8000_0000 ==> (n as i32) as int == n as int - 0x1_0000_0000) by (bit_vector);
    assert(n < 0x8000_0000 ==> (n as i32) as int == n as int) by (bit_vector);
    assert(u as i32 == n as i32);
}

} // verus!
