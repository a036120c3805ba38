//! Fixed constants of the capture and decoding pipeline, and the locations
//! of the assistant's files.
//!
//! Samples are carried as `i32` values in millionths of full scale, so an
//! amplitude of `0.015` is `15_000` and full scale is [`FULL_SCALE`].
//! Times are whole milliseconds.

use vstd::prelude::*;

verus! {

/// Rate at which the microphone is captured, in samples per second.
pub const RECORD_RATE: u32 = 48000;

/// Rate the acoustic model expects, in samples per second.
pub const WHISPER_RATE: u32 = 16000;

/// Number of captured channels.
pub const CHANNELS: u16 = 1;

/// One full-scale amplitude in sample units.
pub const FULL_SCALE: i32 = 1_000_000;

/// RMS level above which a frame counts as speech.
pub const SILENCE_THRESHOLD: u32 = 15_000;

/// Silence after speech that ends a blocking recording, in milliseconds.
pub const SILENCE_DURATION_MS: u64 = 2500;

/// How long the level must stay above threshold before speech counts.
pub const SPEECH_MIN_MS: u64 = 500;

/// Longest recording or session, in milliseconds.
pub const MAX_DURATION_MS: u64 = 120_000;

/// Silence after speech that ends a dictation session, in milliseconds.
pub const DONE_TIMEOUT_MS: u64 = 5000;

/// Joining of a relative `name` onto a directory path.
pub open spec fn path_join(base: Seq<char>, name: Seq<char>) -> Seq<char> {
    if base.len() > 0 && base.last() == '/' {
        base + name
    } else {
        base + seq!['/'] + name
    }
}

/// Appends the relative component `name` to the directory path `base`.
pub fn join_path(base: &str, name: &str) -> (r: String)
    ensures
        r@ == path_join(base@, name@),
{
    let mut r = base.to_owned();
    let n = base.unicode_len();
    if n > 0 && base.get_char(n - 1) == '/' {
        r.append(name);
    } else {
        proof {
            reveal_strlit("/");
        }
        r.append("/");
        r.append(name);
    }
    r
}

/// Relies on `dirs::home_dir`: the user's home directory, when the
/// environment gives one.
#[verifier::external_body]
fn home_dir() -> (r: Option<String>) {
    dirs::home_dir().map(|p| p.to_string_lossy().into_owned())
}

/// Relies on `dirs::data_dir`: the user's data directory, when the
/// environment gives one.
#[verifier::external_body]
fn data_dir() -> (r: Option<String>) {
    dirs::data_dir().map(|p| p.to_string_lossy().into_owned())
}

/// Where notes are kept, under the home directory `home`.
pub open spec fn notes_dir_of(home: Seq<char>) -> Seq<char> {
    path_join(home, "kiri"@)
}

/// Where models are kept, under the data directory `data`.
pub open spec fn models_dir_of(data: Seq<char>) -> Seq<char> {
    path_join(path_join(data, "kiri"@), "models"@)
}

/// The accurate model, under the data directory `data`.
pub open spec fn default_model_of(data: Seq<char>) -> Seq<char> {
    path_join(models_dir_of(data), "ggml-medium.bin"@)
}

/// The fast model, which also decodes wake-phrase candidates.
pub open spec fn wake_model_of(data: Seq<char>) -> Seq<char> {
    path_join(models_dir_of(data), "ggml-tiny.bin"@)
}

/// Where wake-word templates and their training samples are kept.
pub open spec fn wakewords_dir_of(data: Seq<char>) -> Seq<char> {
    path_join(path_join(data, "kiri"@), "wakewords"@)
}

pub fn notes_dir_in(home: &str) -> (r: String)
    ensures
        r@ == notes_dir_of(home@),
{
    join_path(home, "kiri")
}

pub fn models_dir_in(data: &str) -> (r: String)
    ensures
        r@ == models_dir_of(data@),
{
    let app = join_path(data, "kiri");
    join_path(app.as_str(), "models")
}

pub fn default_model_path_in(data: &str) -> (r: String)
    ensures
        r@ == default_model_of(data@),
{
    let dir = models_dir_in(data);
    join_path(dir.as_str(), "ggml-medium.bin")
}

pub fn wake_model_path_in(data: &str) -> (r: String)
    ensures
        r@ == wake_model_of(data@),
{
    let dir = models_dir_in(data);
    join_path(dir.as_str(), "ggml-tiny.bin")
}

pub fn wakewords_dir_in(data: &str) -> (r: String)
    ensures
        r@ == wakewords_dir_of(data@),
{
    let app = join_path(data, "kiri");
    join_path(app.as_str(), "wakewords")
}

/// The notes directory of this user; none when there is no home directory.
pub fn notes_dir() -> (r: Option<String>)
    ensures
        r matches Some(p) ==> exists|h: Seq<char>| p@ == notes_dir_of(h),
{
    match home_dir() {
        Some(h) => Some(notes_dir_in(h.as_str())),
        None => None,
    }
}

/// The models directory of this user; none when there is no data directory.
pub fn models_dir() -> (r: Option<String>)
    ensures
        r matches Some(p) ==> exists|d: Seq<char>| p@ == models_dir_of(d),
{
    match data_dir() {
        Some(d) => Some(models_dir_in(d.as_str())),
        None => None,
    }
}

/// The accurate model of this user; none when there is no data directory.
pub fn default_model_path() -> (r: Option<String>)
    ensures
        r matches Some(p) ==> exists|d: Seq<char>| p@ == default_model_of(d),
{
    match data_dir() {
        Some(d) => Some(default_model_path_in(d.as_str())),
        None => None,
    }
}

/// The fast model of this user; none when there is no data directory.
pub fn wake_model_path() -> (r: Option<String>)
    ensures
        r matches Some(p) ==> exists|d: Seq<char>| p@ == wake_model_of(d),
{
    match data_dir() {
        Some(d) => Some(wake_model_path_in(d.as_str())),
        None => None,
    }
}

/// The wake-word directory of this user; none when there is no data
/// directory.
pub fn wakewords_dir() -> (r: Option<String>)
    ensures
        r matches Some(p) ==> exists|d: Seq<char>| p@ == wakewords_dir_of(d),
{
    match data_dir() {
        Some(d) => Some(wakewords_dir_in(d.as_str())),
        None => None,
    }
}

} // verus!
