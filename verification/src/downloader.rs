//! The description of a download, built step by step.

use crate::select::{Preferences, QualityPreference};
use crate::text::{chars_of, has_prefix, has_suffix, slice_chars, starts_with, ends_with, string_of};
use std::sync::Arc;
use vstd::prelude::*;
use vstd::string::StringExecFns;

verus! {

/// `reqwest::blocking::Client`, which a download carries to where its
/// requests are made.
#[verifier::external_type_specification]
#[verifier::external_body]
pub struct ExHttpClient(reqwest::blocking::Client);

/// `std::path::PathBuf`, which a download carries to where its output is
/// written.
#[verifier::external_type_specification]
#[verifier::external_body]
pub struct ExPathBuf(std::path::PathBuf);

/// The client that a download makes its HTTP requests with.
pub type HttpClient = reqwest::blocking::Client;

/// Receives news of how far a download has come, to show it to the user.
pub trait ProgressObserver {
    /// Takes note that the download is `percent` per cent done, and of what
    /// it is doing.
    fn update(&self, percent: u32, message: &str)
        requires
            percent <= 100,
    ;
}

/// Tells every observer of the list how far the download has come.
pub fn notify_observers(observers: &Vec<Arc<dyn ProgressObserver>>, percent: u32, message: &str)
    requires
        percent <= 100,
{
    let mut i: usize = 0;
    while i < observers.len()
        invariant
            i <= observers.len(),
            percent <= 100,
        decreases observers.len() - i,
    {
        observers[i].update(percent, message);
        i += 1;
    }
}

/// How many seconds a request is given where the download names its output
/// file and brings no client of its own.
pub const TIMEOUT_WITH_OUTPUT_SECS: u64 = 30;

/// How many seconds a request is given where the download names no output
/// file and brings no client of its own.
pub const TIMEOUT_WITHOUT_OUTPUT_SECS: u64 = 10;

/// What to download and how: the URL of the manifest and the choices of the
/// user. Each builder method changes one choice and leaves the others.
pub struct DashDownloader {
    pub mpd_url: String,
    pub output_path: Option<std::path::PathBuf>,
    pub http_client: Option<HttpClient>,
    pub quality_preference: QualityPreference,
    pub language_preference: Option<String>,
    pub fetch_video: bool,
    pub fetch_audio: bool,
    pub keep_video: bool,
    pub keep_audio: bool,
    pub content_type_checks: bool,
    pub progress_observers: Vec<Arc<dyn ProgressObserver>>,
    pub sleep_between_requests: u8,
    pub verbosity: u8,
    pub record_metainformation: bool,
    pub ffmpeg_location: String,
    pub vlc_location: String,
    pub mkvmerge_location: String,
}

impl DashDownloader {
    /// The download of the manifest at `mpd_url` with the choices that hold
    /// until others are made: lowest quality, no preferred language, both
    /// streams, no stream kept, content types checked, no observer, no pause
    /// between requests, silence, metainformation recorded, and the muxers
    /// as they are found on the path.
    pub fn new(mpd_url: &str) -> (downloader: DashDownloader)
        ensures
            downloader.mpd_url@ == mpd_url@,
            downloader.output_path is None,
            downloader.http_client is None,
            downloader.quality_preference == QualityPreference::Lowest,
            downloader.language_preference is None,
            downloader.fetch_video && downloader.fetch_audio,
            !downloader.keep_video && !downloader.keep_audio,
            downloader.content_type_checks,
            downloader.progress_observers@.len() == 0,
            downloader.sleep_between_requests == 0,
            downloader.verbosity == 0,
            downloader.record_metainformation,
            downloader.ffmpeg_location@ == "ffmpeg"@,
            downloader.vlc_location@ == "vlc"@,
            downloader.mkvmerge_location@ == "mkvmerge"@,
    {
        DashDownloader {
            mpd_url: String::from_str(mpd_url),
            output_path: None,
            http_client: None,
            quality_preference: QualityPreference::Lowest,
            language_preference: None,
            fetch_video: true,
            fetch_audio: true,
            keep_video: false,
            keep_audio: false,
            content_type_checks: true,
            progress_observers: Vec::new(),
            sleep_between_requests: 0,
            verbosity: 0,
            record_metainformation: true,
            ffmpeg_location: String::from_str("ffmpeg"),
            vlc_location: String::from_str("vlc"),
            mkvmerge_location: String::from_str("mkvmerge"),
        }
    }

    /// Makes the requests of the download with `client`.
    pub fn with_http_client(self, client: HttpClient) -> (downloader: DashDownloader)
        ensures
            downloader == (DashDownloader { http_client: Some(client), ..self }),
    {
        let mut downloader = self;
        downloader.http_client = Some(client);
        downloader
    }

    /// Adds an observer, which is told after those added before it.
    pub fn add_progress_observer(self, observer: Arc<dyn ProgressObserver>) -> (downloader:
        DashDownloader)
        ensures
            downloader.progress_observers@.len() == self.progress_observers@.len() + 1,
            downloader.progress_observers@.drop_last() == self.progress_observers@,
            downloader.progress_observers@.last() == observer,
            downloader == (DashDownloader {
                progress_observers: downloader.progress_observers,
                ..self
            }),
    {
        let mut downloader = self;
        let mut added = Vec::new();
        added.push(observer);
        downloader.progress_observers.append(&mut added);
        assert(downloader.progress_observers@.drop_last() =~= self.progress_observers@);
        downloader
    }

    /// Prefers the representation of highest bandwidth.
    pub fn best_quality(self) -> (downloader: DashDownloader)
        ensures
            downloader == (DashDownloader { quality_preference: QualityPreference::Highest, ..self }),
    {
        let mut downloader = self;
        downloader.quality_preference = QualityPreference::Highest;
        downloader
    }

    /// Prefers the representation of lowest bandwidth.
    pub fn worst_quality(self) -> (downloader: DashDownloader)
        ensures
            downloader == (DashDownloader { quality_preference: QualityPreference::Lowest, ..self }),
    {
        let mut downloader = self;
        downloader.quality_preference = QualityPreference::Lowest;
        downloader
    }

    /// Prefers the audio in the language `lang`, an RFC 5646 tag such as
    /// `fr` or `en-AU`.
    pub fn prefer_language(self, lang: String) -> (downloader: DashDownloader)
        ensures
            downloader == (DashDownloader { language_preference: Some(lang), ..self }),
    {
        let mut downloader = self;
        downloader.language_preference = Some(lang);
        downloader
    }

    /// Downloads the video stream only.
    pub fn video_only(self) -> (downloader: DashDownloader)
        ensures
            downloader == (DashDownloader { fetch_audio: false, fetch_video: true, ..self }),
    {
        let mut downloader = self;
        downloader.fetch_audio = false;
        downloader.fetch_video = true;
        downloader
    }

    /// Downloads the audio stream only.
    pub fn audio_only(self) -> (downloader: DashDownloader)
        ensures
            downloader == (DashDownloader { fetch_audio: true, fetch_video: false, ..self }),
    {
        let mut downloader = self;
        downloader.fetch_audio = true;
        downloader.fetch_video = false;
        downloader
    }

    /// Keeps the file of the video stream once the download is done.
    pub fn keep_video(self) -> (downloader: DashDownloader)
        ensures
            downloader == (DashDownloader { keep_video: true, ..self }),
    {
        let mut downloader = self;
        downloader.keep_video = true;
        downloader
    }

    /// Keeps the file of the audio stream once the download is done.
    pub fn keep_audio(self) -> (downloader: DashDownloader)
        ensures
            downloader == (DashDownloader { keep_audio: true, ..self }),
    {
        let mut downloader = self;
        downloader.keep_audio = true;
        downloader
    }

    /// Takes every fragment whatever content type the server gives it.
    pub fn without_content_type_checks(self) -> (downloader: DashDownloader)
        ensures
            downloader == (DashDownloader { content_type_checks: false, ..self }),
    {
        let mut downloader = self;
        downloader.content_type_checks = false;
        downloader
    }

    /// Waits `seconds` seconds between one request and the next.
    pub fn sleep_between_requests(self, seconds: u8) -> (downloader: DashDownloader)
        ensures
            downloader == (DashDownloader { sleep_between_requests: seconds, ..self }),
    {
        let mut downloader = self;
        downloader.sleep_between_requests = seconds;
        downloader
    }

    /// Says how much the download tells of itself: nothing at level 0, more
    /// at each level up to 3.
    pub fn verbosity(self, level: u8) -> (downloader: DashDownloader)
        ensures
            downloader == (DashDownloader { verbosity: level, ..self }),
    {
        let mut downloader = self;
        downloader.verbosity = level;
        downloader
    }

    /// Says whether to record, with the output file, where the content came
    /// from and what the manifest says of it.
    pub fn record_metainformation(self, record: bool) -> (downloader: DashDownloader)
        ensures
            downloader == (DashDownloader { record_metainformation: record, ..self }),
    {
        let mut downloader = self;
        downloader.record_metainformation = record;
        downloader
    }

    /// Says where the `ffmpeg` program is.
    pub fn with_ffmpeg(self, ffmpeg_path: &str) -> (downloader: DashDownloader)
        ensures
            downloader.ffmpeg_location@ == ffmpeg_path@,
            downloader == (DashDownloader { ffmpeg_location: downloader.ffmpeg_location, ..self }),
    {
        let mut downloader = self;
        downloader.ffmpeg_location = String::from_str(ffmpeg_path);
        downloader
    }

    /// Says where the VLC program is.
    pub fn with_vlc(self, vlc_path: &str) -> (downloader: DashDownloader)
        ensures
            downloader.vlc_location@ == vlc_path@,
            downloader == (DashDownloader { vlc_location: downloader.vlc_location, ..self }),
    {
        let mut downloader = self;
        downloader.vlc_location = String::from_str(vlc_path);
        downloader
    }

    /// Says where the `mkvmerge` program is.
    pub fn with_mkvmerge(self, mkvmerge_path: &str) -> (downloader: DashDownloader)
        ensures
            downloader.mkvmerge_location@ == mkvmerge_path@,
            downloader == (DashDownloader {
                mkvmerge_location: downloader.mkvmerge_location,
                ..self
            }),
    {
        let mut downloader = self;
        downloader.mkvmerge_location = String::from_str(mkvmerge_path);
        downloader
    }

    /// What of the manifest to download, as the resolver takes it.
    pub fn preferences(&self) -> (preferences: Preferences)
        ensures
            preferences.quality == self.quality_preference,
            preferences.language == self.language_preference,
            preferences.fetch_audio == self.fetch_audio,
            preferences.fetch_video == self.fetch_video,
    {
        Preferences {
            quality: self.quality_preference,
            language: match &self.language_preference {
                Some(lang) => Some(lang.clone()),
                None => None,
            },
            fetch_audio: self.fetch_audio,
            fetch_video: self.fetch_video,
        }
    }

    /// Tells every observer of the download how far it has come.
    pub fn report(&self, percent: u32, message: &str)
        requires
            percent <= 100,
    {
        notify_observers(&self.progress_observers, percent, message);
    }
}

/// What `sanitise_file_name::sanitise` makes of `input`.
pub uninterp spec fn sanitised_name(input: Seq<char>) -> Seq<char>;

/// Calls `sanitise_file_name::sanitise`. Trusted: the result is what
/// `sanitised_name` names.
#[verifier::external_body]
fn sanitise_name(input: &str) -> (name: String)
    ensures
        name@ == sanitised_name(input@),
{
    sanitise_file_name::sanitise(input)
}

/// `s` without `prefix` at its beginning, where it begins with it.
pub open spec fn without_prefix(s: Seq<char>, prefix: Seq<char>) -> Seq<char> {
    if has_prefix(s, prefix) {
        s.subrange(prefix.len() as int, s.len() as int)
    } else {
        s
    }
}

/// `s` without `suffix` at its end, where it ends with it.
pub open spec fn without_suffix(s: Seq<char>, suffix: Seq<char>) -> Seq<char> {
    if has_suffix(s, suffix) {
        s.subrange(0, s.len() - suffix.len())
    } else {
        s
    }
}

/// `url` without its scheme, where that is `http://`, `https://` or
/// `file://`.
pub open spec fn without_scheme(url: Seq<char>) -> Seq<char> {
    if has_prefix(url, "http://"@) {
        without_prefix(url, "http://"@)
    } else if has_prefix(url, "https://"@) {
        without_prefix(url, "https://"@)
    } else {
        without_prefix(url, "file://"@)
    }
}

/// What of the URL of a manifest goes into the name of the output file: the
/// URL without its scheme, without `www.` and then `ftp.` at its beginning,
/// and without `.mpd` at its end.
pub open spec fn name_stem(url: Seq<char>) -> Seq<char> {
    without_suffix(
        without_prefix(without_prefix(without_scheme(url), "www."@), "ftp."@),
        ".mpd"@,
    )
}

fn strip_prefix(s: Vec<char>, prefix: &str) -> (rest: Vec<char>)
    ensures
        rest@ == without_prefix(s@, prefix@),
{
    let p = chars_of(prefix);
    if starts_with(&s, &p) {
        slice_chars(&s, p.len(), s.len())
    } else {
        s
    }
}

fn strip_suffix(s: Vec<char>, suffix: &str) -> (rest: Vec<char>)
    ensures
        rest@ == without_suffix(s@, suffix@),
{
    let p = chars_of(suffix);
    if ends_with(&s, &p) {
        slice_chars(&s, 0, s.len() - p.len())
    } else {
        s
    }
}

/// What of the URL of a manifest goes into the name of the output file.
pub fn file_name_stem(url: &str) -> (stem: String)
    ensures
        stem@ == name_stem(url@),
{
    let v = chars_of(url);
    let v = if starts_with(&v, &chars_of("http://")) {
        strip_prefix(v, "http://")
    } else if starts_with(&v, &chars_of("https://")) {
        strip_prefix(v, "https://")
    } else {
        strip_prefix(v, "file://")
    };
    let v = strip_prefix(v, "www.");
    let v = strip_prefix(v, "ftp.");
    let v = strip_suffix(v, ".mpd");
    string_of(&v)
}

/// The name of an output file in an MPEG-4 container: `name`, then `.mp4`.
pub fn with_mp4_extension(name: String) -> (file_name: String)
    ensures
        file_name@ == name@ + ".mp4"@,
{
    name.concat(".mp4")
}

/// The name of the file that the content of the manifest at `url` is
/// written to where no other is given: the stem of the URL, made fit for a
/// file name, then `.mp4`.
pub fn generate_filename_from_url(url: &str) -> (file_name: String)
    ensures
        file_name@ == sanitised_name(name_stem(url@)) + ".mp4"@,
{
    let stem = file_name_stem(url);
    with_mp4_extension(sanitise_name(stem.as_str()))
}

} // verus!
