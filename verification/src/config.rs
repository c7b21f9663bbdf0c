//! The recorder configuration: which screen is captured, with which container,
//! codec and quality, how long the rolling replay buffer is, where saved
//! replays go, and which audio tracks are recorded.

use vstd::prelude::*;

use crate::text::{
    chars_eq, chars_to_string, escape, parse_num, render_u64, spec_dec_digits, spec_escape,
    spec_lines, spec_parse_num, spec_starts_with, spec_unescape, split_chars, string_to_chars,
    strip_prefix, unescape,
};

verus! {

/// Quality tier passed to the recorder binary.
#[derive(Clone, Copy, PartialEq, Eq, Structural, Debug)]
pub enum Quality {
    Medium,
    High,
    VeryHigh,
    Ultra,
}

impl Quality {
    /// The command-line token for this quality tier.
    pub fn to_string(&self) -> (r: String)
        ensures
            r@ == self.spec_token(),
    {
        match self {
            Quality::Medium => String::from_str("medium"),
            Quality::High => String::from_str("high"),
            Quality::VeryHigh => String::from_str("very_high"),
            Quality::Ultra => String::from_str("ultra"),
        }
    }

    /// The token as a mathematical sequence of characters.
    pub open spec fn spec_token(&self) -> Seq<char> {
        match self {
            Quality::Medium => "medium"@,
            Quality::High => "high"@,
            Quality::VeryHigh => "very_high"@,
            Quality::Ultra => "ultra"@,
        }
    }
}

impl Default for Quality {
    /// The default quality tier.
    fn default() -> (r: Self)
        ensures
            r == Quality::VeryHigh,
    {
        Quality::VeryHigh
    }
}

/// Container format passed to the recorder binary.
#[derive(Clone, Copy, PartialEq, Eq, Structural, Debug)]
pub enum Container {
    MKV,
    MP4,
    FLV,
    WEBM,
}

impl Container {
    /// The command-line token for this container format.
    pub fn to_string(&self) -> (r: String)
        ensures
            r@ == self.spec_token(),
    {
        match self {
            Container::MKV => String::from_str("mkv"),
            Container::MP4 => String::from_str("mp4"),
            Container::FLV => String::from_str("flv"),
            Container::WEBM => String::from_str("webm"),
        }
    }

    /// The token as a mathematical sequence of characters.
    pub open spec fn spec_token(&self) -> Seq<char> {
        match self {
            Container::MKV => "mkv"@,
            Container::MP4 => "mp4"@,
            Container::FLV => "flv"@,
            Container::WEBM => "webm"@,
        }
    }
}

/// Video codec passed to the recorder binary.
#[derive(Clone, Copy, PartialEq, Eq, Structural, Debug)]
pub enum Codec {
    H264,
    HEVC,
    HEVCHDR,
    HEVC10Bit,
    AV1,
    AV1HDR,
    AV110Bit,
    VP8,
    VP9,
}

impl Codec {
    /// The command-line token for this codec.
    pub fn to_string(&self) -> (r: String)
        ensures
            r@ == self.spec_token(),
    {
        match self {
            Codec::H264 => String::from_str("h264"),
            Codec::HEVC => String::from_str("hevc"),
            Codec::HEVCHDR => String::from_str("hevc_hdr"),
            Codec::HEVC10Bit => String::from_str("hevc_10bit"),
            Codec::AV1 => String::from_str("av1"),
            Codec::AV1HDR => String::from_str("av1_hdr"),
            Codec::AV110Bit => String::from_str("av1_10bit"),
            Codec::VP8 => String::from_str("vp8"),
            Codec::VP9 => String::from_str("vp9"),
        }
    }

    /// The token as a mathematical sequence of characters.
    pub open spec fn spec_token(&self) -> Seq<char> {
        match self {
            Codec::H264 => "h264"@,
            Codec::HEVC => "hevc"@,
            Codec::HEVCHDR => "hevc_hdr"@,
            Codec::HEVC10Bit => "hevc_10bit"@,
            Codec::AV1 => "av1"@,
            Codec::AV1HDR => "av1_hdr"@,
            Codec::AV110Bit => "av1_10bit"@,
            Codec::VP8 => "vp8"@,
            Codec::VP9 => "vp9"@,
        }
    }
}

impl Default for Codec {
    /// The default codec.
    fn default() -> (r: Self)
        ensures
            r == Codec::H264,
    {
        Codec::H264
    }
}

/// The default for the recording-enabled flag when the persisted file
/// does not carry one.
pub fn default_bool_true() -> (r: bool)
    ensures
        r == true,
{
    true
}

/// The default file-name pattern for saved replays.
pub fn default_file_name_pattern() -> (r: String)
    ensures
        r@ == spec_default_file_name_pattern(),
{
    String::from_str("%app%/%app%_replay_%year%-%month%-%day%_%hour%-%minute%-%second%")
}

/// The default file-name pattern as a sequence of characters.
pub open spec fn spec_default_file_name_pattern() -> Seq<char> {
    "%app%/%app%_replay_%year%-%month%-%day%_%hour%-%minute%-%second%"@
}

/// The persisted recorder settings. Mutated only by the dispatcher and the
/// settings panel; written back to storage after every mutation.
#[derive(Clone, Debug)]
pub struct Config {
    pub recording_enabled: bool,
    pub screen: String,
    pub container: Container,
    pub codec: Codec,
    pub audio_tracks: Vec<String>,
    pub framerate: u32,
    pub clear_buffer_on_save: bool,
    pub quality: Quality,
    pub replay_directory: String,
    pub replay_duration_secs: i64,
    pub file_name_pattern: String,
}

impl Config {
    /// A configuration is valid when its numeric settings are positive, as the
    /// recorder binary requires.
    pub open spec fn valid(&self) -> bool {
        &&& self.framerate >= 1
        &&& self.replay_duration_secs >= 1
    }

    /// The default configuration, used when the persisted file is absent or
    /// malformed. The replay directory comes from the caller, since the
    /// per-user video directory is only known to the environment.
    pub fn default_config(replay_directory: String) -> (r: Config)
        ensures
            r.recording_enabled == true,
            r.screen@ == "screen"@,
            r.container == Container::MKV,
            r.codec == Codec::H264,
            r.audio_tracks@.len() == 2,
            r.audio_tracks@[0]@ == "default_output"@,
            r.audio_tracks@[1]@ == "default_input"@,
            r.framerate == 60,
            r.clear_buffer_on_save == true,
            r.quality == Quality::Ultra,
            r.replay_directory == replay_directory,
            r.replay_duration_secs == 180,
            r.file_name_pattern@ == spec_default_file_name_pattern(),
            r.valid(),
    {
        let mut audio_tracks: Vec<String> = Vec::new();
        audio_tracks.push(String::from_str("default_output"));
        audio_tracks.push(String::from_str("default_input"));
        Config {
            recording_enabled: true,
            screen: String::from_str("screen"),
            container: Container::MKV,
            codec: Codec::H264,
            audio_tracks,
            framerate: 60,
            clear_buffer_on_save: true,
            quality: Quality::Ultra,
            replay_directory,
            replay_duration_secs: 180,
            file_name_pattern: default_file_name_pattern(),
        }
    }
}

// ---------------------------------------------------------------------------
// Persisted storage format.
//
// The configuration is persisted as text, one field per line. Each line is
// `key = value`, escaped as a whole (backslash, double quote and newline as
// two-character escapes) and terminated by a newline. The fields come in
// struct order; the audio tracks follow as a count line and one `track` line
// per track. Reading the caller-supplied file text back is [`Config::decode`];
// the round trip through [`Config::encode`] is proved below.
// ---------------------------------------------------------------------------

/// `key = value`, before escaping.
pub open spec fn spec_keyval(key: Seq<char>, value: Seq<char>) -> Seq<char> {
    key + " = "@ + value
}

/// One persisted line: the escaped `key = value`, newline-terminated.
pub open spec fn spec_line_of(key: Seq<char>, value: Seq<char>) -> Seq<char> {
    spec_escape(spec_keyval(key, value)) + seq!['\n']
}

/// The persisted form of a flag.
pub open spec fn spec_bool_str(b: bool) -> Seq<char> {
    if b {
        "true"@
    } else {
        "false"@
    }
}

/// One `track` line per audio track, in order.
pub open spec fn spec_tracks_lines(ts: Seq<Seq<char>>) -> Seq<char>
    decreases ts.len(),
{
    if ts.len() == 0 {
        Seq::empty()
    } else {
        spec_line_of("track"@, ts[0]) + spec_tracks_lines(ts.skip(1))
    }
}

/// The full persisted text of a configuration.
pub open spec fn spec_encode(c: Config) -> Seq<char> {
    spec_line_of("recording_enabled"@, spec_bool_str(c.recording_enabled)) + spec_line_of(
        "screen"@,
        c.screen@,
    ) + spec_line_of("container"@, c.container.spec_token()) + spec_line_of(
        "codec"@,
        c.codec.spec_token(),
    ) + spec_line_of("framerate"@, spec_dec_digits(c.framerate as nat)) + spec_line_of(
        "clear_buffer_on_save"@,
        spec_bool_str(c.clear_buffer_on_save),
    ) + spec_line_of("quality"@, c.quality.spec_token()) + spec_line_of(
        "replay_directory"@,
        c.replay_directory@,
    ) + spec_line_of(
        "replay_duration_secs"@,
        spec_dec_digits(c.replay_duration_secs as nat),
    ) + spec_line_of("file_name_pattern"@, c.file_name_pattern@) + spec_line_of(
        "audio_tracks"@,
        spec_dec_digits(c.audio_tracks@.len() as nat),
    ) + spec_tracks_lines(c.audio_tracks.deep_view())
}

/// The value of a persisted line for a key: the line unescaped, with
/// `key = ` stripped; `None` when the line is not that field.
pub open spec fn spec_field_value(line: Seq<char>, key: Seq<char>) -> Option<Seq<char>> {
    match spec_unescape(line) {
        Some(kv) => if spec_starts_with(kv, spec_keyval(key, Seq::empty())) {
            Some(kv.skip(spec_keyval(key, Seq::empty()).len() as int))
        } else {
            None
        },
        None => None,
    }
}

/// The flag a persisted value denotes.
pub open spec fn spec_parse_bool(v: Seq<char>) -> Option<bool> {
    if v == "true"@ {
        Some(true)
    } else if v == "false"@ {
        Some(false)
    } else {
        None
    }
}

/// The container a persisted token denotes.
pub open spec fn spec_parse_container(v: Seq<char>) -> Option<Container> {
    if v == "mkv"@ {
        Some(Container::MKV)
    } else if v == "mp4"@ {
        Some(Container::MP4)
    } else if v == "flv"@ {
        Some(Container::FLV)
    } else if v == "webm"@ {
        Some(Container::WEBM)
    } else {
        None
    }
}

/// The codec a persisted token denotes.
pub open spec fn spec_parse_codec(v: Seq<char>) -> Option<Codec> {
    if v == "h264"@ {
        Some(Codec::H264)
    } else if v == "hevc"@ {
        Some(Codec::HEVC)
    } else if v == "hevc_hdr"@ {
        Some(Codec::HEVCHDR)
    } else if v == "hevc_10bit"@ {
        Some(Codec::HEVC10Bit)
    } else if v == "av1"@ {
        Some(Codec::AV1)
    } else if v == "av1_hdr"@ {
        Some(Codec::AV1HDR)
    } else if v == "av1_10bit"@ {
        Some(Codec::AV110Bit)
    } else if v == "vp8"@ {
        Some(Codec::VP8)
    } else if v == "vp9"@ {
        Some(Codec::VP9)
    } else {
        None
    }
}

/// The quality tier a persisted token denotes.
pub open spec fn spec_parse_quality(v: Seq<char>) -> Option<Quality> {
    if v == "medium"@ {
        Some(Quality::Medium)
    } else if v == "high"@ {
        Some(Quality::High)
    } else if v == "very_high"@ {
        Some(Quality::VeryHigh)
    } else if v == "ultra"@ {
        Some(Quality::Ultra)
    } else {
        None
    }
}

/// Whether persisted text parses as a configuration: the ten field lines in
/// order, the audio-track count, that many track lines, and the empty line
/// the final newline leaves.
pub open spec fn spec_decodable(s: Seq<char>) -> bool {
    let ls = spec_lines(s);
    &&& ls.len() >= 12
    &&& (match spec_field_value(ls[0], "recording_enabled"@) {
        Some(v) => spec_parse_bool(v) is Some,
        None => false,
    })
    &&& spec_field_value(ls[1], "screen"@) is Some
    &&& (match spec_field_value(ls[2], "container"@) {
        Some(v) => spec_parse_container(v) is Some,
        None => false,
    })
    &&& (match spec_field_value(ls[3], "codec"@) {
        Some(v) => spec_parse_codec(v) is Some,
        None => false,
    })
    &&& (match spec_field_value(ls[4], "framerate"@) {
        Some(v) => match spec_parse_num(v) {
            Some(n) => 1 <= n <= 0xffffffff,
            None => false,
        },
        None => false,
    })
    &&& (match spec_field_value(ls[5], "clear_buffer_on_save"@) {
        Some(v) => spec_parse_bool(v) is Some,
        None => false,
    })
    &&& (match spec_field_value(ls[6], "quality"@) {
        Some(v) => spec_parse_quality(v) is Some,
        None => false,
    })
    &&& spec_field_value(ls[7], "replay_directory"@) is Some
    &&& (match spec_field_value(ls[8], "replay_duration_secs"@) {
        Some(v) => match spec_parse_num(v) {
            Some(n) => 1 <= n <= 0x7fffffffffffffff,
            None => false,
        },
        None => false,
    })
    &&& spec_field_value(ls[9], "file_name_pattern"@) is Some
    &&& (match spec_field_value(ls[10], "audio_tracks"@) {
        Some(v) => spec_parse_num(v) == Some(ls.len() - 12),
        None => false,
    })
    &&& (forall|k: int|
        0 <= k < ls.len() - 12 ==> #[trigger] spec_field_value(ls[11 + k], "track"@) is Some)
    &&& ls[ls.len() - 1] == Seq::<char>::empty()
}

/// Whether `c` is the configuration that persisted text `s` denotes: `s`
/// parses, and every field of `c` carries the parsed value.
pub open spec fn spec_config_matches(c: Config, s: Seq<char>) -> bool {
    let ls = spec_lines(s);
    &&& spec_decodable(s)
    &&& (match spec_field_value(ls[0], "recording_enabled"@) {
        Some(v) => spec_parse_bool(v) == Some(c.recording_enabled),
        None => false,
    })
    &&& (match spec_field_value(ls[1], "screen"@) {
        Some(v) => c.screen@ == v,
        None => false,
    })
    &&& (match spec_field_value(ls[2], "container"@) {
        Some(v) => spec_parse_container(v) == Some(c.container),
        None => false,
    })
    &&& (match spec_field_value(ls[3], "codec"@) {
        Some(v) => spec_parse_codec(v) == Some(c.codec),
        None => false,
    })
    &&& (match spec_field_value(ls[4], "framerate"@) {
        Some(v) => spec_parse_num(v) == Some(c.framerate as int),
        None => false,
    })
    &&& (match spec_field_value(ls[5], "clear_buffer_on_save"@) {
        Some(v) => spec_parse_bool(v) == Some(c.clear_buffer_on_save),
        None => false,
    })
    &&& (match spec_field_value(ls[6], "quality"@) {
        Some(v) => spec_parse_quality(v) == Some(c.quality),
        None => false,
    })
    &&& (match spec_field_value(ls[7], "replay_directory"@) {
        Some(v) => c.replay_directory@ == v,
        None => false,
    })
    &&& (match spec_field_value(ls[8], "replay_duration_secs"@) {
        Some(v) => spec_parse_num(v) == Some(c.replay_duration_secs as int),
        None => false,
    })
    &&& (match spec_field_value(ls[9], "file_name_pattern"@) {
        Some(v) => c.file_name_pattern@ == v,
        None => false,
    })
    &&& c.audio_tracks@.len() == ls.len() - 12
    &&& (forall|k: int| 0 <= k < ls.len() - 12 ==> #[trigger] spec_track_matches(
        c.audio_tracks@,
        ls,
        k,
    ))
}

/// Whether track `k` of the configuration carries the value of track line
/// `k` of the persisted lines.
pub open spec fn spec_track_matches(tracks: Seq<String>, ls: Seq<Seq<char>>, k: int) -> bool {
    match spec_field_value(ls[11 + k], "track"@) {
        Some(v) => tracks[k]@ == v,
        None => false,
    }
}

/// Appends the characters of `src` to `dst`.
fn append_chars(dst: &mut Vec<char>, src: &Vec<char>)
    ensures
        final(dst)@ == old(dst)@ + src@,
{
    let mut i: usize = 0;
    while i < src.len()
        invariant
            0 <= i <= src@.len(),
            dst@ =~= old(dst)@ + src@.take(i as int),
        decreases src.len() - i,
    {
        dst.push(src[i]);
        i += 1;
    }
    proof {
        assert(dst@ =~= old(dst)@ + src@);
    }
}

/// Builds `key = value`.
fn keyval(key: &Vec<char>, value: &Vec<char>) -> (r: Vec<char>)
    ensures
        r@ == spec_keyval(key@, value@),
{
    let mut out = key.clone();
    out.push(' ');
    out.push('=');
    out.push(' ');
    append_chars(&mut out, value);
    proof {
        reveal_strlit(" = ");
        assert(" = "@.len() == 3);
        assert(out@ =~= key@ + " = "@ + value@);
    }
    out
}

/// Appends one persisted line to `out`.
fn push_line(out: &mut Vec<char>, key: &Vec<char>, value: &Vec<char>)
    ensures
        final(out)@ == old(out)@ + spec_line_of(key@, value@),
{
    let kv = keyval(key, value);
    let escaped = escape(&kv);
    append_chars(out, &escaped);
    out.push('\n');
    proof {
        assert(out@ =~= old(out)@ + (spec_escape(spec_keyval(key@, value@)) + seq!['\n']));
    }
}

impl Config {
    /// The persisted text of this configuration.
    pub fn encode(&self) -> (r: String)
        requires
            self.valid(),
        ensures
            r@ == spec_encode(*self),
    {
        let mut out: Vec<char> = Vec::new();
        push_line(
            &mut out,
            &string_to_chars("recording_enabled"),
            &string_to_chars(if self.recording_enabled { "true" } else { "false" }),
        );
        push_line(&mut out, &string_to_chars("screen"), &string_to_chars(self.screen.as_str()));
        push_line(
            &mut out,
            &string_to_chars("container"),
            &string_to_chars(self.container.to_string().as_str()),
        );
        push_line(
            &mut out,
            &string_to_chars("codec"),
            &string_to_chars(self.codec.to_string().as_str()),
        );
        push_line(&mut out, &string_to_chars("framerate"), &render_u64(self.framerate as u64));
        push_line(
            &mut out,
            &string_to_chars("clear_buffer_on_save"),
            &string_to_chars(if self.clear_buffer_on_save { "true" } else { "false" }),
        );
        push_line(
            &mut out,
            &string_to_chars("quality"),
            &string_to_chars(self.quality.to_string().as_str()),
        );
        push_line(
            &mut out,
            &string_to_chars("replay_directory"),
            &string_to_chars(self.replay_directory.as_str()),
        );
        push_line(
            &mut out,
            &string_to_chars("replay_duration_secs"),
            &render_u64(self.replay_duration_secs as u64),
        );
        push_line(
            &mut out,
            &string_to_chars("file_name_pattern"),
            &string_to_chars(self.file_name_pattern.as_str()),
        );
        let count = self.audio_tracks.len();
        push_line(&mut out, &string_to_chars("audio_tracks"), &render_u64(count as u64));
        let ghost head = out@;
        let key_track = string_to_chars("track");
        let mut k: usize = 0;
        while k < self.audio_tracks.len()
            invariant
                0 <= k <= self.audio_tracks@.len(),
                key_track@ == "track"@,
                out@ == head + spec_tracks_lines_prefix(self.audio_tracks.deep_view(), k as int),
            decreases self.audio_tracks.len() - k,
        {
            push_line(&mut out, &key_track, &string_to_chars(self.audio_tracks[k].as_str()));
            proof {
                assert(self.audio_tracks.deep_view()[k as int] == self.audio_tracks@[k as int]@);
                lemma_tracks_lines_prefix_step(self.audio_tracks.deep_view(), k as int);
                assert(out@ =~= head + spec_tracks_lines_prefix(
                    self.audio_tracks.deep_view(),
                    k + 1,
                ));
            }
            k += 1;
        }
        proof {
            lemma_tracks_lines_prefix_full(self.audio_tracks.deep_view());
            assert(out@ =~= spec_encode(*self));
        }
        chars_to_string(&out)
    }
}

/// The track lines of the first `k` tracks.
pub open spec fn spec_tracks_lines_prefix(ts: Seq<Seq<char>>, k: int) -> Seq<char>
    decreases k,
{
    if k <= 0 {
        Seq::empty()
    } else {
        spec_tracks_lines_prefix(ts, k - 1) + spec_line_of("track"@, ts[k - 1])
    }
}

/// Appending one track extends the prefix by its line.
proof fn lemma_tracks_lines_prefix_step(ts: Seq<Seq<char>>, k: int)
    requires
        0 <= k < ts.len(),
    ensures
        spec_tracks_lines_prefix(ts, k + 1) == spec_tracks_lines_prefix(ts, k) + spec_line_of(
            "track"@,
            ts[k],
        ),
{
}

/// The prefix over all tracks is the full track-line text.
proof fn lemma_tracks_lines_prefix_full(ts: Seq<Seq<char>>)
    ensures
        spec_tracks_lines_prefix(ts, ts.len() as int) == spec_tracks_lines(ts),
    decreases ts.len(),
{
    if ts.len() == 0 {
        assert(spec_tracks_lines_prefix(ts, 0) =~= spec_tracks_lines(ts));
    } else {
        let rest = ts.skip(1);
        lemma_tracks_lines_prefix_full(rest);
        lemma_tracks_lines_shift(ts, ts.len() as int);
    }
}

/// A prefix over the tail shifted by one equals the prefix over the whole
/// minus its head line.
proof fn lemma_tracks_lines_shift(ts: Seq<Seq<char>>, k: int)
    requires
        1 <= k <= ts.len(),
    ensures
        spec_tracks_lines_prefix(ts, k) == spec_line_of("track"@, ts[0])
            + spec_tracks_lines_prefix(ts.skip(1), k - 1),
    decreases k,
{
    if k == 1 {
        assert(spec_tracks_lines_prefix(ts, 0) == Seq::<char>::empty());
        assert(spec_tracks_lines_prefix(ts.skip(1), 0) == Seq::<char>::empty());
        assert(spec_tracks_lines_prefix(ts, 1) =~= spec_line_of("track"@, ts[0])
            + spec_tracks_lines_prefix(ts.skip(1), 0));
    } else {
        lemma_tracks_lines_shift(ts, k - 1);
        assert(ts.skip(1)[k - 2] == ts[k - 1]);
        assert(spec_tracks_lines_prefix(ts, k) =~= spec_line_of("track"@, ts[0])
            + spec_tracks_lines_prefix(ts.skip(1), k - 1));
    }
}

/// Reads the value of one persisted line for a key.
fn field_value(line: &Vec<char>, key: &Vec<char>) -> (r: Option<Vec<char>>)
    ensures
        match r {
            Some(v) => spec_field_value(line@, key@) == Some(v@),
            None => spec_field_value(line@, key@) is None,
        },
{
    match unescape(line) {
        Some(kv) => {
            let empty_value: Vec<char> = Vec::new();
            let prefix = keyval(key, &empty_value);
            proof {
                assert(spec_keyval(key@, empty_value@) =~= spec_keyval(key@, Seq::empty()));
            }
            strip_prefix(&kv, &prefix)
        },
        None => None,
    }
}

/// Reads a flag value.
fn parse_bool(v: &Vec<char>) -> (r: Option<bool>)
    ensures
        r == spec_parse_bool(v@),
{
    if chars_eq(v, &string_to_chars("true")) {
        Some(true)
    } else if chars_eq(v, &string_to_chars("false")) {
        Some(false)
    } else {
        None
    }
}

/// Reads a container token.
fn parse_container(v: &Vec<char>) -> (r: Option<Container>)
    ensures
        r == spec_parse_container(v@),
{
    if chars_eq(v, &string_to_chars("mkv")) {
        Some(Container::MKV)
    } else if chars_eq(v, &string_to_chars("mp4")) {
        Some(Container::MP4)
    } else if chars_eq(v, &string_to_chars("flv")) {
        Some(Container::FLV)
    } else if chars_eq(v, &string_to_chars("webm")) {
        Some(Container::WEBM)
    } else {
        None
    }
}

/// Reads a codec token.
fn parse_codec(v: &Vec<char>) -> (r: Option<Codec>)
    ensures
        r == spec_parse_codec(v@),
{
    if chars_eq(v, &string_to_chars("h264")) {
        Some(Codec::H264)
    } else if chars_eq(v, &string_to_chars("hevc")) {
        Some(Codec::HEVC)
    } else if chars_eq(v, &string_to_chars("hevc_hdr")) {
        Some(Codec::HEVCHDR)
    } else if chars_eq(v, &string_to_chars("hevc_10bit")) {
        Some(Codec::HEVC10Bit)
    } else if chars_eq(v, &string_to_chars("av1")) {
        Some(Codec::AV1)
    } else if chars_eq(v, &string_to_chars("av1_hdr")) {
        Some(Codec::AV1HDR)
    } else if chars_eq(v, &string_to_chars("av1_10bit")) {
        Some(Codec::AV110Bit)
    } else if chars_eq(v, &string_to_chars("vp8")) {
        Some(Codec::VP8)
    } else if chars_eq(v, &string_to_chars("vp9")) {
        Some(Codec::VP9)
    } else {
        None
    }
}

/// Reads a quality token.
fn parse_quality(v: &Vec<char>) -> (r: Option<Quality>)
    ensures
        r == spec_parse_quality(v@),
{
    if chars_eq(v, &string_to_chars("medium")) {
        Some(Quality::Medium)
    } else if chars_eq(v, &string_to_chars("high")) {
        Some(Quality::High)
    } else if chars_eq(v, &string_to_chars("very_high")) {
        Some(Quality::VeryHigh)
    } else if chars_eq(v, &string_to_chars("ultra")) {
        Some(Quality::Ultra)
    } else {
        None
    }
}

impl Config {
    /// Reads persisted text back into a configuration; `None` when the text
    /// is not a persisted configuration, in which case the caller falls back
    /// to the defaults.
    pub fn decode(text: &String) -> (r: Option<Config>)
        ensures
            match r {
                Some(c) => spec_config_matches(c, text@) && c.valid(),
                None => !spec_decodable(text@),
            },
    {
        let chars = string_to_chars(text.as_str());
        let lines = split_chars(&chars, '\n');
        let ghost ls = spec_lines(text@);
        proof {
            assert(lines.deep_view() == ls);
        }
        if lines.len() < 12 {
            return None;
        }
        proof {
            assert forall|j: int| 0 <= j < lines@.len() implies (#[trigger] lines@[j])@
                == ls[j] by {
                assert(lines.deep_view()[j] == lines@[j]@);
            }
        }
        let recording_enabled = match field_value(&lines[0], &string_to_chars(
            "recording_enabled",
        )) {
            Some(v) => match parse_bool(&v) {
                Some(b) => b,
                None => {
                    return None;
                },
            },
            None => {
                return None;
            },
        };
        let screen = match field_value(&lines[1], &string_to_chars("screen")) {
            Some(v) => chars_to_string(&v),
            None => {
                return None;
            },
        };
        let container = match field_value(&lines[2], &string_to_chars("container")) {
            Some(v) => match parse_container(&v) {
                Some(x) => x,
                None => {
                    return None;
                },
            },
            None => {
                return None;
            },
        };
        let codec = match field_value(&lines[3], &string_to_chars("codec")) {
            Some(v) => match parse_codec(&v) {
                Some(x) => x,
                None => {
                    return None;
                },
            },
            None => {
                return None;
            },
        };
        let framerate = match field_value(&lines[4], &string_to_chars("framerate")) {
            Some(v) => match parse_num(&v) {
                Some(n) => if 1 <= n && n <= 0xffffffff {
                    n as u32
                } else {
                    proof {
                        lemma_num_in_range(v@);
                    }
                    return None;
                },
                None => {
                    proof {
                        lemma_num_in_range(v@);
                    }
                    return None;
                },
            },
            None => {
                return None;
            },
        };
        let clear_buffer_on_save = match field_value(&lines[5], &string_to_chars(
            "clear_buffer_on_save",
        )) {
            Some(v) => match parse_bool(&v) {
                Some(b) => b,
                None => {
                    return None;
                },
            },
            None => {
                return None;
            },
        };
        let quality = match field_value(&lines[6], &string_to_chars("quality")) {
            Some(v) => match parse_quality(&v) {
                Some(x) => x,
                None => {
                    return None;
                },
            },
            None => {
                return None;
            },
        };
        let replay_directory = match field_value(&lines[7], &string_to_chars("replay_directory")) {
            Some(v) => chars_to_string(&v),
            None => {
                return None;
            },
        };
        let replay_duration_secs = match field_value(&lines[8], &string_to_chars(
            "replay_duration_secs",
        )) {
            Some(v) => match parse_num(&v) {
                Some(n) => if 1 <= n && n <= 0x7fffffffffffffff {
                    n as i64
                } else {
                    proof {
                        lemma_num_in_range(v@);
                    }
                    return None;
                },
                None => {
                    proof {
                        lemma_num_in_range(v@);
                    }
                    return None;
                },
            },
            None => {
                return None;
            },
        };
        let file_name_pattern = match field_value(&lines[9], &string_to_chars(
            "file_name_pattern",
        )) {
            Some(v) => chars_to_string(&v),
            None => {
                return None;
            },
        };
        let count: u64 = match field_value(&lines[10], &string_to_chars("audio_tracks")) {
            Some(v) => match parse_num(&v) {
                Some(n) => n,
                None => {
                    proof {
                        lemma_num_in_range(v@);
                        match spec_parse_num(v@) {
                            Some(m) => {
                                assert(m < 10000000000000000000);
                            },
                            None => {},
                        }
                    }
                    return None;
                },
            },
            None => {
                return None;
            },
        };
        if count != (lines.len() - 12) as u64 {
            return None;
        }
        let track_key = string_to_chars("track");
        let mut audio_tracks: Vec<String> = Vec::new();
        let mut k: usize = 0;
        while k < lines.len() - 12
            invariant
                0 <= k <= lines@.len() - 12,
                ls == spec_lines(text@),
                lines@.len() == ls.len(),
                lines@.len() >= 12,
                track_key@ == "track"@,
                forall|j: int| 0 <= j < lines@.len() ==> (#[trigger] lines@[j])@ == ls[j],
                audio_tracks@.len() == k,
                forall|j: int| 0 <= j < k ==> #[trigger] spec_track_matches(audio_tracks@, ls, j),
            decreases lines.len() - 12 - k,
        {
            proof {
                assert(lines@[11 + k]@ == ls[11 + k as int]);
            }
            let ghost prev_tracks = audio_tracks@;
            match field_value(&lines[11 + k], &track_key) {
                Some(v) => {
                    audio_tracks.push(chars_to_string(&v));
                    proof {
                        assert(spec_field_value(ls[11 + k as int], "track"@) == Some(v@));
                        assert(audio_tracks@[k as int]@ == v@);
                        assert forall|j: int| 0 <= j < k + 1 implies #[trigger] spec_track_matches(
                            audio_tracks@,
                            ls,
                            j,
                        ) by {
                            if j < k {
                                assert(spec_track_matches(prev_tracks, ls, j));
                                assert(audio_tracks@[j] == prev_tracks[j]);
                            } else {
                                assert(audio_tracks@[j]@ == v@);
                            }
                        }
                    }
                },
                None => {
                    proof {
                        assert(spec_field_value(ls[11 + k as int], "track"@) is None);
                        assert(0 <= k < ls.len() - 12);
                        assert(!spec_decodable(text@)) by {
                            if spec_decodable(text@) {
                                assert(spec_field_value(
                                    spec_lines(text@)[11 + k as int],
                                    "track"@,
                                ) is Some);
                            }
                        }
                    }
                    return None;
                },
            }
            k += 1;
        }
        if lines[lines.len() - 1].len() != 0 {
            proof {
                assert(ls[ls.len() - 1] != Seq::<char>::empty());
            }
            return None;
        }
        proof {
            assert(ls[ls.len() - 1] =~= Seq::<char>::empty());
        }
        let c = Config {
            recording_enabled,
            screen,
            container,
            codec,
            audio_tracks,
            framerate,
            clear_buffer_on_save,
            quality,
            replay_directory,
            replay_duration_secs,
            file_name_pattern,
        };
        proof {
            assert forall|j: int| 0 <= j < ls.len() - 12 implies #[trigger] spec_field_value(
                ls[11 + j],
                "track"@,
            ) is Some by {
                assert(spec_track_matches(audio_tracks@, ls, j));
            }
            assert(spec_decodable(text@));
            assert forall|j: int| 0 <= j < ls.len() - 12 implies #[trigger] spec_track_matches(
                c.audio_tracks@,
                ls,
                j,
            ) by {
                assert(spec_track_matches(audio_tracks@, ls, j));
            }
            assert(spec_config_matches(c, text@));
        }
        Some(c)
    }
}

/// A parsed number is bounded by what nineteen digits can write, so it fits
/// an unsigned 64-bit value.
proof fn lemma_num_in_range(v: Seq<char>)
    ensures
        spec_parse_num(v) matches Some(n) ==> 0 <= n < 10000000000000000000,
{
    if spec_parse_num(v) matches Some(n) {
        crate::text::lemma_digits_val_bound(v);
        crate::text::lemma_pow10_increases(v.len(), 19);
        crate::text::lemma_pow10_19();
    }
}

// ---------------------------------------------------------------------------
// The round trip: what `encode` writes, `decode` reads back field for field.
// ---------------------------------------------------------------------------

/// Reading a written line back gives the written value.
proof fn lemma_field_line_value(key: Seq<char>, value: Seq<char>)
    ensures
        spec_field_value(spec_escape(spec_keyval(key, value)), key) == Some(value),
{
    crate::text::lemma_unescape_escape(spec_keyval(key, value));
    let p = spec_keyval(key, Seq::empty());
    let kv = spec_keyval(key, value);
    assert(p =~= key + " = "@);
    assert(kv =~= p + value);
    assert((p + value).take(p.len() as int) =~= p);
    assert((p + value).skip(p.len() as int) =~= value);
}

/// The lines of the track text: one escaped line per track, then the empty
/// line left by the final newline.
proof fn lemma_lines_of_tracks(ts: Seq<Seq<char>>)
    ensures
        spec_lines(spec_tracks_lines(ts)).len() == ts.len() + 1,
        spec_lines(spec_tracks_lines(ts))[ts.len() as int] == Seq::<char>::empty(),
        forall|k: int|
            0 <= k < ts.len() ==> #[trigger] spec_lines(spec_tracks_lines(ts))[k] == spec_escape(
                spec_keyval("track"@, ts[k]),
            ),
    decreases ts.len(),
{
    if ts.len() == 0 {
        assert(spec_tracks_lines(ts) == Seq::<char>::empty());
        assert(spec_lines(Seq::<char>::empty()) == seq![Seq::<char>::empty()]);
    } else {
        let rest = ts.skip(1);
        lemma_lines_of_tracks(rest);
        let e0 = spec_escape(spec_keyval("track"@, ts[0]));
        crate::text::lemma_escape_no_newline(spec_keyval("track"@, ts[0]));
        assert(spec_tracks_lines(ts) == spec_line_of("track"@, ts[0]) + spec_tracks_lines(rest));
        assert(spec_tracks_lines(ts) =~= e0 + seq!['\n'] + spec_tracks_lines(rest));
        crate::text::lemma_split_of_part(e0, spec_tracks_lines(rest), '\n');
        let lr = spec_lines(spec_tracks_lines(rest));
        assert(spec_lines(spec_tracks_lines(ts)) == seq![e0] + lr);
        assert forall|k: int| 0 <= k < ts.len() implies #[trigger] spec_lines(
            spec_tracks_lines(ts),
        )[k] == spec_escape(spec_keyval("track"@, ts[k])) by {
            if k > 0 {
                assert(spec_lines(spec_tracks_lines(ts))[k] == lr[k - 1]);
                assert(lr[k - 1] == spec_escape(spec_keyval("track"@, rest[k - 1])));
                assert(rest[k - 1] == ts[k]);
            }
        }
    }
}

/// The lines of the full persisted text, by position.
#[verifier::rlimit(100)]
proof fn lemma_lines_of_encode(c: Config)
    requires
        c.valid(),
    ensures
        spec_lines(spec_encode(c)).len() == 12 + c.audio_tracks@.len(),
        spec_lines(spec_encode(c))[0] == spec_escape(
            spec_keyval("recording_enabled"@, spec_bool_str(c.recording_enabled)),
        ),
        spec_lines(spec_encode(c))[1] == spec_escape(spec_keyval("screen"@, c.screen@)),
        spec_lines(spec_encode(c))[2] == spec_escape(
            spec_keyval("container"@, c.container.spec_token()),
        ),
        spec_lines(spec_encode(c))[3] == spec_escape(spec_keyval("codec"@, c.codec.spec_token())),
        spec_lines(spec_encode(c))[4] == spec_escape(
            spec_keyval("framerate"@, spec_dec_digits(c.framerate as nat)),
        ),
        spec_lines(spec_encode(c))[5] == spec_escape(
            spec_keyval("clear_buffer_on_save"@, spec_bool_str(c.clear_buffer_on_save)),
        ),
        spec_lines(spec_encode(c))[6] == spec_escape(
            spec_keyval("quality"@, c.quality.spec_token()),
        ),
        spec_lines(spec_encode(c))[7] == spec_escape(
            spec_keyval("replay_directory"@, c.replay_directory@),
        ),
        spec_lines(spec_encode(c))[8] == spec_escape(
            spec_keyval("replay_duration_secs"@, spec_dec_digits(c.replay_duration_secs as nat)),
        ),
        spec_lines(spec_encode(c))[9] == spec_escape(
            spec_keyval("file_name_pattern"@, c.file_name_pattern@),
        ),
        spec_lines(spec_encode(c))[10] == spec_escape(
            spec_keyval("audio_tracks"@, spec_dec_digits(c.audio_tracks@.len() as nat)),
        ),
        forall|k: int|
            0 <= k < c.audio_tracks@.len() ==> #[trigger] spec_lines(spec_encode(c))[11 + k]
                == spec_escape(spec_keyval("track"@, c.audio_tracks.deep_view()[k])),
        spec_lines(spec_encode(c))[11 + c.audio_tracks@.len() as int] == Seq::<char>::empty(),
{
    let e0 = spec_escape(spec_keyval("recording_enabled"@, spec_bool_str(c.recording_enabled)));
    let e1 = spec_escape(spec_keyval("screen"@, c.screen@));
    let e2 = spec_escape(spec_keyval("container"@, c.container.spec_token()));
    let e3 = spec_escape(spec_keyval("codec"@, c.codec.spec_token()));
    let e4 = spec_escape(spec_keyval("framerate"@, spec_dec_digits(c.framerate as nat)));
    let e5 = spec_escape(spec_keyval("clear_buffer_on_save"@, spec_bool_str(c.clear_buffer_on_save)));
    let e6 = spec_escape(spec_keyval("quality"@, c.quality.spec_token()));
    let e7 = spec_escape(spec_keyval("replay_directory"@, c.replay_directory@));
    let e8 = spec_escape(
        spec_keyval("replay_duration_secs"@, spec_dec_digits(c.replay_duration_secs as nat)),
    );
    let e9 = spec_escape(spec_keyval("file_name_pattern"@, c.file_name_pattern@));
    let e10 = spec_escape(
        spec_keyval("audio_tracks"@, spec_dec_digits(c.audio_tracks@.len() as nat)),
    );
    let ts = c.audio_tracks.deep_view();
    let t = spec_tracks_lines(ts);
    crate::text::lemma_escape_no_newline(
        spec_keyval("recording_enabled"@, spec_bool_str(c.recording_enabled)),
    );
    crate::text::lemma_escape_no_newline(spec_keyval("screen"@, c.screen@));
    crate::text::lemma_escape_no_newline(spec_keyval("container"@, c.container.spec_token()));
    crate::text::lemma_escape_no_newline(spec_keyval("codec"@, c.codec.spec_token()));
    crate::text::lemma_escape_no_newline(
        spec_keyval("framerate"@, spec_dec_digits(c.framerate as nat)),
    );
    crate::text::lemma_escape_no_newline(
        spec_keyval("clear_buffer_on_save"@, spec_bool_str(c.clear_buffer_on_save)),
    );
    crate::text::lemma_escape_no_newline(spec_keyval("quality"@, c.quality.spec_token()));
    crate::text::lemma_escape_no_newline(spec_keyval("replay_directory"@, c.replay_directory@));
    crate::text::lemma_escape_no_newline(
        spec_keyval("replay_duration_secs"@, spec_dec_digits(c.replay_duration_secs as nat)),
    );
    crate::text::lemma_escape_no_newline(spec_keyval("file_name_pattern"@, c.file_name_pattern@));
    crate::text::lemma_escape_no_newline(
        spec_keyval("audio_tracks"@, spec_dec_digits(c.audio_tracks@.len() as nat)),
    );
    let r10 = t;
    let r9 = spec_line_of("audio_tracks"@, spec_dec_digits(c.audio_tracks@.len() as nat)) + r10;
    let r8 = spec_line_of("file_name_pattern"@, c.file_name_pattern@) + r9;
    let r7 = spec_line_of("replay_duration_secs"@, spec_dec_digits(c.replay_duration_secs as nat))
        + r8;
    let r6 = spec_line_of("replay_directory"@, c.replay_directory@) + r7;
    let r5 = spec_line_of("quality"@, c.quality.spec_token()) + r6;
    let r4 = spec_line_of("clear_buffer_on_save"@, spec_bool_str(c.clear_buffer_on_save)) + r5;
    let r3 = spec_line_of("framerate"@, spec_dec_digits(c.framerate as nat)) + r4;
    let r2 = spec_line_of("codec"@, c.codec.spec_token()) + r3;
    let r1 = spec_line_of("container"@, c.container.spec_token()) + r2;
    let r0 = spec_line_of("screen"@, c.screen@) + r1;
    assert(spec_encode(c) =~= spec_line_of(
        "recording_enabled"@,
        spec_bool_str(c.recording_enabled),
    ) + r0);
    assert(spec_line_of("recording_enabled"@, spec_bool_str(c.recording_enabled)) + r0 =~= e0
        + seq!['\n'] + r0);
    crate::text::lemma_split_of_part(e0, r0, '\n');
    assert(r0 =~= e1 + seq!['\n'] + r1);
    crate::text::lemma_split_of_part(e1, r1, '\n');
    assert(r1 =~= e2 + seq!['\n'] + r2);
    crate::text::lemma_split_of_part(e2, r2, '\n');
    assert(r2 =~= e3 + seq!['\n'] + r3);
    crate::text::lemma_split_of_part(e3, r3, '\n');
    assert(r3 =~= e4 + seq!['\n'] + r4);
    crate::text::lemma_split_of_part(e4, r4, '\n');
    assert(r4 =~= e5 + seq!['\n'] + r5);
    crate::text::lemma_split_of_part(e5, r5, '\n');
    assert(r5 =~= e6 + seq!['\n'] + r6);
    crate::text::lemma_split_of_part(e6, r6, '\n');
    assert(r6 =~= e7 + seq!['\n'] + r7);
    crate::text::lemma_split_of_part(e7, r7, '\n');
    assert(r7 =~= e8 + seq!['\n'] + r8);
    crate::text::lemma_split_of_part(e8, r8, '\n');
    assert(r8 =~= e9 + seq!['\n'] + r9);
    crate::text::lemma_split_of_part(e9, r9, '\n');
    assert(r9 =~= e10 + seq!['\n'] + r10);
    crate::text::lemma_split_of_part(e10, r10, '\n');
    lemma_lines_of_tracks(ts);
    let lt = spec_lines(t);
    assert(spec_lines(spec_encode(c)) == seq![e0] + (seq![e1] + (seq![e2] + (seq![e3] + (seq![e4]
        + (seq![e5] + (seq![e6] + (seq![e7] + (seq![e8] + (seq![e9] + (seq![e10] + lt)))))))))));
    assert(ts.len() == c.audio_tracks@.len());
    assert(spec_lines(spec_encode(c)).len() == 12 + c.audio_tracks@.len());
    assert forall|k: int| 0 <= k < c.audio_tracks@.len() implies #[trigger] spec_lines(
        spec_encode(c),
    )[11 + k] == spec_escape(spec_keyval("track"@, ts[k])) by {
        assert(spec_lines(spec_encode(c))[11 + k] == lt[k]);
    }
    assert(spec_lines(spec_encode(c))[11 + c.audio_tracks@.len() as int] == lt[ts.len() as int]);
}

/// Each container token reads back as its container.
proof fn lemma_container_token_round_trip(x: Container)
    ensures
        spec_parse_container(x.spec_token()) == Some(x),
{
    reveal_strlit("mkv");
    reveal_strlit("mp4");
    reveal_strlit("flv");
    reveal_strlit("webm");
    assert("mkv"@.len() == 3);
    assert("mp4"@.len() == 3);
    assert("flv"@.len() == 3);
    assert("webm"@.len() == 4);
    assert("mp4"@[1] == 'p' && "mkv"@[1] == 'k');
    assert("flv"@[0] == 'f' && "mkv"@[0] == 'm' && "mp4"@[0] == 'm');
}

/// Each codec token reads back as its codec.
proof fn lemma_codec_token_round_trip(x: Codec)
    ensures
        spec_parse_codec(x.spec_token()) == Some(x),
{
    reveal_strlit("h264");
    reveal_strlit("hevc");
    reveal_strlit("hevc_hdr");
    reveal_strlit("hevc_10bit");
    reveal_strlit("av1");
    reveal_strlit("av1_hdr");
    reveal_strlit("av1_10bit");
    reveal_strlit("vp8");
    reveal_strlit("vp9");
    assert("h264"@.len() == 4);
    assert("hevc"@.len() == 4);
    assert("hevc_hdr"@.len() == 8);
    assert("hevc_10bit"@.len() == 10);
    assert("av1"@.len() == 3);
    assert("av1_hdr"@.len() == 7);
    assert("av1_10bit"@.len() == 9);
    assert("vp8"@.len() == 3);
    assert("vp9"@.len() == 3);
    assert("hevc"@[1] == 'e' && "h264"@[1] == '2');
    assert("av1"@[0] == 'a' && "vp8"@[0] == 'v' && "vp9"@[0] == 'v');
    assert("vp8"@[2] == '8' && "vp9"@[2] == '9');
}

/// Each quality token reads back as its quality tier.
proof fn lemma_quality_token_round_trip(x: Quality)
    ensures
        spec_parse_quality(x.spec_token()) == Some(x),
{
    reveal_strlit("medium");
    reveal_strlit("high");
    reveal_strlit("very_high");
    reveal_strlit("ultra");
    assert("medium"@.len() == 6);
    assert("high"@.len() == 4);
    assert("very_high"@.len() == 9);
    assert("ultra"@.len() == 5);
}

/// Each flag string reads back as its flag.
proof fn lemma_bool_round_trip(b: bool)
    ensures
        spec_parse_bool(spec_bool_str(b)) == Some(b),
{
    reveal_strlit("true");
    reveal_strlit("false");
    assert("true"@.len() == 4);
    assert("false"@.len() == 5);
}

/// What `encode` writes for a valid configuration parses, and it denotes
/// that configuration: every field reads back with the written value.
pub proof fn lemma_encode_round_trip(c: Config)
    requires
        c.valid(),
        c.audio_tracks@.len() < 10000000000000000000,
    ensures
        spec_decodable(spec_encode(c)),
        spec_config_matches(c, spec_encode(c)),
{
    let s = spec_encode(c);
    let ls = spec_lines(s);
    lemma_lines_of_encode(c);
    lemma_field_line_value("recording_enabled"@, spec_bool_str(c.recording_enabled));
    lemma_field_line_value("screen"@, c.screen@);
    lemma_field_line_value("container"@, c.container.spec_token());
    lemma_field_line_value("codec"@, c.codec.spec_token());
    lemma_field_line_value("framerate"@, spec_dec_digits(c.framerate as nat));
    lemma_field_line_value("clear_buffer_on_save"@, spec_bool_str(c.clear_buffer_on_save));
    lemma_field_line_value("quality"@, c.quality.spec_token());
    lemma_field_line_value("replay_directory"@, c.replay_directory@);
    lemma_field_line_value(
        "replay_duration_secs"@,
        spec_dec_digits(c.replay_duration_secs as nat),
    );
    lemma_field_line_value("file_name_pattern"@, c.file_name_pattern@);
    lemma_field_line_value("audio_tracks"@, spec_dec_digits(c.audio_tracks@.len() as nat));
    lemma_bool_round_trip(c.recording_enabled);
    lemma_bool_round_trip(c.clear_buffer_on_save);
    lemma_container_token_round_trip(c.container);
    lemma_codec_token_round_trip(c.codec);
    lemma_quality_token_round_trip(c.quality);
    crate::text::lemma_parse_of_dec(c.framerate as nat);
    crate::text::lemma_parse_of_dec(c.replay_duration_secs as nat);
    crate::text::lemma_parse_of_dec(c.audio_tracks@.len() as nat);
    assert forall|k: int| 0 <= k < ls.len() - 12 implies #[trigger] spec_field_value(
        ls[11 + k],
        "track"@,
    ) is Some by {
        lemma_field_line_value("track"@, c.audio_tracks.deep_view()[k]);
    }
    assert(spec_decodable(s));
    assert forall|k: int| 0 <= k < ls.len() - 12 implies #[trigger] spec_track_matches(
        c.audio_tracks@,
        ls,
        k,
    ) by {
        lemma_field_line_value("track"@, c.audio_tracks.deep_view()[k]);
        assert(c.audio_tracks.deep_view()[k] == c.audio_tracks@[k]@);
    }
    assert(spec_config_matches(c, s));
}

/// Two configurations that the same persisted text denotes agree field for
/// field.
pub proof fn lemma_matches_unique(c: Config, d: Config, s: Seq<char>)
    requires
        spec_config_matches(c, s),
        spec_config_matches(d, s),
    ensures
        d.recording_enabled == c.recording_enabled,
        d.screen@ == c.screen@,
        d.container == c.container,
        d.codec == c.codec,
        d.framerate == c.framerate,
        d.clear_buffer_on_save == c.clear_buffer_on_save,
        d.quality == c.quality,
        d.replay_directory@ == c.replay_directory@,
        d.replay_duration_secs == c.replay_duration_secs,
        d.file_name_pattern@ == c.file_name_pattern@,
        d.audio_tracks@.len() == c.audio_tracks@.len(),
        forall|k: int|
            0 <= k < c.audio_tracks@.len() ==> (#[trigger] d.audio_tracks@[k])@
                == c.audio_tracks@[k]@,
{
    let ls = spec_lines(s);
    assert forall|k: int| 0 <= k < c.audio_tracks@.len() implies (#[trigger] d.audio_tracks@[k])@
        == c.audio_tracks@[k]@ by {
        assert(spec_track_matches(c.audio_tracks@, ls, k));
        assert(spec_track_matches(d.audio_tracks@, ls, k));
    }
}

/// The persistence round trip: a valid configuration written by `encode`
/// and read back by `decode` yields field-for-field equal values — for
/// every variant of container, codec and quality, every flag, and all
/// numeric and text fields.
pub proof fn lemma_config_round_trip(c: Config, d: Config)
    requires
        c.valid(),
        c.audio_tracks@.len() < 10000000000000000000,
        spec_config_matches(d, spec_encode(c)),
    ensures
        d.recording_enabled == c.recording_enabled,
        d.screen@ == c.screen@,
        d.container == c.container,
        d.codec == c.codec,
        d.framerate == c.framerate,
        d.clear_buffer_on_save == c.clear_buffer_on_save,
        d.quality == c.quality,
        d.replay_directory@ == c.replay_directory@,
        d.replay_duration_secs == c.replay_duration_secs,
        d.file_name_pattern@ == c.file_name_pattern@,
        d.audio_tracks@.len() == c.audio_tracks@.len(),
        forall|k: int|
            0 <= k < c.audio_tracks@.len() ==> (#[trigger] d.audio_tracks@[k])@
                == c.audio_tracks@[k]@,
{
    lemma_encode_round_trip(c);
    lemma_matches_unique(c, d, spec_encode(c));
}

} // verus!
