//! The settings model behind the settings panel: a flat mirror of the
//! configuration with index-based enum selections for the GUI, the editable
//! audio-track rows, and the parsing of the recorder binary's source lists.

use vstd::prelude::*;

use crate::config::{Codec, Config, Container, Quality};
use crate::text::{
    chars_eq, chars_to_string, spec_matches_at, spec_split, split_chars, string_to_chars,
    matches_at,
};
use vstd::pervasive::VecAdditionalExecFns;

verus! {

/// The position of a quality tier in the selection list.
pub open spec fn spec_quality_index(q: Quality) -> int {
    match q {
        Quality::Medium => 0,
        Quality::High => 1,
        Quality::VeryHigh => 2,
        Quality::Ultra => 3,
    }
}

/// The quality tier at a selection position.
pub open spec fn spec_quality_of_index(i: int) -> Quality {
    if i == 0 {
        Quality::Medium
    } else if i == 1 {
        Quality::High
    } else if i == 2 {
        Quality::VeryHigh
    } else {
        Quality::Ultra
    }
}

/// The position of a container format in the selection list.
pub open spec fn spec_container_index(c: Container) -> int {
    match c {
        Container::MKV => 0,
        Container::MP4 => 1,
        Container::FLV => 2,
        Container::WEBM => 3,
    }
}

/// The container format at a selection position.
pub open spec fn spec_container_of_index(i: int) -> Container {
    if i == 0 {
        Container::MKV
    } else if i == 1 {
        Container::MP4
    } else if i == 2 {
        Container::FLV
    } else {
        Container::WEBM
    }
}

/// The position of a codec in the selection list.
pub open spec fn spec_codec_index(c: Codec) -> int {
    match c {
        Codec::H264 => 0,
        Codec::HEVC => 1,
        Codec::HEVCHDR => 2,
        Codec::HEVC10Bit => 3,
        Codec::AV1 => 4,
        Codec::AV1HDR => 5,
        Codec::AV110Bit => 6,
        Codec::VP8 => 7,
        Codec::VP9 => 8,
    }
}

/// The codec at a selection position.
pub open spec fn spec_codec_of_index(i: int) -> Codec {
    if i == 0 {
        Codec::H264
    } else if i == 1 {
        Codec::HEVC
    } else if i == 2 {
        Codec::HEVCHDR
    } else if i == 3 {
        Codec::HEVC10Bit
    } else if i == 4 {
        Codec::AV1
    } else if i == 5 {
        Codec::AV1HDR
    } else if i == 6 {
        Codec::AV110Bit
    } else if i == 7 {
        Codec::VP8
    } else {
        Codec::VP9
    }
}

/// The quality tier at a selection position.
pub fn quality_of_index(i: usize) -> (r: Quality)
    ensures
        r == spec_quality_of_index(i as int),
{
    match i {
        0 => Quality::Medium,
        1 => Quality::High,
        2 => Quality::VeryHigh,
        _ => Quality::Ultra,
    }
}

/// The container format at a selection position.
pub fn container_of_index(i: usize) -> (r: Container)
    ensures
        r == spec_container_of_index(i as int),
{
    match i {
        0 => Container::MKV,
        1 => Container::MP4,
        2 => Container::FLV,
        _ => Container::WEBM,
    }
}

/// The codec at a selection position.
pub fn codec_of_index(i: usize) -> (r: Codec)
    ensures
        r == spec_codec_of_index(i as int),
{
    match i {
        0 => Codec::H264,
        1 => Codec::HEVC,
        2 => Codec::HEVCHDR,
        3 => Codec::HEVC10Bit,
        4 => Codec::AV1,
        5 => Codec::AV1HDR,
        6 => Codec::AV110Bit,
        7 => Codec::VP8,
        _ => Codec::VP9,
    }
}

/// The parts joined with a separator between them.
pub open spec fn spec_join(parts: Seq<Seq<char>>, sep: char) -> Seq<char>
    decreases parts.len(),
{
    if parts.len() == 0 {
        Seq::empty()
    } else if parts.len() == 1 {
        parts[0]
    } else {
        parts[0] + seq![sep] + spec_join(parts.skip(1), sep)
    }
}

/// Extending a join by one more part appends a separator and the part.
proof fn lemma_join_snoc(parts: Seq<Seq<char>>, k: int, sep: char)
    requires
        1 <= k < parts.len(),
    ensures
        spec_join(parts.take(k + 1), sep) == spec_join(parts.take(k), sep) + seq![sep] + parts[k],
    decreases k,
{
    if k == 1 {
        let t = parts.take(2);
        assert(t[0] == parts[0] && t[1] == parts[1]);
        assert(t.skip(1) =~= seq![parts[1]]);
        assert(spec_join(t, sep) == t[0] + seq![sep] + spec_join(t.skip(1), sep));
        assert(parts.take(1) =~= seq![parts[0]]);
    } else {
        let rest = parts.skip(1);
        lemma_join_snoc(rest, k - 1, sep);
        let a = parts.take(k + 1);
        let b = parts.take(k);
        assert(a[0] == parts[0]);
        assert(a.skip(1) =~= rest.take(k));
        assert(b[0] == parts[0]);
        assert(b.skip(1) =~= rest.take(k - 1));
        assert(spec_join(a, sep) == parts[0] + seq![sep] + spec_join(rest.take(k), sep));
        assert(spec_join(b, sep) == parts[0] + seq![sep] + spec_join(rest.take(k - 1), sep));
        assert(rest[k - 1] == parts[k]);
        assert(spec_join(rest.take(k), sep) == spec_join(rest.take(k - 1), sep) + seq![sep]
            + rest[k - 1]);
        assert((parts[0] + seq![sep] + (spec_join(rest.take(k - 1), sep) + seq![sep] + rest[k
            - 1])) =~= (parts[0] + seq![sep] + spec_join(rest.take(k - 1), sep)) + seq![sep]
            + rest[k - 1]);
    }
}

/// Joins strings with a separator character between them.
pub fn join_strings(parts: &Vec<String>, sep: char) -> (r: String)
    ensures
        r@ == spec_join(parts.deep_view(), sep),
{
    let ghost dv = parts.deep_view();
    let mut out: Vec<char> = Vec::new();
    if parts.len() == 0 {
        proof {
            assert(out@ =~= spec_join(dv, sep));
        }
        return chars_to_string(&out);
    }
    let first = string_to_chars(parts[0].as_str());
    let mut i: usize = 0;
    while i < first.len()
        invariant
            0 <= i <= first@.len(),
            out@ =~= first@.take(i as int),
        decreases first.len() - i,
    {
        out.push(first[i]);
        i += 1;
    }
    proof {
        assert(out@ =~= dv[0]);
        assert(dv.take(1) =~= seq![dv[0]]);
        assert(spec_join(dv.take(1), sep) == dv[0]);
    }
    let mut k: usize = 1;
    while k < parts.len()
        invariant
            1 <= k <= parts@.len(),
            parts@.len() >= 1,
            dv == parts.deep_view(),
            dv.len() == parts@.len(),
            out@ == spec_join(dv.take(k as int), sep),
        decreases parts.len() - k,
    {
        out.push(sep);
        let ghost mid = out@;
        let part = string_to_chars(parts[k].as_str());
        let mut j: usize = 0;
        while j < part.len()
            invariant
                0 <= j <= part@.len(),
                out@ =~= mid + part@.take(j as int),
            decreases part.len() - j,
        {
            out.push(part[j]);
            j += 1;
        }
        proof {
            assert(part@ == dv[k as int]);
            lemma_join_snoc(dv, k as int, sep);
            assert(out@ =~= (spec_join(dv.take(k as int), sep) + seq![sep]) + dv[k as int]);
            assert(spec_join(dv.take(k + 1), sep) == spec_join(dv.take(k as int), sep) + seq![sep]
                + dv[k as int]);
        }
        k += 1;
    }
    proof {
        assert(dv.take(k as int) =~= dv);
    }
    chars_to_string(&out)
}

/// Splits a string on a separator character.
pub fn split_string(s: &String, sep: char) -> (r: Vec<String>)
    ensures
        r.deep_view() == spec_split(s@, sep),
{
    let chars = string_to_chars(s.as_str());
    let parts = split_chars(&chars, sep);
    let mut out: Vec<String> = Vec::new();
    let mut i: usize = 0;
    while i < parts.len()
        invariant
            0 <= i <= parts@.len(),
            parts.deep_view() == spec_split(s@, sep),
            parts.deep_view().len() == parts@.len(),
            out@.len() == i,
            forall|j: int| 0 <= j < i ==> (#[trigger] out@[j])@ == parts.deep_view()[j],
        decreases parts.len() - i,
    {
        out.push(chars_to_string(&parts[i]));
        proof {
            assert(parts.deep_view()[i as int] == parts@[i as int]@);
        }
        i += 1;
    }
    proof {
        assert(out.deep_view() =~~= spec_split(s@, sep));
    }
    out
}

/// Whether `needle` occurs anywhere in `hay`.
pub open spec fn spec_contains(hay: Seq<char>, needle: Seq<char>) -> bool {
    exists|i: int| spec_matches_at(hay, i, needle)
}

/// Tests whether `needle` occurs anywhere in `hay`.
pub fn contains_sub(hay: &Vec<char>, needle: &Vec<char>) -> (r: bool)
    ensures
        r == spec_contains(hay@, needle@),
{
    if needle.len() == 0 {
        proof {
            assert(hay@.subrange(0, 0) =~= needle@);
            assert(spec_matches_at(hay@, 0, needle@));
        }
        return true;
    }
    let mut i: usize = 0;
    while i < hay.len()
        invariant
            0 <= i <= hay@.len(),
            needle@.len() >= 1,
            forall|j: int| 0 <= j < i ==> !spec_matches_at(hay@, j, needle@),
        decreases hay.len() - i,
    {
        if matches_at(hay, i, needle) {
            proof {
                assert(spec_matches_at(hay@, i as int, needle@));
            }
            return true;
        }
        i += 1;
    }
    proof {
        assert forall|j: int| !spec_matches_at(hay@, j, needle@) by {
            if 0 <= j < hay@.len() {
            } else {
            }
        }
    }
    false
}

/// The non-empty lines: the audio-application list as the recorder binary
/// prints it, one source per line.
pub open spec fn spec_application_lines(ls: Seq<Seq<char>>) -> Seq<Seq<char>>
    decreases ls.len(),
{
    if ls.len() == 0 {
        ls
    } else {
        (if ls[0].len() > 0 {
            seq![ls[0]]
        } else {
            Seq::empty()
        }) + spec_application_lines(ls.skip(1))
    }
}

/// The non-empty lines naming neither default device: those have selections
/// of their own in the panel.
pub open spec fn spec_device_lines(ls: Seq<Seq<char>>) -> Seq<Seq<char>>
    decreases ls.len(),
{
    if ls.len() == 0 {
        ls
    } else {
        (if ls[0].len() > 0 && !spec_contains(ls[0], "default_output"@) && !spec_contains(
            ls[0],
            "default_input"@,
        ) {
            seq![ls[0]]
        } else {
            Seq::empty()
        }) + spec_device_lines(ls.skip(1))
    }
}

/// The non-empty lines that are not the region option, which the panel does
/// not offer.
pub open spec fn spec_source_lines(ls: Seq<Seq<char>>) -> Seq<Seq<char>>
    decreases ls.len(),
{
    if ls.len() == 0 {
        ls
    } else {
        (if ls[0].len() > 0 && ls[0] != "region"@ {
            seq![ls[0]]
        } else {
            Seq::empty()
        }) + spec_source_lines(ls.skip(1))
    }
}

/// The audio applications offered, from the recorder binary's list output.
pub fn applications_list(text: &String) -> (r: Vec<String>)
    ensures
        r.deep_view() == spec_application_lines(spec_split(text@, '\n')),
{
    let chars = string_to_chars(text.as_str());
    let lines = split_chars(&chars, '\n');
    let ghost ls = spec_split(text@, '\n');
    let mut out: Vec<String> = Vec::new();
    let mut i: usize = 0;
    proof {
        assert(ls.skip(0) =~= ls);
        assert(out.deep_view() + spec_application_lines(ls) =~= spec_application_lines(ls));
    }
    while i < lines.len()
        invariant
            0 <= i <= lines@.len(),
            ls == spec_split(text@, '\n'),
            lines.deep_view() == ls,
            lines@.len() == ls.len(),
            spec_application_lines(ls) == out.deep_view() + spec_application_lines(
                ls.skip(i as int),
            ),
        decreases lines.len() - i,
    {
        let ghost prev = out.deep_view();
        proof {
            assert(lines@[i as int]@ == ls[i as int]);
            assert(ls.skip(i as int)[0] == ls[i as int]);
            assert(ls.skip(i as int).skip(1) =~= ls.skip(i + 1));
        }
        if lines[i].len() > 0 {
            out.push(chars_to_string(&lines[i]));
            proof {
                assert(out.deep_view() =~~= prev + seq![ls[i as int]]);
                assert(prev + (seq![ls[i as int]] + spec_application_lines(ls.skip(i + 1))) =~= (
                prev + seq![ls[i as int]]) + spec_application_lines(ls.skip(i + 1)));
            }
        } else {
            proof {
                assert(ls[i as int].len() == 0);
                assert(Seq::<Seq<char>>::empty() + spec_application_lines(ls.skip(i + 1))
                    =~= spec_application_lines(ls.skip(i + 1)));
            }
        }
        i += 1;
    }
    proof {
        assert(ls.skip(i as int) =~= Seq::<Seq<char>>::empty());
        assert(out.deep_view() + Seq::<Seq<char>>::empty() =~= out.deep_view());
    }
    out
}

/// The audio devices offered, from the recorder binary's list output: the
/// default output and input devices have radio buttons of their own and are
/// left out.
pub fn devices_list(text: &String) -> (r: Vec<String>)
    ensures
        r.deep_view() == spec_device_lines(spec_split(text@, '\n')),
{
    let chars = string_to_chars(text.as_str());
    let lines = split_chars(&chars, '\n');
    let ghost ls = spec_split(text@, '\n');
    let needle_out = string_to_chars("default_output");
    let needle_in = string_to_chars("default_input");
    let mut out: Vec<String> = Vec::new();
    let mut i: usize = 0;
    proof {
        assert(ls.skip(0) =~= ls);
        assert(out.deep_view() + spec_device_lines(ls) =~= spec_device_lines(ls));
    }
    while i < lines.len()
        invariant
            0 <= i <= lines@.len(),
            ls == spec_split(text@, '\n'),
            lines.deep_view() == ls,
            lines@.len() == ls.len(),
            needle_out@ == "default_output"@,
            needle_in@ == "default_input"@,
            spec_device_lines(ls) == out.deep_view() + spec_device_lines(ls.skip(i as int)),
        decreases lines.len() - i,
    {
        let ghost prev = out.deep_view();
        proof {
            assert(lines@[i as int]@ == ls[i as int]);
            assert(ls.skip(i as int)[0] == ls[i as int]);
            assert(ls.skip(i as int).skip(1) =~= ls.skip(i + 1));
        }
        let keep = lines[i].len() > 0 && !contains_sub(&lines[i], &needle_out) && !contains_sub(
            &lines[i],
            &needle_in,
        );
        if keep {
            out.push(chars_to_string(&lines[i]));
            proof {
                assert(out.deep_view() =~~= prev + seq![ls[i as int]]);
                assert(prev + (seq![ls[i as int]] + spec_device_lines(ls.skip(i + 1))) =~= (prev
                    + seq![ls[i as int]]) + spec_device_lines(ls.skip(i + 1)));
            }
        } else {
            proof {
                assert(Seq::<Seq<char>>::empty() + spec_device_lines(ls.skip(i + 1))
                    =~= spec_device_lines(ls.skip(i + 1)));
            }
        }
        i += 1;
    }
    proof {
        assert(ls.skip(i as int) =~= Seq::<Seq<char>>::empty());
        assert(out.deep_view() + Seq::<Seq<char>>::empty() =~= out.deep_view());
    }
    out
}

/// The video sources offered, from the recorder binary's list output: the
/// region option is left out, as the panel does not support it.
pub fn sources_list(text: &String) -> (r: Vec<String>)
    ensures
        r.deep_view() == spec_source_lines(spec_split(text@, '\n')),
{
    let chars = string_to_chars(text.as_str());
    let lines = split_chars(&chars, '\n');
    let ghost ls = spec_split(text@, '\n');
    let region = string_to_chars("region");
    let mut out: Vec<String> = Vec::new();
    let mut i: usize = 0;
    proof {
        assert(ls.skip(0) =~= ls);
        assert(out.deep_view() + spec_source_lines(ls) =~= spec_source_lines(ls));
    }
    while i < lines.len()
        invariant
            0 <= i <= lines@.len(),
            ls == spec_split(text@, '\n'),
            lines.deep_view() == ls,
            lines@.len() == ls.len(),
            region@ == "region"@,
            spec_source_lines(ls) == out.deep_view() + spec_source_lines(ls.skip(i as int)),
        decreases lines.len() - i,
    {
        let ghost prev = out.deep_view();
        proof {
            assert(lines@[i as int]@ == ls[i as int]);
            assert(ls.skip(i as int)[0] == ls[i as int]);
            assert(ls.skip(i as int).skip(1) =~= ls.skip(i + 1));
        }
        let keep = lines[i].len() > 0 && !chars_eq(&lines[i], &region);
        if keep {
            out.push(chars_to_string(&lines[i]));
            proof {
                assert(out.deep_view() =~~= prev + seq![ls[i as int]]);
                assert(prev + (seq![ls[i as int]] + spec_source_lines(ls.skip(i + 1))) =~= (prev
                    + seq![ls[i as int]]) + spec_source_lines(ls.skip(i + 1)));
            }
        } else {
            proof {
                assert(Seq::<Seq<char>>::empty() + spec_source_lines(ls.skip(i + 1))
                    =~= spec_source_lines(ls.skip(i + 1)));
            }
        }
        i += 1;
    }
    proof {
        assert(ls.skip(i as int) =~= Seq::<Seq<char>>::empty());
        assert(out.deep_view() + Seq::<Seq<char>>::empty() =~= out.deep_view());
    }
    out
}

/// The settings panel's model: the configuration flattened for data binding
/// (enum selections as indexes), the selectable sources, and the editable
/// audio-track rows.
pub struct Settings {
    pub framerate: u32,
    pub duration: u32,
    pub quality: usize,
    pub container: usize,
    pub codec: usize,
    pub directory: String,
    pub clear_buffer: bool,
    pub record_replays: bool,
    pub file_name_pattern: String,
    pub video_source_choice: String,
    pub audio_applications: Vec<String>,
    pub audio_devices: Vec<String>,
    pub video_sources: Vec<String>,
    pub audio_tracks_inner: Vec<Vec<String>>,
}

/// Whether two models agree on everything but the audio-track rows.
pub open spec fn spec_same_but_tracks(a: Settings, b: Settings) -> bool {
    &&& a.framerate == b.framerate
    &&& a.duration == b.duration
    &&& a.quality == b.quality
    &&& a.container == b.container
    &&& a.codec == b.codec
    &&& a.directory == b.directory
    &&& a.clear_buffer == b.clear_buffer
    &&& a.record_replays == b.record_replays
    &&& a.file_name_pattern == b.file_name_pattern
    &&& a.video_source_choice == b.video_source_choice
    &&& a.audio_applications == b.audio_applications
    &&& a.audio_devices == b.audio_devices
    &&& a.video_sources == b.video_sources
}

impl Settings {
    /// The audio-track rows: each row the ordered sources of one track.
    pub open spec fn spec_tracks(&self) -> Seq<Seq<Seq<char>>> {
        self.audio_tracks_inner.deep_view()
    }

    /// A model mirroring a configuration, with the selectable sources the
    /// caller obtained from the recorder binary. Each persisted track splits
    /// on `|` into its row of sources.
    pub fn new(
        config: &Config,
        audio_applications: Vec<String>,
        audio_devices: Vec<String>,
        video_sources: Vec<String>,
    ) -> (r: Settings)
        ensures
            r.framerate == config.framerate,
            r.duration == #[verifier::truncate] (config.replay_duration_secs as u32),
            r.quality == spec_quality_index(config.quality),
            r.container == spec_container_index(config.container),
            r.codec == spec_codec_index(config.codec),
            r.directory@ == config.replay_directory@,
            r.clear_buffer == config.clear_buffer_on_save,
            r.record_replays == config.recording_enabled,
            r.file_name_pattern@ == config.file_name_pattern@,
            r.video_source_choice@ == config.screen@,
            r.audio_applications == audio_applications,
            r.audio_devices == audio_devices,
            r.video_sources == video_sources,
            r.spec_tracks().len() == config.audio_tracks@.len(),
            forall|k: int|
                0 <= k < config.audio_tracks@.len() ==> #[trigger] r.spec_tracks()[k]
                    == spec_split(config.audio_tracks@[k]@, '|'),
    {
        let quality: usize = match config.quality {
            Quality::Medium => 0,
            Quality::High => 1,
            Quality::VeryHigh => 2,
            Quality::Ultra => 3,
        };
        let container: usize = match config.container {
            Container::MKV => 0,
            Container::MP4 => 1,
            Container::FLV => 2,
            Container::WEBM => 3,
        };
        let codec: usize = match config.codec {
            Codec::H264 => 0,
            Codec::HEVC => 1,
            Codec::HEVCHDR => 2,
            Codec::HEVC10Bit => 3,
            Codec::AV1 => 4,
            Codec::AV1HDR => 5,
            Codec::AV110Bit => 6,
            Codec::VP8 => 7,
            Codec::VP9 => 8,
        };
        let mut audio_tracks_inner: Vec<Vec<String>> = Vec::new();
        let mut k: usize = 0;
        while k < config.audio_tracks.len()
            invariant
                0 <= k <= config.audio_tracks@.len(),
                audio_tracks_inner@.len() == k,
                forall|j: int|
                    0 <= j < k ==> #[trigger] audio_tracks_inner.deep_view()[j] == spec_split(
                        config.audio_tracks@[j]@,
                        '|',
                    ),
            decreases config.audio_tracks.len() - k,
        {
            let ghost prev_dv = audio_tracks_inner.deep_view();
            let ghost prev_view = audio_tracks_inner@;
            let row = split_string(&config.audio_tracks[k], '|');
            audio_tracks_inner.push(row);
            proof {
                assert forall|j: int| 0 <= j < k + 1 implies #[trigger] audio_tracks_inner
                    .deep_view()[j] == spec_split(config.audio_tracks@[j]@, '|') by {
                    assert(audio_tracks_inner.deep_view()[j] == audio_tracks_inner@[j]
                        .deep_view());
                    if j < k {
                        assert(audio_tracks_inner@[j] == prev_view[j]);
                        assert(prev_dv[j] == prev_view[j].deep_view());
                        assert(prev_dv[j] == spec_split(config.audio_tracks@[j]@, '|'));
                    } else {
                        assert(audio_tracks_inner@[j] == row);
                    }
                }
            }
            k += 1;
        }
        Settings {
            framerate: config.framerate,
            duration: #[verifier::truncate] (config.replay_duration_secs as u32),
            quality,
            container,
            codec,
            directory: config.replay_directory.clone(),
            clear_buffer: config.clear_buffer_on_save,
            record_replays: config.recording_enabled,
            file_name_pattern: config.file_name_pattern.clone(),
            video_source_choice: config.screen.clone(),
            audio_applications,
            audio_devices,
            video_sources,
            audio_tracks_inner,
        }
    }

    /// A copy of the audio-track rows, for display.
    pub fn get_audio_tracks(&self) -> (r: Vec<Vec<String>>)
        ensures
            r.deep_view() == self.spec_tracks(),
    {
        let mut out: Vec<Vec<String>> = Vec::new();
        let mut k: usize = 0;
        while k < self.audio_tracks_inner.len()
            invariant
                0 <= k <= self.audio_tracks_inner@.len(),
                out@.len() == k,
                forall|j: int|
                    0 <= j < k ==> #[trigger] out.deep_view()[j] == self.audio_tracks_inner
                        .deep_view()[j],
            decreases self.audio_tracks_inner.len() - k,
        {
            let mut row: Vec<String> = Vec::new();
            let mut j: usize = 0;
            while j < self.audio_tracks_inner[k].len()
                invariant
                    0 <= k < self.audio_tracks_inner@.len(),
                    0 <= j <= self.audio_tracks_inner@[k as int]@.len(),
                    row@.len() == j,
                    forall|m: int|
                        0 <= m < j ==> (#[trigger] row@[m])@ == self.audio_tracks_inner@[
                            k as int]@[m]@,
                decreases self.audio_tracks_inner@[k as int]@.len() - j,
            {
                row.push(self.audio_tracks_inner[k][j].clone());
                j += 1;
            }
            let ghost prev_dv = out.deep_view();
            let ghost prev_view = out@;
            out.push(row);
            proof {
                assert(row.deep_view() =~~= self.audio_tracks_inner@[k as int].deep_view());
                assert forall|j2: int| 0 <= j2 < k + 1 implies #[trigger] out.deep_view()[j2]
                    == self.audio_tracks_inner.deep_view()[j2] by {
                    assert(out.deep_view()[j2] == out@[j2].deep_view());
                    assert(self.audio_tracks_inner.deep_view()[j2] == self.audio_tracks_inner@[
                        j2].deep_view());
                    if j2 < k {
                        assert(out@[j2] == prev_view[j2]);
                        assert(prev_dv[j2] == prev_view[j2].deep_view());
                        assert(prev_dv[j2] == self.audio_tracks_inner.deep_view()[j2]);
                    } else {
                        assert(out@[j2] == row);
                    }
                }
            }
            k += 1;
        }
        proof {
            assert(out.deep_view() =~~= self.spec_tracks());
        }
        out
    }

    /// Removes one source from one track row.
    pub fn remove_audio_source(&mut self, track: usize, source: usize)
        requires
            track < old(self).spec_tracks().len(),
            source < old(self).spec_tracks()[track as int].len(),
        ensures
            spec_same_but_tracks(*final(self), *old(self)),
            final(self).spec_tracks() == old(self).spec_tracks().update(
                track as int,
                old(self).spec_tracks()[track as int].remove(source as int),
            ),
    {
        proof {
            assert(old(self).spec_tracks()[track as int] == old(self).audio_tracks_inner@[
                track as int].deep_view());
        }
        let row = &mut self.audio_tracks_inner[track];
        row.remove(source);
        proof {
            assert(final(self).spec_tracks() =~~= old(self).spec_tracks().update(
                track as int,
                old(self).spec_tracks()[track as int].remove(source as int),
            ));
        }
    }

    /// Appends one source to one track row.
    pub fn add_audio_source(&mut self, track: usize, source: String)
        requires
            track < old(self).spec_tracks().len(),
        ensures
            spec_same_but_tracks(*final(self), *old(self)),
            final(self).spec_tracks() == old(self).spec_tracks().update(
                track as int,
                old(self).spec_tracks()[track as int].push(source@),
            ),
    {
        let ghost s = source@;
        let row = &mut self.audio_tracks_inner[track];
        row.push(source);
        proof {
            assert(final(self).spec_tracks() =~~= old(self).spec_tracks().update(
                track as int,
                old(self).spec_tracks()[track as int].push(s),
            ));
        }
    }

    /// Removes one track row.
    pub fn remove_audio_track(&mut self, track: usize)
        requires
            track < old(self).spec_tracks().len(),
        ensures
            spec_same_but_tracks(*final(self), *old(self)),
            final(self).spec_tracks() == old(self).spec_tracks().remove(track as int),
    {
        self.audio_tracks_inner.remove(track);
        proof {
            assert(final(self).spec_tracks() =~~= old(self).spec_tracks().remove(track as int));
        }
    }

    /// Appends an empty track row.
    pub fn add_audio_track(&mut self)
        ensures
            spec_same_but_tracks(*final(self), *old(self)),
            final(self).spec_tracks() == old(self).spec_tracks().push(Seq::empty()),
    {
        let row: Vec<String> = Vec::new();
        self.audio_tracks_inner.push(row);
        proof {
            assert(final(self).spec_tracks() =~~= old(self).spec_tracks().push(Seq::empty()));
        }
    }

    /// Moves one track row: onto another position the two swap; past the end
    /// the row moves to the end.
    pub fn move_audio_track(&mut self, track_index: usize, target_index: usize)
        requires
            track_index < old(self).spec_tracks().len(),
        ensures
            spec_same_but_tracks(*final(self), *old(self)),
            target_index >= old(self).spec_tracks().len() ==> final(self).spec_tracks() == old(
                self,
            ).spec_tracks().remove(track_index as int).push(
                old(self).spec_tracks()[track_index as int],
            ),
            target_index < old(self).spec_tracks().len() ==> final(self).spec_tracks() == old(
                self,
            ).spec_tracks().update(
                track_index as int,
                old(self).spec_tracks()[target_index as int],
            ).update(target_index as int, old(self).spec_tracks()[track_index as int]),
    {
        if target_index >= self.audio_tracks_inner.len() {
            let row = self.audio_tracks_inner.remove(track_index);
            self.audio_tracks_inner.push(row);
            proof {
                assert(final(self).spec_tracks() =~~= old(self).spec_tracks().remove(
                    track_index as int,
                ).push(old(self).spec_tracks()[track_index as int]));
            }
        } else {
            let row_a = clone_string_vec(&self.audio_tracks_inner[track_index]);
            let row_b = clone_string_vec(&self.audio_tracks_inner[target_index]);
            self.audio_tracks_inner.set(track_index, row_b);
            self.audio_tracks_inner.set(target_index, row_a);
            proof {
                assert(final(self).spec_tracks() =~~= old(self).spec_tracks().update(
                    track_index as int,
                    old(self).spec_tracks()[target_index as int],
                ).update(target_index as int, old(self).spec_tracks()[track_index as int]));
            }
        }
    }

    /// Writes the model back into the configuration: every panel field
    /// replaces its configuration field, the track rows joined with `|`.
    /// Returns whether the recording toggle changed, in which case the
    /// caller sends the toggle event.
    pub fn apply_config(&self, config: &mut Config) -> (toggled: bool)
        requires
            self.quality < 4,
            self.container < 4,
            self.codec < 9,
        ensures
            final(config).framerate == self.framerate,
            final(config).clear_buffer_on_save == self.clear_buffer,
            final(config).replay_directory@ == self.directory@,
            final(config).replay_duration_secs == self.duration as i64,
            final(config).recording_enabled == self.record_replays,
            final(config).codec == spec_codec_of_index(self.codec as int),
            final(config).container == spec_container_of_index(self.container as int),
            final(config).quality == spec_quality_of_index(self.quality as int),
            final(config).audio_tracks@.len() == self.spec_tracks().len(),
            forall|k: int|
                0 <= k < self.spec_tracks().len() ==> (#[trigger] final(config).audio_tracks@[k])@
                    == spec_join(self.spec_tracks()[k], '|'),
            final(config).file_name_pattern@ == self.file_name_pattern@,
            final(config).screen@ == self.video_source_choice@,
            toggled == (old(config).recording_enabled != self.record_replays),
    {
        let toggled = config.recording_enabled != self.record_replays;
        config.framerate = self.framerate;
        config.clear_buffer_on_save = self.clear_buffer;
        config.replay_directory = self.directory.clone();
        config.replay_duration_secs = self.duration as i64;
        config.recording_enabled = self.record_replays;
        config.codec = codec_of_index(self.codec);
        config.container = container_of_index(self.container);
        config.quality = quality_of_index(self.quality);
        let mut joined: Vec<String> = Vec::new();
        let mut k: usize = 0;
        while k < self.audio_tracks_inner.len()
            invariant
                0 <= k <= self.audio_tracks_inner@.len(),
                joined@.len() == k,
                forall|j: int|
                    0 <= j < k ==> (#[trigger] joined@[j])@ == spec_join(
                        self.audio_tracks_inner.deep_view()[j],
                        '|',
                    ),
            decreases self.audio_tracks_inner.len() - k,
        {
            let line = join_strings(&self.audio_tracks_inner[k], '|');
            joined.push(line);
            proof {
                assert(self.audio_tracks_inner@[k as int].deep_view() == self.audio_tracks_inner
                    .deep_view()[k as int]);
            }
            k += 1;
        }
        config.audio_tracks = joined;
        config.file_name_pattern = self.file_name_pattern.clone();
        config.screen = self.video_source_choice.clone();
        toggled
    }
}

/// A copy of a vector of strings.
fn clone_string_vec(v: &Vec<String>) -> (r: Vec<String>)
    ensures
        r.deep_view() == v.deep_view(),
        r@.len() == v@.len(),
{
    let mut out: Vec<String> = Vec::new();
    let mut i: usize = 0;
    while i < v.len()
        invariant
            0 <= i <= v@.len(),
            out@.len() == i,
            forall|j: int| 0 <= j < i ==> (#[trigger] out@[j])@ == v@[j]@,
        decreases v.len() - i,
    {
        out.push(v[i].clone());
        i += 1;
    }
    proof {
        assert(out.deep_view() =~~= v.deep_view());
    }
    out
}

} // verus!
