//! The command lines of the external tools: FFmpeg to convert the audio to
//! WAV and to render the video, SoX to draw the spectrogram, FFprobe to read
//! the audio's duration.

use vstd::prelude::*;

verus! {

/// A program to start and the arguments to hand it.
#[derive(Clone, Debug, PartialEq, Eq)]
pub struct Command {
    pub program: String,
    pub args: Vec<String>,
}

pub struct CommandView {
    pub program: Seq<char>,
    pub args: Seq<Seq<char>>,
}

impl View for Command {
    type V = CommandView;

    open spec fn view(&self) -> CommandView {
        CommandView { program: self.program@, args: self.args.deep_view() }
    }
}

/// FFmpeg decodes the audio into a WAV file, overwriting it.
pub open spec fn conversion_command(audio: Seq<char>, wav: Seq<char>) -> CommandView {
    CommandView { program: "ffmpeg"@, args: seq!["-i"@, audio, "-y"@, wav] }
}

/// SoX mixes the WAV down to mono and draws a monochrome spectrogram of
/// 1920x1080 pixels without axes into the image.
pub open spec fn spectrogram_command(wav: Seq<char>, image: Seq<char>) -> CommandView {
    CommandView {
        program: "sox"@,
        args: seq![
            wav,
            "-n"@,
            "remix"@,
            "-"@,
            "spectrogram"@,
            "-m"@,
            "-x"@,
            "1920"@,
            "-Y"@,
            "1080"@,
            "-r"@,
            "-o"@,
            image,
        ],
    }
}

/// FFprobe prints the duration of the audio in seconds, alone on its line.
pub open spec fn probe_command(audio: Seq<char>) -> CommandView {
    CommandView {
        program: "ffprobe"@,
        args: seq![
            "-v"@,
            "error"@,
            "-show_entries"@,
            "format=duration"@,
            "-of"@,
            "default=noprint_wrappers=1:nokey=1"@,
            audio,
        ],
    }
}

/// The playhead: a bar of colour `color`, 3 pixels wide and 1080 high.
pub open spec fn needle_source(color: Seq<char>) -> Seq<char> {
    "color=c="@ + color + ":s=3x1080"@
}

/// Colours the spectrogram with `preset`, scales it to 1920x1080 and lays the
/// playhead over it at x = (1920 / duration) * t, so that it crosses the whole
/// width during the audio.
pub open spec fn overlay_filter(preset: Seq<char>, duration: Seq<char>) -> Seq<char> {
    "[1:v]pseudocolor=preset="@ + preset
        + ",scale=1920:1080[fundo_colorido];[fundo_colorido][2:v]overlay=x='(1920/"@ + duration
        + ")*t':y=0:shortest=1[video]"@
}

/// FFmpeg renders the video: the audio, copied as it is, under the looped
/// spectrogram image with the playhead laid over it, as H.264.
pub open spec fn render_command(
    audio: Seq<char>,
    image: Seq<char>,
    preset: Seq<char>,
    needle: Seq<char>,
    duration: Seq<char>,
    video: Seq<char>,
) -> CommandView {
    CommandView {
        program: "ffmpeg"@,
        args: seq![
            "-i"@,
            audio,
            "-loop"@,
            "1"@,
            "-framerate"@,
            "24"@,
            "-i"@,
            image,
            "-f"@,
            "lavfi"@,
            "-i"@,
            needle_source(needle),
            "-filter_complex"@,
            overlay_filter(preset, duration),
            "-map"@,
            "[video]"@,
            "-map"@,
            "0:a"@,
            "-c:v"@,
            "libx264"@,
            "-preset"@,
            "fast"@,
            "-pix_fmt"@,
            "yuv420p"@,
            "-c:a"@,
            "copy"@,
            "-shortest"@,
            "-y"@,
            video,
        ],
    }
}

/// The conversion reads the audio file and writes the WAV file at the paths
/// given, character for character.
pub proof fn lemma_conversion_uses_paths_as_given(audio: Seq<char>, wav: Seq<char>)
    ensures
        conversion_command(audio, wav).program == "ffmpeg"@,
        conversion_command(audio, wav).args.len() == 4,
        conversion_command(audio, wav).args[0] == "-i"@,
        conversion_command(audio, wav).args[1] == audio,
        conversion_command(audio, wav).args[3] == wav,
{
}

/// SoX reads the WAV file and writes the image at the paths given.
pub proof fn lemma_spectrogram_uses_paths_as_given(wav: Seq<char>, image: Seq<char>)
    ensures
        spectrogram_command(wav, image).program == "sox"@,
        spectrogram_command(wav, image).args[0] == wav,
        spectrogram_command(wav, image).args.last() == image,
{
}

/// FFprobe reads the audio file at the path given.
pub proof fn lemma_probe_uses_path_as_given(audio: Seq<char>)
    ensures
        probe_command(audio).program == "ffprobe"@,
        probe_command(audio).args.last() == audio,
{
}

/// The render reads the audio and the image, and writes the video, at the
/// paths given; the playhead has the colour given, and the filter holds the
/// preset and the duration given, each character for character.
pub proof fn lemma_render_uses_inputs_as_given(
    audio: Seq<char>,
    image: Seq<char>,
    preset: Seq<char>,
    needle: Seq<char>,
    duration: Seq<char>,
    video: Seq<char>,
)
    ensures
        ({
            let c = render_command(audio, image, preset, needle, duration, video);
            &&& c.program == "ffmpeg"@
            &&& c.args[0] == "-i"@
            &&& c.args[1] == audio
            &&& c.args[6] == "-i"@
            &&& c.args[7] == image
            &&& c.args[11].subrange(8, 8 + needle.len() as int) == needle
            &&& c.args[13].subrange(24, 24 + preset.len() as int) == preset
            &&& c.args[13].subrange(95 + preset.len() as int, 95 + preset.len() + duration.len() as int) == duration
            &&& c.args[c.args.len() - 2] == "-y"@
            &&& c.args.last() == video
        }),
{
    reveal_strlit("color=c=");
    reveal_strlit("[1:v]pseudocolor=preset=");
    reveal_strlit(",scale=1920:1080[fundo_colorido];[fundo_colorido][2:v]overlay=x='(1920/");
    let c = render_command(audio, image, preset, needle, duration, video);
    assert(c.args[11].subrange(8, 8 + needle.len() as int) =~= needle);
    assert(c.args[13].subrange(24, 24 + preset.len() as int) =~= preset);
    assert(c.args[13].subrange(95 + preset.len() as int, 95 + preset.len() + duration.len() as int) =~= duration);
}

fn text(s: &str) -> (r: String)
    ensures
        r@ == s@,
{
    s.to_owned()
}

pub fn conversion(audio: &str, wav: &str) -> (c: Command)
    ensures
        c@ == conversion_command(audio@, wav@),
{
    let mut args: Vec<String> = Vec::new();
    args.push(text("-i"));
    args.push(text(audio));
    args.push(text("-y"));
    args.push(text(wav));
    let c = Command { program: text("ffmpeg"), args };
    assert(c@.args =~= conversion_command(audio@, wav@).args);
    c
}

pub fn spectrogram(wav: &str, image: &str) -> (c: Command)
    ensures
        c@ == spectrogram_command(wav@, image@),
{
    let mut args: Vec<String> = Vec::new();
    args.push(text(wav));
    args.push(text("-n"));
    args.push(text("remix"));
    args.push(text("-"));
    args.push(text("spectrogram"));
    args.push(text("-m"));
    args.push(text("-x"));
    args.push(text("1920"));
    args.push(text("-Y"));
    args.push(text("1080"));
    args.push(text("-r"));
    args.push(text("-o"));
    args.push(text(image));
    let c = Command { program: text("sox"), args };
    assert(c@.args =~= spectrogram_command(wav@, image@).args);
    c
}

pub fn probe(audio: &str) -> (c: Command)
    ensures
        c@ == probe_command(audio@),
{
    let mut args: Vec<String> = Vec::new();
    args.push(text("-v"));
    args.push(text("error"));
    args.push(text("-show_entries"));
    args.push(text("format=duration"));
    args.push(text("-of"));
    args.push(text("default=noprint_wrappers=1:nokey=1"));
    args.push(text(audio));
    let c = Command { program: text("ffprobe"), args };
    assert(c@.args =~= probe_command(audio@).args);
    c
}

pub fn needle(color: &str) -> (r: String)
    ensures
        r@ == needle_source(color@),
{
    text("color=c=").concat(color).concat(":s=3x1080")
}

pub fn overlay(preset: &str, duration: &str) -> (r: String)
    ensures
        r@ == overlay_filter(preset@, duration@),
{
    text("[1:v]pseudocolor=preset=").concat(preset).concat(
        ",scale=1920:1080[fundo_colorido];[fundo_colorido][2:v]overlay=x='(1920/",
    ).concat(duration).concat(")*t':y=0:shortest=1[video]")
}

pub fn render(
    audio: &str,
    image: &str,
    preset: &str,
    needle_color: &str,
    duration: &str,
    video: &str,
) -> (c: Command)
    ensures
        c@ == render_command(audio@, image@, preset@, needle_color@, duration@, video@),
{
    let mut args: Vec<String> = Vec::new();
    args.push(text("-i"));
    args.push(text(audio));
    args.push(text("-loop"));
    args.push(text("1"));
    args.push(text("-framerate"));
    args.push(text("24"));
    args.push(text("-i"));
    args.push(text(image));
    args.push(text("-f"));
    args.push(text("lavfi"));
    args.push(text("-i"));
    args.push(needle(needle_color));
    args.push(text("-filter_complex"));
    args.push(overlay(preset, duration));
    args.push(text("-map"));
    args.push(text("[video]"));
    args.push(text("-map"));
    args.push(text("0:a"));
    args.push(text("-c:v"));
    args.push(text("libx264"));
    args.push(text("-preset"));
    args.push(text("fast"));
    args.push(text("-pix_fmt"));
    args.push(text("yuv420p"));
    args.push(text("-c:a"));
    args.push(text("copy"));
    args.push(text("-shortest"));
    args.push(text("-y"));
    args.push(text(video));
    let c = Command { program: text("ffmpeg"), args };
    assert(c@.args =~= render_command(audio@, image@, preset@, needle_color@, duration@, video@).args);
    c
}

} // verus!
