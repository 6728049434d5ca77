//! Rendering one audio file into a spectrogram video.
//!
//! The work is a sequence of outside steps (temporary files, external
//! programs, a look at the file system) with decisions between them. The
//! decisions stand here as a state machine: every state waits for the answer
//! to one action ([`pending`]); the caller performs that action, hands its
//! answer back as an [`Event`], and gets the next state and its action, until
//! the action is [`Action::Finish`] or [`Action::Abort`].
//!
//! The steps are those of a render: with `keep_img` the spectrogram is written
//! next to the audio (same name, `.png`), otherwise into a temporary `.png`;
//! the audio is converted to a temporary WAV file with FFmpeg; SoX draws the
//! spectrogram from that WAV; the WAV is deleted; if SoX failed, the render
//! fails; if the image exists, FFprobe reads the audio's duration; FFmpeg renders the video next to the audio
//! (same name, `.mp4`); a temporary image is deleted; the result says whether
//! the video was rendered.

use vstd::prelude::*;
use vstd::utf8::{decode_utf8, valid_utf8};
use crate::commands::{
    conversion, conversion_command, probe, probe_command, render, render_command, spectrogram,
    spectrogram_command, Command, CommandView,
};
use crate::number::{float_literal, is_float_literal};
use crate::paths::{with_extension, with_extension_of};
use crate::text::{trim_text, trimmed, utf8_text};

verus! {

/// What to render: the audio file, whether the spectrogram image is kept next
/// to it, the colour preset of the spectrogram and the colour of the playhead.
#[derive(Clone, Debug, PartialEq, Eq)]
pub struct RenderJob {
    pub audio_path: String,
    pub keep_img: bool,
    pub preset: String,
    pub needle_color: String,
}

pub struct RenderJobView {
    pub audio_path: Seq<char>,
    pub keep_img: bool,
    pub preset: Seq<char>,
    pub needle_color: Seq<char>,
}

impl View for RenderJob {
    type V = RenderJobView;

    open spec fn view(&self) -> RenderJobView {
        RenderJobView {
            audio_path: self.audio_path@,
            keep_img: self.keep_img,
            preset: self.preset@,
            needle_color: self.needle_color@,
        }
    }
}

/// A failure on which a render cannot go on at all.
#[derive(PartialEq, Eq, Structural, Clone, Copy, Debug)]
pub enum Failure {
    /// The temporary image file could not be created.
    ImageTempFile,
    /// The temporary WAV file could not be created.
    WavTempFile,
    /// SoX could not be started.
    SoxLaunch,
}

/// What the caller is asked to do next.
#[derive(Clone, Debug, PartialEq, Eq)]
pub enum Action {
    /// Create a temporary file whose name ends in `suffix`, and answer with
    /// its path ([`Event::TempFileCreated`]) or [`Event::TempFileFailed`].
    CreateTempFile { suffix: String },
    /// Run the command and answer with its exit status ([`Event::Exited`]) or
    /// [`Event::LaunchFailed`].
    Run { command: Command },
    /// Run the command and answer with what it wrote to its standard output
    /// ([`Event::Captured`]) or [`Event::LaunchFailed`].
    Capture { command: Command },
    /// Answer whether the path exists ([`Event::Exists`]).
    CheckExists { path: String },
    /// Delete a temporary file that an earlier action created, and answer
    /// [`Event::Deleted`].
    DeleteTempFile { path: String },
    /// Give the render up.
    Abort { failure: Failure },
    /// The render is over; `success` tells whether the video was rendered.
    Finish { success: bool },
}

pub enum ActionView {
    CreateTempFile { suffix: Seq<char> },
    Run { command: CommandView },
    Capture { command: CommandView },
    CheckExists { path: Seq<char> },
    DeleteTempFile { path: Seq<char> },
    Abort { failure: Failure },
    Finish { success: bool },
}

impl View for Action {
    type V = ActionView;

    open spec fn view(&self) -> ActionView {
        match self {
            Action::CreateTempFile { suffix } => ActionView::CreateTempFile { suffix: suffix@ },
            Action::Run { command } => ActionView::Run { command: command@ },
            Action::Capture { command } => ActionView::Capture { command: command@ },
            Action::CheckExists { path } => ActionView::CheckExists { path: path@ },
            Action::DeleteTempFile { path } => ActionView::DeleteTempFile { path: path@ },
            Action::Abort { failure } => ActionView::Abort { failure: *failure },
            Action::Finish { success } => ActionView::Finish { success: *success },
        }
    }
}

/// The answer to an action.
#[derive(Clone, Debug, PartialEq, Eq)]
pub enum Event {
    TempFileCreated { path: String },
    TempFileFailed,
    Exited { success: bool },
    LaunchFailed,
    Captured { stdout: Vec<u8> },
    Exists { found: bool },
    Deleted,
}

pub enum EventView {
    TempFileCreated { path: Seq<char> },
    TempFileFailed,
    Exited { success: bool },
    LaunchFailed,
    Captured { stdout: Seq<u8> },
    Exists { found: bool },
    Deleted,
}

impl View for Event {
    type V = EventView;

    open spec fn view(&self) -> EventView {
        match self {
            Event::TempFileCreated { path } => EventView::TempFileCreated { path: path@ },
            Event::TempFileFailed => EventView::TempFileFailed,
            Event::Exited { success } => EventView::Exited { success: *success },
            Event::LaunchFailed => EventView::LaunchFailed,
            Event::Captured { stdout } => EventView::Captured { stdout: stdout@ },
            Event::Exists { found } => EventView::Exists { found: *found },
            Event::Deleted => EventView::Deleted,
        }
    }
}

/// Where a render stands. `image` is the spectrogram's path; `image_is_temp`
/// tells whether it is a temporary file that the render must delete.
#[derive(Clone, Debug, PartialEq, Eq)]
pub enum RenderState {
    AwaitingImageFile,
    AwaitingWavFile { image: String, image_is_temp: bool },
    Converting { image: String, image_is_temp: bool, wav: String },
    Drawing { image: String, image_is_temp: bool, wav: String },
    DeletingWav { image: String, image_is_temp: bool, wav: String, drawn: bool },
    CheckingImage { image: String, image_is_temp: bool },
    Probing { image: String, image_is_temp: bool },
    Rendering { image: String, image_is_temp: bool, duration: String },
    DeletingImage { image: String, success: bool },
    Finished { success: bool },
    Aborted { failure: Failure },
}

pub enum RenderStateView {
    AwaitingImageFile,
    AwaitingWavFile { image: Seq<char>, image_is_temp: bool },
    Converting { image: Seq<char>, image_is_temp: bool, wav: Seq<char> },
    Drawing { image: Seq<char>, image_is_temp: bool, wav: Seq<char> },
    DeletingWav { image: Seq<char>, image_is_temp: bool, wav: Seq<char>, drawn: bool },
    CheckingImage { image: Seq<char>, image_is_temp: bool },
    Probing { image: Seq<char>, image_is_temp: bool },
    Rendering { image: Seq<char>, image_is_temp: bool, duration: Seq<char> },
    DeletingImage { image: Seq<char>, success: bool },
    Finished { success: bool },
    Aborted { failure: Failure },
}

impl View for RenderState {
    type V = RenderStateView;

    open spec fn view(&self) -> RenderStateView {
        match self {
            RenderState::AwaitingImageFile => RenderStateView::AwaitingImageFile,
            RenderState::AwaitingWavFile { image, image_is_temp } => RenderStateView::AwaitingWavFile {
                image: image@,
                image_is_temp: *image_is_temp,
            },
            RenderState::Converting { image, image_is_temp, wav } => RenderStateView::Converting {
                image: image@,
                image_is_temp: *image_is_temp,
                wav: wav@,
            },
            RenderState::Drawing { image, image_is_temp, wav } => RenderStateView::Drawing {
                image: image@,
                image_is_temp: *image_is_temp,
                wav: wav@,
            },
            RenderState::DeletingWav { image, image_is_temp, wav, drawn } => RenderStateView::DeletingWav {
                image: image@,
                image_is_temp: *image_is_temp,
                wav: wav@,
                drawn: *drawn,
            },
            RenderState::CheckingImage { image, image_is_temp } => RenderStateView::CheckingImage {
                image: image@,
                image_is_temp: *image_is_temp,
            },
            RenderState::Probing { image, image_is_temp } => RenderStateView::Probing {
                image: image@,
                image_is_temp: *image_is_temp,
            },
            RenderState::Rendering { image, image_is_temp, duration } => RenderStateView::Rendering {
                image: image@,
                image_is_temp: *image_is_temp,
                duration: duration@,
            },
            RenderState::DeletingImage { image, success } => RenderStateView::DeletingImage {
                image: image@,
                success: *success,
            },
            RenderState::Finished { success } => RenderStateView::Finished { success: *success },
            RenderState::Aborted { failure } => RenderStateView::Aborted { failure: *failure },
        }
    }
}

/// The video's path: the audio's, with the extension `mp4`.
pub open spec fn video_path(job: RenderJobView) -> Seq<char> {
    with_extension_of(job.audio_path, "mp4"@)
}

/// The duration that FFprobe's output gives: the output read as UTF-8 (as
/// empty text if it is not), trimmed, if that is a non-empty floating-point
/// literal.
pub open spec fn probed_duration(stdout: Seq<u8>) -> Option<Seq<char>> {
    let text = if valid_utf8(stdout) {
        decode_utf8(stdout)
    } else {
        Seq::empty()
    };
    let d = trimmed(text);
    if d.len() > 0 && is_float_literal(d) {
        Some(d)
    } else {
        None
    }
}

/// The state in which a render starts.
pub open spec fn initial(job: RenderJobView) -> RenderStateView {
    if job.keep_img {
        RenderStateView::AwaitingWavFile {
            image: with_extension_of(job.audio_path, "png"@),
            image_is_temp: false,
        }
    } else {
        RenderStateView::AwaitingImageFile
    }
}

/// The action whose answer a state waits for.
pub open spec fn pending(job: RenderJobView, s: RenderStateView) -> ActionView {
    match s {
        RenderStateView::AwaitingImageFile => ActionView::CreateTempFile { suffix: ".png"@ },
        RenderStateView::AwaitingWavFile { .. } => ActionView::CreateTempFile { suffix: ".wav"@ },
        RenderStateView::Converting { wav, .. } => ActionView::Run {
            command: conversion_command(job.audio_path, wav),
        },
        RenderStateView::Drawing { image, wav, .. } => ActionView::Run {
            command: spectrogram_command(wav, image),
        },
        RenderStateView::DeletingWav { wav, .. } => ActionView::DeleteTempFile { path: wav },
        RenderStateView::CheckingImage { image, .. } => ActionView::CheckExists { path: image },
        RenderStateView::Probing { .. } => ActionView::Capture {
            command: probe_command(job.audio_path),
        },
        RenderStateView::Rendering { image, duration, .. } => ActionView::Run {
            command: render_command(
                job.audio_path,
                image,
                job.preset,
                job.needle_color,
                duration,
                video_path(job),
            ),
        },
        RenderStateView::DeletingImage { image, .. } => ActionView::DeleteTempFile { path: image },
        RenderStateView::Finished { success } => ActionView::Finish { success },
        RenderStateView::Aborted { failure } => ActionView::Abort { failure },
    }
}

/// How a render ends once its outcome is known: a temporary image is deleted
/// first.
pub open spec fn ending(image: Seq<char>, image_is_temp: bool, success: bool) -> RenderStateView {
    if image_is_temp {
        RenderStateView::DeletingImage { image, success }
    } else {
        RenderStateView::Finished { success }
    }
}

/// The states of the spectrogram's phase.
pub open spec fn in_spectrogram_phase(s: RenderStateView) -> bool {
    ||| s is AwaitingImageFile
    ||| s is AwaitingWavFile
    ||| s is Converting
    ||| s is Drawing
    ||| s is DeletingWav
}

/// The states of the video's phase.
pub open spec fn in_video_phase(s: RenderStateView) -> bool {
    s is Probing || s is Rendering
}

/// The next state in the spectrogram's phase. An answer that does not fit the
/// pending action leaves the state as it is.
pub open spec fn spectrogram_next(s: RenderStateView, e: EventView) -> RenderStateView {
    match (s, e) {
        (RenderStateView::AwaitingImageFile, EventView::TempFileCreated { path }) =>
            RenderStateView::AwaitingWavFile { image: path, image_is_temp: true },
        (RenderStateView::AwaitingImageFile, EventView::TempFileFailed) =>
            RenderStateView::Aborted { failure: Failure::ImageTempFile },
        (RenderStateView::AwaitingWavFile { image, image_is_temp }, EventView::TempFileCreated { path }) =>
            RenderStateView::Converting { image, image_is_temp, wav: path },
        (RenderStateView::AwaitingWavFile { .. }, EventView::TempFileFailed) =>
            RenderStateView::Aborted { failure: Failure::WavTempFile },
        // A failed conversion does not stop the render.
        (RenderStateView::Converting { image, image_is_temp, wav }, EventView::Exited { .. }) =>
            RenderStateView::Drawing { image, image_is_temp, wav },
        (RenderStateView::Converting { image, image_is_temp, wav }, EventView::LaunchFailed) =>
            RenderStateView::Drawing { image, image_is_temp, wav },
        // Whether SoX drew the spectrogram is kept until the WAV file is gone.
        (RenderStateView::Drawing { image, image_is_temp, wav }, EventView::Exited { success }) =>
            RenderStateView::DeletingWav { image, image_is_temp, wav, drawn: success },
        (RenderStateView::Drawing { .. }, EventView::LaunchFailed) =>
            RenderStateView::Aborted { failure: Failure::SoxLaunch },
        // A failed drawing ends the render; a drawn image is still checked.
        (RenderStateView::DeletingWav { image, image_is_temp, drawn, .. }, EventView::Deleted) =>
            if drawn {
                RenderStateView::CheckingImage { image, image_is_temp }
            } else {
                ending(image, image_is_temp, false)
            },
        _ => s,
    }
}

/// The next state in the video's phase.
pub open spec fn video_next(s: RenderStateView, e: EventView) -> RenderStateView {
    match (s, e) {
        (RenderStateView::Probing { image, image_is_temp }, EventView::Captured { stdout }) =>
            match probed_duration(stdout) {
                Some(duration) => RenderStateView::Rendering { image, image_is_temp, duration },
                None => ending(image, image_is_temp, false),
            },
        (RenderStateView::Probing { image, image_is_temp }, EventView::LaunchFailed) =>
            ending(image, image_is_temp, false),
        (RenderStateView::Rendering { image, image_is_temp, .. }, EventView::Exited { success }) =>
            ending(image, image_is_temp, success),
        (RenderStateView::Rendering { image, image_is_temp, .. }, EventView::LaunchFailed) =>
            ending(image, image_is_temp, false),
        _ => s,
    }
}

/// The next state of a render, given the answer to the pending action.
pub open spec fn next(s: RenderStateView, e: EventView) -> RenderStateView {
    if in_spectrogram_phase(s) {
        spectrogram_next(s, e)
    } else if in_video_phase(s) {
        video_next(s, e)
    } else {
        match (s, e) {
            (RenderStateView::CheckingImage { image, image_is_temp }, EventView::Exists { found }) =>
                if found {
                    RenderStateView::Probing { image, image_is_temp }
                } else {
                    ending(image, image_is_temp, false)
                },
            (RenderStateView::DeletingImage { success, .. }, EventView::Deleted) =>
                RenderStateView::Finished { success },
            _ => s,
        }
    }
}

fn text(s: &str) -> (r: String)
    ensures
        r@ == s@,
{
    s.to_owned()
}

/// The action that a state waits for.
pub fn pending_action(job: &RenderJob, state: &RenderState) -> (a: Action)
    ensures
        a@ == pending(job@, state@),
{
    match state {
        RenderState::AwaitingImageFile => Action::CreateTempFile { suffix: text(".png") },
        RenderState::AwaitingWavFile { .. } => Action::CreateTempFile { suffix: text(".wav") },
        RenderState::Converting { wav, .. } => Action::Run {
            command: conversion(job.audio_path.as_str(), wav.as_str()),
        },
        RenderState::Drawing { image, wav, .. } => Action::Run {
            command: spectrogram(wav.as_str(), image.as_str()),
        },
        RenderState::DeletingWav { wav, .. } => Action::DeleteTempFile { path: wav.clone() },
        RenderState::CheckingImage { image, .. } => Action::CheckExists { path: image.clone() },
        RenderState::Probing { .. } => Action::Capture { command: probe(job.audio_path.as_str()) },
        RenderState::Rendering { image, duration, .. } => {
            proof {
                reveal_strlit("mp4");
            }
            let video = with_extension(job.audio_path.as_str(), "mp4");
            Action::Run {
                command: render(
                    job.audio_path.as_str(),
                    image.as_str(),
                    job.preset.as_str(),
                    job.needle_color.as_str(),
                    duration.as_str(),
                    video.as_str(),
                ),
            }
        },
        RenderState::DeletingImage { image, .. } => Action::DeleteTempFile { path: image.clone() },
        RenderState::Finished { success } => Action::Finish { success: *success },
        RenderState::Aborted { failure } => Action::Abort { failure: *failure },
    }
}


/// Reads FFprobe's output as a duration.
pub fn read_duration(stdout: &[u8]) -> (r: Option<String>)
    ensures
        match r {
            Some(d) => probed_duration(stdout@) == Some(d@),
            None => probed_duration(stdout@) is None,
        },
{
    let text = match utf8_text(stdout) {
        Some(t) => t,
        None => String::new(),
    };
    let d = trim_text(text.as_str());
    if !d.as_str().is_empty() && float_literal(d.as_str()) {
        Some(d)
    } else {
        None
    }
}

fn ending_state(image: String, image_is_temp: bool, success: bool) -> (s: RenderState)
    ensures
        s@ == ending(image@, image_is_temp, success),
{
    if image_is_temp {
        RenderState::DeletingImage { image, success }
    } else {
        RenderState::Finished { success }
    }
}

/// Starts a render: its first state, and the action that state waits for.
pub fn begin_render(job: &RenderJob) -> (r: (RenderState, Action))
    ensures
        r.0@ == initial(job@),
        r.1@ == pending(job@, r.0@),
{
    proof {
        reveal_strlit("png");
    }
    let state = if job.keep_img {
        RenderState::AwaitingWavFile {
            image: with_extension(job.audio_path.as_str(), "png"),
            image_is_temp: false,
        }
    } else {
        RenderState::AwaitingImageFile
    };
    let action = pending_action(job, &state);
    (state, action)
}

/// Steps the spectrogram's phase: the image's path is chosen (next to the
/// audio, or a temporary file), the audio is converted to a temporary WAV
/// file, SoX draws the spectrogram from it, and the WAV file is deleted. The
/// phase hands over to [`RenderState::CheckingImage`] when SoX succeeded, and
/// ends the render unsuccessfully when it failed; a state of another phase is
/// left as it is.
pub fn generate_spectrogram(job: &RenderJob, state: RenderState, event: Event) -> (r: (
    RenderState,
    Action,
))
    ensures
        r.0@ == (if in_spectrogram_phase(state@) {
            spectrogram_next(state@, event@)
        } else {
            state@
        }),
        r.1@ == pending(job@, r.0@),
{
    let next_state = match (state, event) {
        (RenderState::AwaitingImageFile, Event::TempFileCreated { path }) =>
            RenderState::AwaitingWavFile { image: path, image_is_temp: true },
        (RenderState::AwaitingImageFile, Event::TempFileFailed) =>
            RenderState::Aborted { failure: Failure::ImageTempFile },
        (RenderState::AwaitingWavFile { image, image_is_temp }, Event::TempFileCreated { path }) =>
            RenderState::Converting { image, image_is_temp, wav: path },
        (RenderState::AwaitingWavFile { .. }, Event::TempFileFailed) =>
            RenderState::Aborted { failure: Failure::WavTempFile },
        (RenderState::Converting { image, image_is_temp, wav }, Event::Exited { .. }) =>
            RenderState::Drawing { image, image_is_temp, wav },
        (RenderState::Converting { image, image_is_temp, wav }, Event::LaunchFailed) =>
            RenderState::Drawing { image, image_is_temp, wav },
        (RenderState::Drawing { image, image_is_temp, wav }, Event::Exited { success }) =>
            RenderState::DeletingWav { image, image_is_temp, wav, drawn: success },
        (RenderState::Drawing { .. }, Event::LaunchFailed) =>
            RenderState::Aborted { failure: Failure::SoxLaunch },
        (RenderState::DeletingWav { image, image_is_temp, drawn, .. }, Event::Deleted) =>
            if drawn {
                RenderState::CheckingImage { image, image_is_temp }
            } else {
                ending_state(image, image_is_temp, false)
            },
        (other, _) => other,
    };
    let action = pending_action(job, &next_state);
    (next_state, action)
}

/// Steps the video's phase: FFprobe reads the audio's duration, and FFmpeg
/// renders the video with the playhead crossing the image in that time. A
/// state of another phase is left as it is.
pub fn generate_sonogram(job: &RenderJob, state: RenderState, event: Event) -> (r: (
    RenderState,
    Action,
))
    ensures
        r.0@ == (if in_video_phase(state@) {
            video_next(state@, event@)
        } else {
            state@
        }),
        r.1@ == pending(job@, r.0@),
{
    let next_state = match (state, event) {
        (RenderState::Probing { image, image_is_temp }, Event::Captured { stdout }) =>
            match read_duration(stdout.as_slice()) {
                Some(duration) => RenderState::Rendering { image, image_is_temp, duration },
                None => ending_state(image, image_is_temp, false),
            },
        (RenderState::Probing { image, image_is_temp }, Event::LaunchFailed) =>
            ending_state(image, image_is_temp, false),
        (RenderState::Rendering { image, image_is_temp, .. }, Event::Exited { success }) =>
            ending_state(image, image_is_temp, success),
        (RenderState::Rendering { image, image_is_temp, .. }, Event::LaunchFailed) =>
            ending_state(image, image_is_temp, false),
        (other, _) => other,
    };
    let action = pending_action(job, &next_state);
    (next_state, action)
}

/// Steps a render: the spectrogram's phase, then the check that the image
/// exists (without it the render fails), then the video's phase, then the
/// deletion of a temporary image.
pub fn call_renderer(job: &RenderJob, state: RenderState, event: Event) -> (r: (
    RenderState,
    Action,
))
    ensures
        r.0@ == next(state@, event@),
        r.1@ == pending(job@, r.0@),
{
    match state {
        RenderState::AwaitingImageFile
        | RenderState::AwaitingWavFile { .. }
        | RenderState::Converting { .. }
        | RenderState::Drawing { .. }
        | RenderState::DeletingWav { .. } => generate_spectrogram(job, state, event),
        RenderState::Probing { .. } | RenderState::Rendering { .. } => generate_sonogram(
            job,
            state,
            event,
        ),
        _ => {
            let next_state = match (state, event) {
                (RenderState::CheckingImage { image, image_is_temp }, Event::Exists { found }) =>
                    if found {
                        RenderState::Probing { image, image_is_temp }
                    } else {
                        ending_state(image, image_is_temp, false)
                    },
                (RenderState::DeletingImage { success, .. }, Event::Deleted) =>
                    RenderState::Finished { success },
                (other, _) => other,
            };
            let action = pending_action(job, &next_state);
            (next_state, action)
        },
    }
}

} // verus!
