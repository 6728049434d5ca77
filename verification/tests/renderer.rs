use sve::commands::Command;
use sve::renderer::{
    begin_render, call_renderer, generate_sonogram, generate_spectrogram, read_duration, Action,
    Event, Failure, RenderJob, RenderState,
};

fn job(keep_img: bool) -> RenderJob {
    RenderJob {
        audio_path: "music/song.flac".to_string(),
        keep_img,
        preset: "magma".to_string(),
        needle_color: "#FF0000".to_string(),
    }
}

fn strings(v: &[&str]) -> Vec<String> {
    v.iter().map(|s| s.to_string()).collect()
}

fn run_cmd(program: &str, args: &[&str]) -> Action {
    Action::Run { command: Command { program: program.to_string(), args: strings(args) } }
}

fn step(j: &RenderJob, s: RenderState, e: Event) -> (RenderState, Action) {
    call_renderer(j, s, e)
}

#[test]
fn full_render_with_temporary_image() {
    let j = job(false);
    let (s, a) = begin_render(&j);
    assert_eq!(a, Action::CreateTempFile { suffix: ".png".to_string() });
    let (s, a) = step(&j, s, Event::TempFileCreated { path: "/tmp/img.png".to_string() });
    assert_eq!(a, Action::CreateTempFile { suffix: ".wav".to_string() });
    let (s, a) = step(&j, s, Event::TempFileCreated { path: "/tmp/a.wav".to_string() });
    assert_eq!(a, run_cmd("ffmpeg", &["-i", "music/song.flac", "-y", "/tmp/a.wav"]));
    let (s, a) = step(&j, s, Event::Exited { success: true });
    assert_eq!(
        a,
        run_cmd("sox", &["/tmp/a.wav", "-n", "remix", "-", "spectrogram", "-m", "-x", "1920", "-Y", "1080", "-r", "-o", "/tmp/img.png"])
    );
    let (s, a) = step(&j, s, Event::Exited { success: true });
    assert_eq!(a, Action::DeleteTempFile { path: "/tmp/a.wav".to_string() });
    let (s, a) = step(&j, s, Event::Deleted);
    assert_eq!(a, Action::CheckExists { path: "/tmp/img.png".to_string() });
    let (s, a) = step(&j, s, Event::Exists { found: true });
    assert_eq!(
        a,
        Action::Capture {
            command: Command {
                program: "ffprobe".to_string(),
                args: strings(&["-v", "error", "-show_entries", "format=duration", "-of", "default=noprint_wrappers=1:nokey=1", "music/song.flac"]),
            }
        }
    );
    let (s, a) = step(&j, s, Event::Captured { stdout: b"183.640000\n".to_vec() });
    assert_eq!(
        a,
        run_cmd("ffmpeg", &[
            "-i", "music/song.flac", "-loop", "1", "-framerate", "24", "-i", "/tmp/img.png", "-f", "lavfi", "-i",
            "color=c=#FF0000:s=3x1080", "-filter_complex",
            "[1:v]pseudocolor=preset=magma,scale=1920:1080[fundo_colorido];[fundo_colorido][2:v]overlay=x='(1920/183.640000)*t':y=0:shortest=1[video]",
            "-map", "[video]", "-map", "0:a", "-c:v", "libx264", "-preset", "fast", "-pix_fmt",
            "yuv420p", "-c:a", "copy", "-shortest", "-y", "music/song.mp4",
        ])
    );
    let (s, a) = step(&j, s, Event::Exited { success: true });
    assert_eq!(a, Action::DeleteTempFile { path: "/tmp/img.png".to_string() });
    let (s, a) = step(&j, s, Event::Deleted);
    assert_eq!(a, Action::Finish { success: true });
    assert_eq!(s, RenderState::Finished { success: true });
}

#[test]
fn kept_image_lands_next_to_the_audio() {
    let j = job(true);
    let (s, a) = begin_render(&j);
    assert_eq!(s, RenderState::AwaitingWavFile { image: "music/song.png".to_string(), image_is_temp: false });
    assert_eq!(a, Action::CreateTempFile { suffix: ".wav".to_string() });
    let (s, _) = step(&j, s, Event::TempFileCreated { path: "/tmp/b.wav".to_string() });
    let (s, a) = step(&j, s, Event::Exited { success: true });
    assert_eq!(
        a,
        run_cmd("sox", &["/tmp/b.wav", "-n", "remix", "-", "spectrogram", "-m", "-x", "1920", "-Y", "1080", "-r", "-o", "music/song.png"])
    );
    let (s, _) = step(&j, s, Event::Exited { success: true });
    let (s, a) = step(&j, s, Event::Deleted);
    assert_eq!(a, Action::CheckExists { path: "music/song.png".to_string() });
    let (s, _) = step(&j, s, Event::Exists { found: true });
    let (s, _) = step(&j, s, Event::Captured { stdout: b"10\n".to_vec() });
    let (s, a) = step(&j, s, Event::Exited { success: false });
    assert_eq!(a, Action::Finish { success: false });
    assert_eq!(s, RenderState::Finished { success: false });
}

#[test]
fn failed_conversion_goes_on() {
    let j = job(true);
    let (s, _) = begin_render(&j);
    let (s, _) = step(&j, s, Event::TempFileCreated { path: "/tmp/c.wav".to_string() });
    let (s, a) = step(&j, s, Event::LaunchFailed);
    assert!(matches!(a, Action::Run { ref command } if command.program == "sox"));
    let (s, a) = step(&j, s, Event::Exited { success: true });
    assert_eq!(a, Action::DeleteTempFile { path: "/tmp/c.wav".to_string() });
    let (_, a) = step(&j, s, Event::Deleted);
    assert_eq!(a, Action::CheckExists { path: "music/song.png".to_string() });
}

#[test]
fn failed_drawing_fails_the_render() {
    // The kept image is not probed or rendered when SoX fails.
    let j = job(true);
    let (s, _) = begin_render(&j);
    let (s, _) = step(&j, s, Event::TempFileCreated { path: "/tmp/d.wav".to_string() });
    let (s, _) = step(&j, s, Event::Exited { success: true });
    let (s, a) = step(&j, s, Event::Exited { success: false });
    assert_eq!(a, Action::DeleteTempFile { path: "/tmp/d.wav".to_string() });
    let (s, a) = step(&j, s, Event::Deleted);
    assert_eq!(a, Action::Finish { success: false });
    assert_eq!(s, RenderState::Finished { success: false });
    // A temporary image is deleted, and neither FFprobe nor FFmpeg runs.
    let j = job(false);
    let (s, _) = begin_render(&j);
    let (s, _) = step(&j, s, Event::TempFileCreated { path: "/tmp/e.png".to_string() });
    let (s, _) = step(&j, s, Event::TempFileCreated { path: "/tmp/e.wav".to_string() });
    let (s, _) = step(&j, s, Event::Exited { success: true });
    let (s, _) = step(&j, s, Event::Exited { success: false });
    let (s, a) = step(&j, s, Event::Deleted);
    assert_eq!(a, Action::DeleteTempFile { path: "/tmp/e.png".to_string() });
    let (_, a) = step(&j, s, Event::Deleted);
    assert_eq!(a, Action::Finish { success: false });
}

#[test]
fn missing_image_fails_the_render() {
    let j = job(false);
    let s = RenderState::CheckingImage { image: "/tmp/i.png".to_string(), image_is_temp: true };
    let (s, a) = step(&j, s, Event::Exists { found: false });
    assert_eq!(a, Action::DeleteTempFile { path: "/tmp/i.png".to_string() });
    let (_, a) = step(&j, s, Event::Deleted);
    assert_eq!(a, Action::Finish { success: false });
    let s = RenderState::CheckingImage { image: "x.png".to_string(), image_is_temp: false };
    let (_, a) = step(&j, s, Event::Exists { found: false });
    assert_eq!(a, Action::Finish { success: false });
}

#[test]
fn unreadable_duration_fails_the_render() {
    let j = job(true);
    for out in [&b""[..], b"N/A\n", b"\xff\xfe", b"  \n"] {
        let s = RenderState::Probing { image: "x.png".to_string(), image_is_temp: false };
        let (_, a) = step(&j, s, Event::Captured { stdout: out.to_vec() });
        assert_eq!(a, Action::Finish { success: false });
    }
    let s = RenderState::Probing { image: "x.png".to_string(), image_is_temp: false };
    let (_, a) = step(&j, s, Event::LaunchFailed);
    assert_eq!(a, Action::Finish { success: false });
}

#[test]
fn failed_launches_that_cannot_go_on_abort() {
    let j = job(false);
    let (s, _) = begin_render(&j);
    let (_, a) = step(&j, s, Event::TempFileFailed);
    assert_eq!(a, Action::Abort { failure: Failure::ImageTempFile });
    let s = RenderState::AwaitingWavFile { image: "x.png".to_string(), image_is_temp: false };
    let (_, a) = step(&j, s, Event::TempFileFailed);
    assert_eq!(a, Action::Abort { failure: Failure::WavTempFile });
    let s = RenderState::Drawing { image: "x.png".to_string(), image_is_temp: false, wav: "w.wav".to_string() };
    let (s, a) = step(&j, s, Event::LaunchFailed);
    assert_eq!(a, Action::Abort { failure: Failure::SoxLaunch });
    let (_, a) = step(&j, s, Event::Deleted);
    assert_eq!(a, Action::Abort { failure: Failure::SoxLaunch });
}

#[test]
fn answers_that_do_not_fit_change_nothing() {
    let j = job(true);
    let s = RenderState::CheckingImage { image: "x.png".to_string(), image_is_temp: false };
    let (s2, a) = step(&j, s.clone(), Event::Deleted);
    assert_eq!(s2, s);
    assert_eq!(a, Action::CheckExists { path: "x.png".to_string() });
}

#[test]
fn phases_leave_other_states_alone() {
    let j = job(true);
    let s = RenderState::Probing { image: "x.png".to_string(), image_is_temp: false };
    let (s2, _) = generate_spectrogram(&j, s.clone(), Event::Captured { stdout: b"1\n".to_vec() });
    assert_eq!(s2, s);
    let (s3, _) = generate_sonogram(&j, s, Event::Captured { stdout: b"1\n".to_vec() });
    assert_eq!(s3, RenderState::Rendering { image: "x.png".to_string(), image_is_temp: false, duration: "1".to_string() });
    let d = RenderState::Drawing { image: "i".to_string(), image_is_temp: false, wav: "w".to_string() };
    let (d2, _) = generate_sonogram(&j, d.clone(), Event::Exited { success: true });
    assert_eq!(d2, d);
}

#[test]
fn duration_is_trimmed_output() {
    assert_eq!(read_duration(b"  42.5 \n"), Some("42.5".to_string()));
    assert_eq!(read_duration(b"1e3"), Some("1e3".to_string()));
    assert_eq!(read_duration(b""), None);
    assert_eq!(read_duration(b"4 2"), None);
    assert_eq!(read_duration(&[0xc3]), None);
}
