use sve::commands::{conversion, needle, overlay, probe, render, spectrogram};

fn strings(v: &[&str]) -> Vec<String> {
    v.iter().map(|s| s.to_string()).collect()
}

#[test]
fn conversion_writes_wav() {
    let c = conversion("in/a.flac", "/tmp/x.wav");
    assert_eq!(c.program, "ffmpeg");
    assert_eq!(c.args, strings(&["-i", "in/a.flac", "-y", "/tmp/x.wav"]));
}

#[test]
fn spectrogram_reads_wav_writes_image() {
    let c = spectrogram("/tmp/x.wav", "in/a.png");
    assert_eq!(c.program, "sox");
    assert_eq!(
        c.args,
        strings(&["/tmp/x.wav", "-n", "remix", "-", "spectrogram", "-m", "-x", "1920", "-Y", "1080", "-r", "-o", "in/a.png"])
    );
}

#[test]
fn probe_asks_for_duration() {
    let c = probe("in/a.mp3");
    assert_eq!(c.program, "ffprobe");
    assert_eq!(
        c.args,
        strings(&["-v", "error", "-show_entries", "format=duration", "-of", "default=noprint_wrappers=1:nokey=1", "in/a.mp3"])
    );
}

#[test]
fn filters_place_the_playhead() {
    assert_eq!(needle("#FF0000"), "color=c=#FF0000:s=3x1080");
    assert_eq!(
        overlay("magma", "12.5"),
        "[1:v]pseudocolor=preset=magma,scale=1920:1080[fundo_colorido];[fundo_colorido][2:v]overlay=x='(1920/12.5)*t':y=0:shortest=1[video]"
    );
}

#[test]
fn render_combines_audio_image_and_playhead() {
    let c = render("a.mp3", "a.png", "inferno", "white", "3.0", "a.mp4");
    assert_eq!(c.program, "ffmpeg");
    assert_eq!(
        c.args,
        strings(&[
            "-i", "a.mp3", "-loop", "1", "-framerate", "24", "-i", "a.png", "-f", "lavfi", "-i",
            "color=c=white:s=3x1080", "-filter_complex",
            "[1:v]pseudocolor=preset=inferno,scale=1920:1080[fundo_colorido];[fundo_colorido][2:v]overlay=x='(1920/3.0)*t':y=0:shortest=1[video]",
            "-map", "[video]", "-map", "0:a", "-c:v", "libx264", "-preset", "fast", "-pix_fmt",
            "yuv420p", "-c:a", "copy", "-shortest", "-y", "a.mp4",
        ])
    );
}
