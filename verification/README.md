# sve

The verified core of a spectrogram video exporter. Given a folder, it finds
the audio files of its subfolders, in any common audio format, each with the
spectrogram image that goes with it; given an audio
file, it drives the render of a video that shows the audio's spectrogram with
a playhead crossing it in time with the sound (FFmpeg converts the audio to
WAV, SoX draws the spectrogram, FFprobe reads the duration, FFmpeg renders).

- `src/renderer.rs`: the render as a state machine. The caller performs each
  action (temporary files, programs, file checks) and hands back the answer.
- `src/render_laws.rs`: what holds of every run of that machine.
- `src/commands.rs`: the command lines of the external programs.
- `src/scanner.rs`: the audio files of a folder tree and their spectrograms.
- `src/status.rs`: the texts and decisions of the batch screen.
- `src/number.rs`, `src/text.rs`, `src/paths.rs`: floating-point literal
  syntax, white space and text helpers, paths.
- `app/`: the desktop program (Dioxus window, file system, processes).
