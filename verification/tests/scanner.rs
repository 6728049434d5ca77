use sve::scanner::{audio_extension, is_audio_file, pair_folder, pair_folders, Caminhos, FileEntry};

fn file(path: &str) -> FileEntry {
    FileEntry { path: path.to_string(), is_file: true }
}

fn entry(png: &str, audio: &str) -> Caminhos {
    Caminhos { sonograma: png.to_string(), audio: audio.to_string() }
}

#[test]
fn audio_goes_with_the_folders_spectrogram() {
    let files = vec![file("d/a.txt"), file("d/cover.png"), file("d/track.mp3")];
    assert_eq!(pair_folder(&files), vec![entry("d/cover.png", "d/track.mp3")]);
}

#[test]
fn audio_without_spectrogram_is_found() {
    assert_eq!(pair_folder(&vec![file("d/a.mp3")]), vec![entry("d/a.png", "d/a.mp3")]);
    assert_eq!(pair_folder(&vec![file("d/x.png")]), vec![]);
    assert_eq!(pair_folder(&vec![]), vec![]);
}

#[test]
fn any_audio_format_is_found() {
    assert_eq!(pair_folder(&vec![file("d/a.flac"), file("d/a.png")]), vec![entry("d/a.png", "d/a.flac")]);
    assert_eq!(pair_folder(&vec![file("d/b.WAV")]), vec![entry("d/b.png", "d/b.WAV")]);
    assert_eq!(pair_folder(&vec![file("d/c.Ogg"), file("d/d.m4a")]), vec![entry("d/c.png", "d/c.Ogg"), entry("d/d.png", "d/d.m4a")]);
}

#[test]
fn every_audio_file_of_a_folder_is_found_in_order() {
    let files = vec![file("d/1.png"), file("d/1.mp3"), file("d/2.png"), file("d/2.opus")];
    assert_eq!(pair_folder(&files), vec![entry("d/2.png", "d/1.mp3"), entry("d/2.png", "d/2.opus")]);
}

#[test]
fn other_files_are_not_audio() {
    for p in ["d/video.mp4", "d/notes.txt", "d/.mp3", "d/mp3", "d/x.mp3.bak", "d/cover.png"] {
        assert!(!is_audio_file(&file(p)), "{}", p);
    }
    assert!(!is_audio_file(&FileEntry { path: "d/dir.mp3".to_string(), is_file: false }));
    assert!(is_audio_file(&file("d/x.AIFF")));
    assert!(audio_extension("flac"));
    assert!(audio_extension("Mp3"));
    assert!(!audio_extension("mp4"));
    assert!(!audio_extension(""));
}

#[test]
fn entries_come_in_folder_order() {
    let folders = vec![
        vec![file("a/s.png"), file("a/s.mp3")],
        vec![file("b/only.mp3")],
        vec![file("c/notes.txt")],
        vec![file("c/t.flac"), file("c/t.png")],
    ];
    assert_eq!(
        pair_folders(&folders),
        vec![entry("a/s.png", "a/s.mp3"), entry("b/only.png", "b/only.mp3"), entry("c/t.png", "c/t.flac")]
    );
    assert_eq!(pair_folders(&vec![]), vec![]);
}
