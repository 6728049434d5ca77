//! Finding the audio files of a folder tree, and the spectrogram image that
//! goes with each.
//!
//! Each subfolder of the chosen folder is looked at on its own. Every file in
//! it whose extension names an audio format (in any ASCII case) is an audio
//! file found; they come in the order of the folders, then in the order in
//! which each folder was listed. An audio file goes with its folder's last
//! file with the extension `png`, if the folder holds one; otherwise with the
//! path where its own spectrogram is kept: its own path with the extension
//! `png`.

use vstd::prelude::*;
use crate::number::{ascii_lower, spells, spells_text};
use crate::paths::{extension, extension_of, with_extension, with_extension_of};

verus! {

/// A spectrogram image and the audio file it belongs to.
#[derive(Clone, Debug, PartialEq, Eq)]
pub struct Caminhos {
    pub sonograma: String,
    pub audio: String,
}

pub struct CaminhosView {
    pub sonograma: Seq<char>,
    pub audio: Seq<char>,
}

impl View for Caminhos {
    type V = CaminhosView;

    open spec fn view(&self) -> CaminhosView {
        CaminhosView { sonograma: self.sonograma@, audio: self.audio@ }
    }
}

/// An entry of a folder's listing: its path, and whether it is a file.
#[derive(Clone, Debug, PartialEq, Eq)]
pub struct FileEntry {
    pub path: String,
    pub is_file: bool,
}

pub struct FileEntryView {
    pub path: Seq<char>,
    pub is_file: bool,
}

impl View for FileEntry {
    type V = FileEntryView;

    open spec fn view(&self) -> FileEntryView {
        FileEntryView { path: self.path@, is_file: self.is_file }
    }
}

/// The listings of the subfolders, in order, each as a sequence of entries.
pub open spec fn listings_view(folders: Seq<Vec<FileEntry>>) -> Seq<Seq<FileEntryView>> {
    folders.map_values(|f: Vec<FileEntry>| f@.map_values(|e: FileEntry| e@))
}

/// The entry is a file whose extension is `ext`.
pub open spec fn has_extension(f: FileEntryView, ext: Seq<char>) -> bool {
    f.is_file && extension_of(f.path) == Some(ext)
}

/// The path of the last file of the listing whose extension is `ext`.
pub open spec fn last_with_extension(files: Seq<FileEntryView>, ext: Seq<char>) -> Option<Seq<char>>
    decreases files.len(),
{
    if files.len() == 0 {
        None
    } else if has_extension(files.last(), ext) {
        Some(files.last().path)
    } else {
        last_with_extension(files.drop_last(), ext)
    }
}

/// The extensions of the audio formats that are looked for, in lower case.
pub open spec fn audio_formats() -> Seq<Seq<char>> {
    seq![
        "mp3"@,
        "wav"@,
        "flac"@,
        "ogg"@,
        "oga"@,
        "opus"@,
        "m4a"@,
        "aac"@,
        "wma"@,
        "aif"@,
        "aiff"@,
        "aifc"@,
        "alac"@,
        "ape"@,
        "mka"@,
        "mp2"@,
        "ac3"@,
        "amr"@,
        "au"@,
        "wv"@,
        "caf"@,
        "mpc"@,
        "tta"@,
        "spx"@,
        "dsf"@,
    ]
}

/// The extension names an audio format, in any ASCII case.
pub open spec fn is_audio_extension(ext: Seq<char>) -> bool {
    exists|k: int| 0 <= k < audio_formats().len() && spells(ext, #[trigger] audio_formats()[k])
}

/// The entry is an audio file.
pub open spec fn is_audio(f: FileEntryView) -> bool {
    f.is_file && match extension_of(f.path) {
        Some(e) => is_audio_extension(e),
        None => false,
    }
}

/// The paths of the audio files of a listing, in order.
pub open spec fn audio_paths(files: Seq<FileEntryView>) -> Seq<Seq<char>>
    decreases files.len(),
{
    if files.len() == 0 {
        Seq::empty()
    } else if is_audio(files.last()) {
        audio_paths(files.drop_last()).push(files.last().path)
    } else {
        audio_paths(files.drop_last())
    }
}

/// The spectrogram that goes with an audio file of a folder.
pub open spec fn spectrogram_for(files: Seq<FileEntryView>, audio: Seq<char>) -> Seq<char> {
    match last_with_extension(files, "png"@) {
        Some(png) => png,
        None => with_extension_of(audio, "png"@),
    }
}

/// An audio file of a folder with its spectrogram.
pub open spec fn entry_for(files: Seq<FileEntryView>, audio: Seq<char>) -> CaminhosView {
    CaminhosView { sonograma: spectrogram_for(files, audio), audio }
}

/// What one folder's listing gives: each of its audio files, in order, with
/// its spectrogram.
pub open spec fn folder_entries(files: Seq<FileEntryView>) -> Seq<CaminhosView> {
    audio_paths(files).map_values(|a: Seq<char>| entry_for(files, a))
}

/// What the folders give, in the folders' order.
pub open spec fn folder_pairs(folders: Seq<Seq<FileEntryView>>) -> Seq<CaminhosView>
    decreases folders.len(),
{
    if folders.len() == 0 {
        Seq::empty()
    } else {
        folder_pairs(folders.drop_last()) + folder_entries(folders.last())
    }
}

fn file_with_extension(f: &FileEntry, ext: &String) -> (r: bool)
    ensures
        r == has_extension(f@, ext@),
{
    if !f.is_file {
        return false;
    }
    match extension(f.path.as_str()) {
        Some(e) => e == *ext,
        None => false,
    }
}


/// Decides whether an extension names an audio format.
pub fn audio_extension(ext: &str) -> (r: bool)
    ensures
        r == is_audio_extension(ext@),
{
    let formats: [&str; 25] = [
        "mp3",
        "wav",
        "flac",
        "ogg",
        "oga",
        "opus",
        "m4a",
        "aac",
        "wma",
        "aif",
        "aiff",
        "aifc",
        "alac",
        "ape",
        "mka",
        "mp2",
        "ac3",
        "amr",
        "au",
        "wv",
        "caf",
        "mpc",
        "tta",
        "spx",
        "dsf",
    ];
    assert(formats@.map_values(|f: &str| f@) =~= audio_formats());
    let mut k: usize = 0;
    while k < 25
        invariant
            k <= 25,
            formats@.map_values(|f: &str| f@) == audio_formats(),
            forall|j: int| 0 <= j < k ==> !spells(ext@, #[trigger] audio_formats()[j]),
        decreases 25 - k,
    {
        assert(formats@.map_values(|f: &str| f@)[k as int] == formats@[k as int]@);
        if spells_text(ext, formats[k]) {
            assert(spells(ext@, audio_formats()[k as int]));
            return true;
        }
        k = k + 1;
    }
    false
}

/// Decides whether an entry is an audio file.
pub fn is_audio_file(f: &FileEntry) -> (r: bool)
    ensures
        r == is_audio(f@),
{
    if !f.is_file {
        return false;
    }
    match extension(f.path.as_str()) {
        Some(e) => audio_extension(e.as_str()),
        None => false,
    }
}

/// The path of the last file of a listing with the extension `png`.
fn last_png(files: &Vec<FileEntry>) -> (r: Option<String>)
    ensures
        match r {
            Some(p) => last_with_extension(files@.map_values(|e: FileEntry| e@), "png"@) == Some(p@),
            None => last_with_extension(files@.map_values(|e: FileEntry| e@), "png"@) is None,
        },
{
    let ghost fs = files@.map_values(|e: FileEntry| e@);
    let png = "png".to_owned();
    let mut found: Option<String> = None;
    let mut i: usize = 0;
    while i < files.len()
        invariant
            i <= files@.len(),
            fs == files@.map_values(|e: FileEntry| e@),
            png@ == "png"@,
            match found {
                Some(p) => last_with_extension(fs.take(i as int), "png"@) == Some(p@),
                None => last_with_extension(fs.take(i as int), "png"@) is None,
            },
        decreases files@.len() - i,
    {
        let f = &files[i];
        assert(fs.take(i + 1).drop_last() == fs.take(i as int));
        assert(fs.take(i + 1).last() == f@);
        if file_with_extension(f, &png) {
            found = Some(f.path.clone());
        }
        i = i + 1;
    }
    assert(fs.take(files@.len() as int) == fs);
    found
}

/// What one folder's listing gives: each audio file with its spectrogram.
pub fn pair_folder(files: &Vec<FileEntry>) -> (r: Vec<Caminhos>)
    ensures
        r@.map_values(|c: Caminhos| c@) == folder_entries(files@.map_values(|e: FileEntry| e@)),
{
    let ghost fs = files@.map_values(|e: FileEntry| e@);
    let png = last_png(files);
    proof {
        reveal_strlit("png");
    }
    let mut entries: Vec<Caminhos> = Vec::new();
    let mut i: usize = 0;
    while i < files.len()
        invariant
            i <= files@.len(),
            fs == files@.map_values(|e: FileEntry| e@),
            "png"@ == seq!['p', 'n', 'g'],
            match png {
                Some(p) => last_with_extension(fs, "png"@) == Some(p@),
                None => last_with_extension(fs, "png"@) is None,
            },
            entries@.len() == audio_paths(fs.take(i as int)).len(),
            forall|k: int|
                0 <= k < entries@.len() ==> (#[trigger] entries@[k])@ == entry_for(
                    fs,
                    audio_paths(fs.take(i as int))[k],
                ),
        decreases files@.len() - i,
    {
        let f = &files[i];
        assert(fs.take(i + 1).drop_last() == fs.take(i as int));
        assert(fs.take(i + 1).last() == f@);
        let ghost before = entries@;
        if is_audio_file(f) {
            let sonograma = match &png {
                Some(p) => p.clone(),
                None => with_extension(f.path.as_str(), "png"),
            };
            let c = Caminhos { sonograma, audio: f.path.clone() };
            assert(c@ == entry_for(fs, f@.path));
            entries.push(c);
            assert(entries@ == before.push(c));
            assert(audio_paths(fs.take(i + 1)) == audio_paths(fs.take(i as int)).push(f@.path));
        } else {
            assert(audio_paths(fs.take(i + 1)) == audio_paths(fs.take(i as int)));
        }
        i = i + 1;
    }
    assert(fs.take(files@.len() as int) == fs);
    assert(entries@.map_values(|c: Caminhos| c@) =~= folder_entries(fs));
    entries
}

/// What the listings of the subfolders give, in order.
pub fn pair_folders(folders: &Vec<Vec<FileEntry>>) -> (r: Vec<Caminhos>)
    ensures
        r@.map_values(|c: Caminhos| c@) == folder_pairs(listings_view(folders@)),
{
    let ghost ls = listings_view(folders@);
    let mut pairs: Vec<Caminhos> = Vec::new();
    let mut i: usize = 0;
    while i < folders.len()
        invariant
            i <= folders@.len(),
            ls == listings_view(folders@),
            pairs@.map_values(|c: Caminhos| c@) == folder_pairs(ls.take(i as int)),
        decreases folders@.len() - i,
    {
        assert(ls.take(i + 1).drop_last() == ls.take(i as int));
        assert(ls.take(i + 1).last() == folders@[i as int]@.map_values(|e: FileEntry| e@));
        let ghost before = pairs@;
        let mut found = pair_folder(&folders[i]);
        let ghost added = found@;
        pairs.append(&mut found);
        assert(pairs@.map_values(|c: Caminhos| c@) =~= before.map_values(|c: Caminhos| c@)
            + added.map_values(|c: Caminhos| c@));
        i = i + 1;
    }
    assert(ls.take(folders@.len() as int) == ls);
    pairs
}


/// The file that `last_with_extension` names is in the listing, and is a file
/// with that extension.
pub proof fn lemma_last_with_extension_is_listed(files: Seq<FileEntryView>, ext: Seq<char>)
    requires
        last_with_extension(files, ext) is Some,
    ensures
        exists|j: int|
            0 <= j < files.len() && #[trigger] files[j].path == last_with_extension(files, ext)->0
                && has_extension(files[j], ext),
    decreases files.len(),
{
    if has_extension(files.last(), ext) {
        assert(files[files.len() - 1] == files.last());
    } else {
        lemma_last_with_extension_is_listed(files.drop_last(), ext);
        let j = choose|j: int|
            0 <= j < files.drop_last().len() && #[trigger] files.drop_last()[j].path
                == last_with_extension(files.drop_last(), ext)->0 && has_extension(
                files.drop_last()[j],
                ext,
            );
        assert(files[j] == files.drop_last()[j]);
    }
}

/// The spectrogram that goes with an audio file is a file with the extension
/// `png` listed in its folder, or the audio's own path with that extension.
pub proof fn lemma_spectrogram_is_listed_or_beside(files: Seq<FileEntryView>, audio: Seq<char>)
    ensures
        spectrogram_for(files, audio) == with_extension_of(audio, "png"@) || exists|b: int|
            0 <= b < files.len() && (#[trigger] files[b]).path == spectrogram_for(files, audio)
                && has_extension(files[b], "png"@),
{
    if last_with_extension(files, "png"@) is Some {
        lemma_last_with_extension_is_listed(files, "png"@);
    }
}

proof fn lemma_audio_paths_complete(files: Seq<FileEntryView>, j: int)
    requires
        0 <= j < files.len(),
        is_audio(files[j]),
    ensures
        exists|k: int|
            0 <= k < audio_paths(files).len() && #[trigger] audio_paths(files)[k] == files[j].path,
    decreases files.len(),
{
    let rest = files.drop_last();
    if j == files.len() - 1 {
        assert(files.last() == files[j]);
        assert(audio_paths(files)[audio_paths(rest).len() as int] == files[j].path);
    } else {
        assert(rest[j] == files[j]);
        lemma_audio_paths_complete(rest, j);
        let k = choose|k: int|
            0 <= k < audio_paths(rest).len() && #[trigger] audio_paths(rest)[k] == rest[j].path;
        assert(audio_paths(files)[k] == files[j].path);
    }
}

proof fn lemma_audio_paths_sound(files: Seq<FileEntryView>, k: int)
    requires
        0 <= k < audio_paths(files).len(),
    ensures
        exists|j: int|
            0 <= j < files.len() && (#[trigger] files[j]).path == audio_paths(files)[k] && is_audio(
                files[j],
            ),
    decreases files.len(),
{
    let rest = files.drop_last();
    if k < audio_paths(rest).len() {
        lemma_audio_paths_sound(rest, k);
        let j = choose|j: int|
            0 <= j < rest.len() && (#[trigger] rest[j]).path == audio_paths(rest)[k] && is_audio(
                rest[j],
            );
        assert(files[j] == rest[j]);
        assert(audio_paths(files)[k] == audio_paths(rest)[k]);
    } else {
        assert(files[files.len() - 1] == files.last());
    }
}

/// Every audio file listed in a folder is found, with the spectrogram that
/// goes with it.
pub proof fn lemma_every_audio_file_found(folders: Seq<Seq<FileEntryView>>, i: int, j: int)
    requires
        0 <= i < folders.len(),
        0 <= j < folders[i].len(),
        is_audio(folders[i][j]),
    ensures
        exists|k: int|
            0 <= k < folder_pairs(folders).len() && #[trigger] folder_pairs(folders)[k] == entry_for(
                folders[i],
                folders[i][j].path,
            ),
    decreases folders.len(),
{
    let rest = folders.drop_last();
    if i == folders.len() - 1 {
        let files = folders.last();
        assert(files == folders[i]);
        lemma_audio_paths_complete(files, j);
        let k = choose|k: int|
            0 <= k < audio_paths(files).len() && #[trigger] audio_paths(files)[k] == files[j].path;
        let at = folder_pairs(rest).len() + k;
        assert(folder_pairs(folders)[at] == folder_entries(files)[k]);
    } else {
        assert(rest[i] == folders[i]);
        lemma_every_audio_file_found(rest, i, j);
        let k = choose|k: int|
            0 <= k < folder_pairs(rest).len() && #[trigger] folder_pairs(rest)[k] == entry_for(
                rest[i],
                rest[i][j].path,
            );
        assert(folder_pairs(folders)[k] == folder_pairs(rest)[k]);
    }
}

/// Everything found is an audio file listed in one folder, with the
/// spectrogram that goes with it in that folder.
pub proof fn lemma_found_entries_are_audio_files(folders: Seq<Seq<FileEntryView>>, k: int)
    requires
        0 <= k < folder_pairs(folders).len(),
    ensures
        exists|i: int, j: int|
            0 <= i < folders.len() && 0 <= j < folders[i].len() && is_audio(
                #[trigger] folders[i][j],
            ) && folder_pairs(folders)[k] == entry_for(folders[i], folders[i][j].path),
    decreases folders.len(),
{
    let rest = folders.drop_last();
    if k < folder_pairs(rest).len() {
        lemma_found_entries_are_audio_files(rest, k);
        let (i, j) = choose|i: int, j: int|
            0 <= i < rest.len() && 0 <= j < rest[i].len() && is_audio(#[trigger] rest[i][j])
                && folder_pairs(rest)[k] == entry_for(rest[i], rest[i][j].path);
        assert(folders[i] == rest[i]);
        assert(folder_pairs(folders)[k] == folder_pairs(rest)[k]);
        assert(is_audio(folders[i][j]));
    } else {
        let files = folders.last();
        let i = folders.len() - 1;
        assert(folders[i] == files);
        let k2 = k - folder_pairs(rest).len();
        lemma_audio_paths_sound(files, k2);
        let j = choose|j: int|
            0 <= j < files.len() && (#[trigger] files[j]).path == audio_paths(files)[k2] && is_audio(
                files[j],
            );
        assert(folder_pairs(folders)[k] == folder_entries(files)[k2]);
        assert(is_audio(folders[i][j]));
    }
}


/// Files in the common audio formats are audio files, whatever the ASCII
/// case of their extension: MP3, WAV, FLAC, Ogg, Opus, M4A, AAC, WMA, AIFF,
/// ALAC, APE, Matroska audio, MP2 and AC-3.
pub proof fn lemma_common_formats_are_audio(ext: Seq<char>)
    requires
        spells(ext, "mp3"@) || spells(ext, "wav"@) || spells(ext, "flac"@) || spells(ext, "ogg"@) || spells(ext, "opus"@) || spells(ext, "m4a"@) || spells(ext, "aac"@) || spells(ext, "wma"@) || spells(ext, "aif"@) || spells(ext, "aiff"@) || spells(ext, "alac"@) || spells(ext, "ape"@) || spells(ext, "mka"@) || spells(ext, "mp2"@) || spells(ext, "ac3"@),
    ensures
        is_audio_extension(ext),
{
    assert(audio_formats()[0] == "mp3"@);
    assert(audio_formats()[1] == "wav"@);
    assert(audio_formats()[2] == "flac"@);
    assert(audio_formats()[3] == "ogg"@);
    assert(audio_formats()[5] == "opus"@);
    assert(audio_formats()[6] == "m4a"@);
    assert(audio_formats()[7] == "aac"@);
    assert(audio_formats()[8] == "wma"@);
    assert(audio_formats()[9] == "aif"@);
    assert(audio_formats()[10] == "aiff"@);
    assert(audio_formats()[12] == "alac"@);
    assert(audio_formats()[13] == "ape"@);
    assert(audio_formats()[14] == "mka"@);
    assert(audio_formats()[15] == "mp2"@);
    assert(audio_formats()[16] == "ac3"@);
}

/// A file of a common audio format is an audio file.
pub proof fn lemma_common_format_file_is_audio(f: FileEntryView, ext: Seq<char>)
    requires
        f.is_file,
        extension_of(f.path) == Some(ext),
        spells(ext, "mp3"@) || spells(ext, "wav"@) || spells(ext, "flac"@) || spells(ext, "ogg"@)
            || spells(ext, "opus"@) || spells(ext, "m4a"@) || spells(ext, "aac"@) || spells(
            ext,
            "wma"@,
        ) || spells(ext, "aiff"@),
    ensures
        is_audio(f),
{
    lemma_common_formats_are_audio(ext);
}

proof fn lemma_last_with_extension_at(files: Seq<FileEntryView>, ext: Seq<char>, j: int)
    requires
        0 <= j < files.len(),
        has_extension(files[j], ext),
        forall|k: int| j < k < files.len() ==> !has_extension(#[trigger] files[k], ext),
    ensures
        last_with_extension(files, ext) == Some(files[j].path),
    decreases files.len(),
{
    if j < files.len() - 1 {
        let rest = files.drop_last();
        assert(!has_extension(files[files.len() - 1], ext));
        assert(files.last() == files[files.len() - 1]);
        assert(rest[j] == files[j]);
        assert forall|k: int| j < k < rest.len() implies !has_extension(#[trigger] rest[k], ext) by {
            assert(rest[k] == files[k]);
        }
        lemma_last_with_extension_at(rest, ext, j);
    } else {
        assert(files.last() == files[j]);
    }
}

proof fn lemma_last_with_extension_none(files: Seq<FileEntryView>, ext: Seq<char>)
    requires
        forall|k: int| 0 <= k < files.len() ==> !has_extension(#[trigger] files[k], ext),
    ensures
        last_with_extension(files, ext) is None,
    decreases files.len(),
{
    if files.len() > 0 {
        let rest = files.drop_last();
        assert(files.last() == files[files.len() - 1]);
        assert forall|k: int| 0 <= k < rest.len() implies !has_extension(#[trigger] rest[k], ext) by {
            assert(rest[k] == files[k]);
        }
        lemma_last_with_extension_none(rest, ext);
    }
}

/// Every audio file of a folder goes with the folder's last listed file with
/// the extension `png`, wherever it stands in the listing.
pub proof fn lemma_spectrogram_is_last_png(files: Seq<FileEntryView>, audio: Seq<char>, j: int)
    requires
        0 <= j < files.len(),
        has_extension(files[j], "png"@),
        forall|k: int| j < k < files.len() ==> !has_extension(#[trigger] files[k], "png"@),
    ensures
        spectrogram_for(files, audio) == files[j].path,
        entry_for(files, audio) == (CaminhosView { sonograma: files[j].path, audio }),
{
    lemma_last_with_extension_at(files, "png"@, j);
}

/// In a folder without a file with the extension `png`, every audio file goes
/// with its own path with the extension `png`.
pub proof fn lemma_spectrogram_beside_without_png(files: Seq<FileEntryView>, audio: Seq<char>)
    requires
        forall|k: int| 0 <= k < files.len() ==> !has_extension(#[trigger] files[k], "png"@),
    ensures
        spectrogram_for(files, audio) == with_extension_of(audio, "png"@),
{
    lemma_last_with_extension_none(files, "png"@);
}


/// Images, videos and text files are not audio files: the spectrograms and
/// the rendered videos in a folder are never taken for audio.
pub proof fn lemma_images_and_videos_are_not_audio(ext: Seq<char>)
    requires
        spells(ext, "png"@) || spells(ext, "mp4"@) || spells(ext, "txt"@) || spells(ext, "jpg"@),
    ensures
        !is_audio_extension(ext),
{
    reveal_strlit("mp3");
    reveal_strlit("wav");
    reveal_strlit("flac");
    reveal_strlit("ogg");
    reveal_strlit("oga");
    reveal_strlit("opus");
    reveal_strlit("m4a");
    reveal_strlit("aac");
    reveal_strlit("wma");
    reveal_strlit("aif");
    reveal_strlit("aiff");
    reveal_strlit("aifc");
    reveal_strlit("alac");
    reveal_strlit("ape");
    reveal_strlit("mka");
    reveal_strlit("mp2");
    reveal_strlit("ac3");
    reveal_strlit("amr");
    reveal_strlit("au");
    reveal_strlit("wv");
    reveal_strlit("caf");
    reveal_strlit("mpc");
    reveal_strlit("tta");
    reveal_strlit("spx");
    reveal_strlit("dsf");
    reveal_strlit("png");
    reveal_strlit("mp4");
    reveal_strlit("txt");
    reveal_strlit("jpg");
    assert forall|k: int| 0 <= k < audio_formats().len() implies !spells(
        ext,
        #[trigger] audio_formats()[k],
    ) by {
        let f = audio_formats()[k];
        if spells(ext, f) {
            assert(f.len() == ext.len());
            assert(f[0] == ascii_lower(ext[0]));
            assert(f[f.len() - 1] == ascii_lower(ext[ext.len() - 1]));
        }
    }
}

} // verus!
