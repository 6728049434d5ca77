//! The texts and the decisions of the batch screen: searching a folder, then
//! rendering the audio files found, one after the other, while reporting
//! progress.

use vstd::prelude::*;
use crate::scanner::Caminhos;
use crate::paths::{file_name, file_name_of};
use crate::text::{char_text, decimal, decimal_text};

verus! {

/// The status shown before anything was asked.
pub fn idle_message() -> (r: String)
    ensures
        r@ == "Aguardando ação..."@,
{
    "Aguardando ação...".to_owned()
}

/// How a search of the folder `path` starts: with an error when no folder was
/// given, otherwise with the status shown while searching.
pub fn search_start(path: &str) -> (r: Result<String, String>)
    ensures
        match r {
            Ok(m) => path@.len() > 0 && m@ == "Buscando arquivos de áudio..."@,
            Err(m) => path@.len() == 0 && m@ == "Erro: Digite o caminho de uma pasta primeiro."@,
        },
{
    if path.is_empty() {
        Err("Erro: Digite o caminho de uma pasta primeiro.".to_owned())
    } else {
        Ok("Buscando arquivos de áudio...".to_owned())
    }
}

/// The status after a search that found `count` files.
pub fn search_done_message(count: usize) -> (r: String)
    ensures
        r@ == "Busca concluída: "@ + decimal(count as nat) + " arquivo(s) encontrado(s)."@,
{
    "Busca concluída: ".to_owned().concat(decimal_text(count).as_str()).concat(
        " arquivo(s) encontrado(s).",
    )
}

/// The audio files of the pairs found, in order: what a batch renders.
pub fn audio_files(pairs: &Vec<Caminhos>) -> (r: Vec<String>)
    ensures
        r.deep_view() == pairs@.map_values(|c: Caminhos| c@.audio),
{
    let mut files: Vec<String> = Vec::new();
    let mut i: usize = 0;
    while i < pairs.len()
        invariant
            i <= pairs@.len(),
            files@.len() == i,
            forall|j: int| 0 <= j < i ==> (#[trigger] files@[j])@ == pairs@[j]@.audio,
        decreases pairs@.len() - i,
    {
        let a = pairs[i].audio.clone();
        files.push(a);
        i = i + 1;
    }
    assert(files.deep_view() =~= pairs@.map_values(|c: Caminhos| c@.audio)) by {
        assert forall|j: int| 0 <= j < files@.len() implies files.deep_view()[j]
            == pairs@.map_values(|c: Caminhos| c@.audio)[j] by {
            assert((files@[j])@ == pairs@[j]@.audio);
        }
    }
    files
}

/// Whether a batch may be started: none is running and there are files.
pub fn can_render(is_processing: bool, file_count: usize) -> (r: bool)
    ensures
        r == (!is_processing && file_count > 0),
{
    !is_processing && file_count > 0
}

/// The name under which a file is shown: the last component of its path, or
/// nothing.
pub open spec fn display_name(path: Seq<char>) -> Seq<char> {
    match file_name_of(path) {
        Some(n) => n,
        None => Seq::empty(),
    }
}

/// The name under which a file is shown.
pub fn shown_name(path: &str) -> (r: String)
    ensures
        r@ == display_name(path@),
{
    match file_name(path) {
        Some(n) => n,
        None => String::new(),
    }
}

/// A batch of renders: the files, how many were rendered, and how many of
/// those renders succeeded.
pub struct Batch {
    files: Vec<String>,
    done: usize,
    successes: usize,
}

pub struct BatchView {
    pub files: Seq<Seq<char>>,
    pub done: nat,
    pub successes: nat,
}

impl View for Batch {
    type V = BatchView;

    closed spec fn view(&self) -> BatchView {
        BatchView { files: self.files.deep_view(), done: self.done as nat, successes: self.successes as nat }
    }
}

/// The batch after one more render, which succeeded or not.
pub open spec fn after_render(b: BatchView, success: bool) -> BatchView {
    BatchView {
        files: b.files,
        done: b.done + 1,
        successes: if success {
            b.successes + 1
        } else {
            b.successes
        },
    }
}

/// Counts never go wrong: no more successes than renders, no more renders
/// than files.
pub open spec fn counts_ok(b: BatchView) -> bool {
    b.successes <= b.done <= b.files.len()
}

impl Batch {
    #[verifier::type_invariant]
    spec fn counts_in_order(self) -> bool {
        self.successes <= self.done <= self.files.len()
    }

    /// A batch over the files, none rendered yet.
    pub fn new(files: Vec<String>) -> (b: Batch)
        ensures
            b@ == (BatchView { files: files.deep_view(), done: 0, successes: 0 }),
    {
        Batch { files, done: 0, successes: 0 }
    }

    /// The file to render next, or nothing when all were rendered.
    pub fn next_file(&self) -> (r: Option<String>)
        ensures
            counts_ok(self@),
            match r {
                Some(f) => self@.done < self@.files.len() && f@ == self@.files[self@.done as int],
                None => self@.done == self@.files.len(),
            },
    {
        proof {
            use_type_invariant(self);
        }
        if self.done < self.files.len() {
            Some(self.files[self.done].clone())
        } else {
            None
        }
    }

    /// The status shown while the next file renders.
    pub fn progress_message(&self) -> (r: String)
        requires
            self@.done < self@.files.len(),
        ensures
            r@ == "Renderizando "@ + decimal(self@.done + 1) + "/"@ + decimal(self@.files.len())
                + " ("@ + display_name(self@.files[self@.done as int]) + ")..."@,
    {
        proof {
            use_type_invariant(self);
        }
        let name = shown_name(self.files[self.done].as_str());
        "Renderizando ".to_owned().concat(decimal_text(self.done + 1).as_str()).concat("/").concat(
            decimal_text(self.files.len()).as_str(),
        ).concat(" (").concat(name.as_str()).concat(")...")
    }

    /// Counts the render of the next file.
    pub fn record(&mut self, success: bool)
        requires
            old(self)@.done < old(self)@.files.len(),
        ensures
            final(self)@ == after_render(old(self)@, success),
            counts_ok(final(self)@),
    {
        proof {
            use_type_invariant(&*self);
        }
        self.done = self.done + 1;
        if success {
            self.successes = self.successes + 1;
        }
    }

    /// The status shown when the batch is over.
    pub fn summary(&self) -> (r: String)
        ensures
            r@ == "Lote concluído! "@ + decimal(self@.successes) + "/"@ + decimal(self@.files.len())
                + " vídeos gerados com sucesso."@,
    {
        "Lote concluído! ".to_owned().concat(decimal_text(self.successes).as_str()).concat("/").concat(
            decimal_text(self.files.len()).as_str(),
        ).concat(" vídeos gerados com sucesso.")
    }
}


/// The number of successful renders among the results.
pub open spec fn count_successes(results: Seq<bool>) -> nat
    decreases results.len(),
{
    if results.len() == 0 {
        0
    } else {
        count_successes(results.drop_last()) + if results.last() {
            1nat
        } else {
            0nat
        }
    }
}

/// The batch after the renders whose results are given, in order.
pub open spec fn after_renders(b: BatchView, results: Seq<bool>) -> BatchView
    decreases results.len(),
{
    if results.len() == 0 {
        b
    } else {
        after_render(after_renders(b, results.drop_last()), results.last())
    }
}

/// A batch that rendered some of its files counts each of them once and
/// exactly its successful ones, so its summary reports the number of
/// successful renders out of all its files.
pub proof fn lemma_batch_counts_successes(files: Seq<Seq<char>>, results: Seq<bool>)
    requires
        results.len() <= files.len(),
    ensures
        after_renders(BatchView { files, done: 0, successes: 0 }, results) == (BatchView {
            files,
            done: results.len(),
            successes: count_successes(results),
        }),
        count_successes(results) <= results.len(),
    decreases results.len(),
{
    if results.len() > 0 {
        lemma_batch_counts_successes(files, results.drop_last());
    }
}

/// The colour presets of FFmpeg's `pseudocolor` filter that the spectrogram
/// can be coloured with, in the order in which they are offered.
pub open spec fn preset_names() -> Seq<Seq<char>> {
    seq![
        "magma"@,
        "inferno"@,
        "plasma"@,
        "viridis"@,
        "turbo"@,
        "cividis"@,
        "range1"@,
        "range2"@,
        "shadows"@,
        "highlights"@,
        "solar"@,
        "nominal"@,
        "preferred"@,
        "total"@,
        "spectral"@,
        "cool"@,
        "heat"@,
        "fiery"@,
        "blues"@,
        "green"@,
        "helix"@,
    ]
}

/// The colour presets on offer.
pub fn color_presets() -> (r: Vec<String>)
    ensures
        r.deep_view() == preset_names(),
{
    let names: [&str; 21] = [
        "magma",
        "inferno",
        "plasma",
        "viridis",
        "turbo",
        "cividis",
        "range1",
        "range2",
        "shadows",
        "highlights",
        "solar",
        "nominal",
        "preferred",
        "total",
        "spectral",
        "cool",
        "heat",
        "fiery",
        "blues",
        "green",
        "helix",
    ];
    let mut r: Vec<String> = Vec::new();
    let mut i: usize = 0;
    while i < 21
        invariant
            i <= 21,
            names@ == seq![
                "magma",
                "inferno",
                "plasma",
                "viridis",
                "turbo",
                "cividis",
                "range1",
                "range2",
                "shadows",
                "highlights",
                "solar",
                "nominal",
                "preferred",
                "total",
                "spectral",
                "cool",
                "heat",
                "fiery",
                "blues",
                "green",
                "helix",
            ],
            r@.len() == i,
            forall|j: int| 0 <= j < i ==> (#[trigger] r@[j])@ == names@[j]@,
        decreases 21 - i,
    {
        r.push(names[i].to_owned());
        i = i + 1;
    }
    assert(r.deep_view() =~= preset_names()) by {
        assert forall|j: int| 0 <= j < 21 implies r.deep_view()[j] == preset_names()[j] by {
            assert((r@[j])@ == names@[j]@);
        }
    }
    r
}

pub open spec fn ascii_upper(c: char) -> char {
    if 'a' <= c && c <= 'z' {
        ((c as u32) - 32) as char
    } else {
        c
    }
}

/// The label of a preset in the list: its name with the first letter in
/// upper case. The name starts with an ASCII character.
pub fn preset_label(preset: &str) -> (r: String)
    requires
        preset@.len() > 0,
        (preset@[0] as u32) < 128,
    ensures
        r@ == seq![ascii_upper(preset@[0])] + preset@.drop_first(),
{
    let c = preset.get_char(0);
    let upper = if 'a' <= c && c <= 'z' {
        ((c as u8) - 32) as char
    } else {
        c
    };
    let rest = preset.substring_char(1, preset.unicode_len());
    assert(preset@.subrange(1, preset@.len() as int) == preset@.drop_first());
    char_text(upper).concat(rest)
}

} // verus!
