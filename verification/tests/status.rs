use sve::scanner::Caminhos;
use sve::status::{
    audio_files, can_render, color_presets, idle_message, preset_label, search_done_message,
    search_start, shown_name, Batch,
};

#[test]
fn search_messages() {
    assert_eq!(idle_message(), "Aguardando ação...");
    assert_eq!(search_start(""), Err("Erro: Digite o caminho de uma pasta primeiro.".to_string()));
    assert_eq!(search_start("/music"), Ok("Buscando arquivos de áudio...".to_string()));
    assert_eq!(search_done_message(3), "Busca concluída: 3 arquivo(s) encontrado(s).");
    assert_eq!(search_done_message(0), "Busca concluída: 0 arquivo(s) encontrado(s).");
    assert_eq!(search_done_message(1234), "Busca concluída: 1234 arquivo(s) encontrado(s).");
}

#[test]
fn batch_reports_progress_and_counts_successes() {
    let mut b = Batch::new(vec!["m/a/one.mp3".to_string(), "m/b/two.mp3".to_string(), "m/c/three.mp3".to_string()]);
    assert_eq!(b.next_file(), Some("m/a/one.mp3".to_string()));
    assert_eq!(b.progress_message(), "Renderizando 1/3 (one.mp3)...");
    b.record(true);
    assert_eq!(b.next_file(), Some("m/b/two.mp3".to_string()));
    assert_eq!(b.progress_message(), "Renderizando 2/3 (two.mp3)...");
    b.record(false);
    assert_eq!(b.progress_message(), "Renderizando 3/3 (three.mp3)...");
    b.record(true);
    assert_eq!(b.next_file(), None);
    let odd = Batch::new(vec!["dir/..".to_string()]);
    assert_eq!(odd.progress_message(), "Renderizando 1/1 ()...");
    assert_eq!(b.summary(), "Lote concluído! 2/3 vídeos gerados com sucesso.");
}

#[test]
fn empty_batch_summary() {
    let b = Batch::new(vec![]);
    assert_eq!(b.next_file(), None);
    assert_eq!(b.summary(), "Lote concluído! 0/0 vídeos gerados com sucesso.");
}

#[test]
fn render_button_state() {
    assert!(can_render(false, 2));
    assert!(!can_render(true, 2));
    assert!(!can_render(false, 0));
}

#[test]
fn audio_files_of_pairs() {
    let pairs = vec![
        Caminhos { sonograma: "a/x.png".to_string(), audio: "a/x.mp3".to_string() },
        Caminhos { sonograma: "b/y.png".to_string(), audio: "b/y.mp3".to_string() },
    ];
    assert_eq!(audio_files(&pairs), vec!["a/x.mp3".to_string(), "b/y.mp3".to_string()]);
}

#[test]
fn presets_and_labels() {
    let p = color_presets();
    assert_eq!(p.len(), 21);
    assert_eq!(p[0], "magma");
    assert_eq!(p[20], "helix");
    assert_eq!(preset_label("magma"), "Magma");
    assert_eq!(preset_label("range1"), "Range1");
    assert_eq!(preset_label("1x"), "1x");
    assert_eq!(preset_label("z"), "Z");
    assert_eq!(preset_label("Cool"), "Cool");
}

#[test]
fn shown_names() {
    assert_eq!(shown_name("music/a/track.mp3"), "track.mp3");
    assert_eq!(shown_name("track.mp3"), "track.mp3");
    assert_eq!(shown_name("/"), "");
}
