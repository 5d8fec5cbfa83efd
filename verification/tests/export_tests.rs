use rs2br_engine::export::{
    build_cache_dir_name, detect_bin_name, export_bundle_stem, export_readme, game_exe_name,
    preflight_standalone_toolchain,
};
use rs2br_engine::names::{default_scene_file_name, sanitize_filename, sanitize_scene_name, startup_message, texture_cache_key};
use rs2br_engine::project::ProjectConfig;

#[test]
fn bin_name_prefers_bin_section() {
    let toml = "[package]\nname = \"rs2br-engine-lib\"\n\n[[bin]]\nname = \"rs2br-engine\"\npath = \"src/main.rs\"\n";
    assert_eq!(detect_bin_name(toml), Some("rs2br-engine".to_string()));
    let only_package = "[package]\r\nname = \"jogo\"\r\nversion = \"0.1.0\"\r\n";
    assert_eq!(detect_bin_name(only_package), Some("jogo".to_string()));
    assert_eq!(detect_bin_name("[package]\nversion = \"1\"\n"), None);
    assert_eq!(detect_bin_name("[[bin]]\nnamespace\nname = \"x\"\n"), None);
    assert_eq!(detect_bin_name("[[bin]]\n[deps]\nname = \"y\"\n"), Some("y".to_string()));
}

#[test]
fn preflight_needs_a_way_to_build() {
    assert!(preflight_standalone_toolchain(true, false).is_ok());
    assert!(preflight_standalone_toolchain(false, true).is_ok());
    assert!(preflight_standalone_toolchain(false, false).unwrap_err().starts_with("Rust/Cargo não encontrado"));
}

#[test]
fn export_names() {
    assert_eq!(export_bundle_stem(Some("Meu Jogo!"), "x"), "Meu_Jogo_");
    assert_eq!(export_bundle_stem(Some(""), "Projeto 1"), "Projeto_1");
    assert_eq!(export_bundle_stem(None, "Ação"), "Ação");
    assert_eq!(game_exe_name("jogo", true), "jogo.exe");
    assert_eq!(game_exe_name("jogo", false), "jogo");
    assert_eq!(build_cache_dir_name("a b", 1700000000123), ".rs2br_build_cache_a_b_1700000000123");
    let readme = export_readme("P", "main.scene.json", "p.exe", true);
    assert!(readme.starts_with("RS2BR Engine - Build Standalone PC\n\nProjeto: P\nCena inicial: main.scene.json"));
    assert!(readme.contains("Modo: Runtime pré-compilado"));
    assert!(readme.contains("2. Execute p.exe."));
}

#[test]
fn names_for_files() {
    assert_eq!(sanitize_filename("Fase 1: início"), "Fase_1__início");
    assert_eq!(sanitize_scene_name("***"), "scene");
    assert_eq!(sanitize_scene_name("Fase-2"), "Fase-2");
    assert_eq!(texture_cache_key("  sprites\\hero.png "), "sprites/hero.png");
    assert_eq!(startup_message(), "RS2BR-Engine V0.9.0 [V0.9 - MVP]");
}

#[test]
fn default_project_config() {
    let c = ProjectConfig::default();
    assert_eq!(c.name, "RS2BR Project");
    assert_eq!(c.initial_scene, "assets/scenes/main.scene.json");
    assert_eq!(c.engine_version, "V0.9.0");
}

#[test]
fn scenes_are_saved_under_their_sanitized_name() {
    assert_eq!(default_scene_file_name("Fase 1"), "Fase_1.scene.json");
    assert_eq!(default_scene_file_name("///"), "scene.scene.json");
}
