use rs2br_engine::scene_manager::{PendingSceneChange, SceneManager};

fn loader(path: &String) -> Result<String, String> {
    if path.ends_with(".scene.json") {
        Ok(format!("cena de {}", path))
    } else {
        Err(format!("Cena não encontrada: {}", path))
    }
}

#[test]
fn nothing_waiting_applies_nothing() {
    let mut m: SceneManager<String> = SceneManager::new();
    assert_eq!(m.apply_pending_change(loader), Ok(false));
    assert!(m.current_scene.is_none());
}

#[test]
fn a_waiting_file_is_loaded_and_played() {
    let mut m: SceneManager<String> = SceneManager::new();
    m.set_editor_scene("editor".to_string());
    m.change_scene("assets/scenes/fase2.scene.json".to_string());
    assert!(matches!(m.pending_scene_change, Some(PendingSceneChange::Path(_))));
    assert_eq!(m.apply_pending_change(loader), Ok(true));
    assert_eq!(m.current_scene.as_deref(), Some("cena de assets/scenes/fase2.scene.json"));
    assert_eq!(m.current_path.as_deref(), Some("assets/scenes/fase2.scene.json"));
    assert!(m.pending_scene_change.is_none());
}

#[test]
fn a_failed_load_keeps_the_playing_scene() {
    let mut m: SceneManager<String> = SceneManager::new();
    m.set_editor_scene("editor".to_string());
    m.change_scene("missing.txt".to_string());
    assert_eq!(m.apply_pending_change(loader), Err("Cena não encontrada: missing.txt".to_string()));
    assert_eq!(m.current_scene.as_deref(), Some("editor"));
    assert!(m.current_path.is_none());
    assert!(m.pending_scene_change.is_none());
}

#[test]
fn a_snapshot_is_played_as_given() {
    let mut m: SceneManager<String> = SceneManager::new();
    m.change_scene_snapshot("copia".to_string(), Some("a.scene.json".to_string()));
    assert_eq!(m.apply_pending_change(loader), Ok(true));
    assert_eq!(m.current_scene.as_deref(), Some("copia"));
    assert_eq!(m.current_path.as_deref(), Some("a.scene.json"));
}

#[test]
fn reloading_needs_a_scene_file() {
    let mut m: SceneManager<String> = SceneManager::new();
    m.set_editor_scene("editor".to_string());
    assert_eq!(m.reload_scene(loader), Err("Cena atual não veio de arquivo salvo".to_string()));
    m.finish_load("velha".to_string(), "b.scene.json".to_string());
    assert_eq!(m.reload_scene(loader), Ok(()));
    assert_eq!(m.current_scene.as_deref(), Some("cena de b.scene.json"));
    m.clear_runtime_scene();
    assert!(m.current_scene.is_none() && m.current_path.is_none());
}
