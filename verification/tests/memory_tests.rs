use rs2br_engine::memory::RuntimeMemory;
use rs2br_engine::runtime::RuntimeGameFlow;
use rs2br_engine::save::{SaveData, SaveValue};

#[test]
fn new_session_keeps_the_save() {
    let mut m = RuntimeMemory::new();
    m.save_data.set_int("vidas", 3);
    m.session_set("combo", SaveValue::Int(5));
    m.script_set("heroi::a.lua", "pulos", SaveValue::Int(2));
    m.game_state.score = 40;
    m.game_state.loading_label = Some("fase".to_string());
    m.start_new_game_session();
    assert_eq!(m.save_data.get_int("vidas"), Some(3));
    assert!(!m.session_has("combo"));
    assert!(!m.script_has("heroi::a.lua", "pulos"));
    assert_eq!(m.game_state.score, 0);
    assert_eq!(m.game_state.loading_label, None);
}

#[test]
fn continuing_replaces_the_save_and_clears_temporary_state() {
    let mut m = RuntimeMemory::new();
    m.session_set("combo", SaveValue::Int(5));
    m.script_set("inimigo", "alvo", SaveValue::Text("heroi".to_string()));
    let mut loaded = SaveData::new();
    loaded.set_text("fase", "fases/fase3.scene.json".to_string());
    loaded.current_scene = Some("fases/fase3.scene.json".to_string());
    m.continue_with_save(loaded);
    assert_eq!(m.save_data.get_text("fase"), Some("fases/fase3.scene.json"));
    assert_eq!(m.save_data.current_scene.as_deref(), Some("fases/fase3.scene.json"));
    assert_eq!(m.session_get("combo"), None);
    assert_eq!(m.script_get("inimigo", "alvo"), None);
}

#[test]
fn script_values_are_scoped_and_pruned() {
    let mut m = RuntimeMemory::new();
    m.script_set("a", "x", SaveValue::Int(1));
    m.script_set("b", "x", SaveValue::Int(2));
    assert_eq!(m.script_get("a", "x"), Some(&SaveValue::Int(1)));
    assert_eq!(m.script_remove("a", "x"), Some(SaveValue::Int(1)));
    assert_eq!(m.script_remove("a", "x"), None);
    assert!(m.script_state.get("a").is_none());
    assert_eq!(m.script_get("b", "x"), Some(&SaveValue::Int(2)));
    m.clear_script_state_for_entity("b");
    assert!(m.script_state.is_empty());
    assert_eq!(m.session_remove("nada"), None);
}

#[test]
fn scene_changes_show_a_loading_label() {
    let mut m = RuntimeMemory::new();
    m.queue_scene_change("assets/scenes/b.scene.json".to_string());
    assert_eq!(m.game_state.flow, RuntimeGameFlow::Loading);
    assert_eq!(m.game_state.loading_label.as_deref(), Some("assets/scenes/b.scene.json"));
    m.queue_scene_change_snapshot(Some("   ".to_string()), "Menu");
    assert_eq!(m.game_state.loading_label.as_deref(), Some("Menu"));
    m.queue_scene_change_snapshot(Some("Carregando".to_string()), "Menu");
    assert_eq!(m.game_state.loading_label.as_deref(), Some("Carregando"));
    m.game_state.score = 9;
    m.stop();
    assert_eq!(m.game_state.flow, RuntimeGameFlow::Editing);
    assert_eq!(m.game_state.score, 0);
}

#[test]
fn saving_records_where_the_game_is() {
    let mut m = RuntimeMemory::new();
    m.record_scene_for_save(Some("assets\\scenes\\fase2.scene.json"), Some("Fase 2"));
    assert_eq!(m.save_data.current_scene.as_deref(), Some("assets/scenes/fase2.scene.json"));
    m.record_scene_for_save(None, Some("Fase 2"));
    assert_eq!(m.save_data.current_scene.as_deref(), Some("Fase 2"));
    m.record_scene_for_save(None, None);
    assert_eq!(m.save_data.current_scene.as_deref(), Some("Fase 2"));
    let mut other = SaveData::new();
    other.set_bool("chefe", true);
    m.load_save(other);
    assert_eq!(m.save_data.get_bool("chefe"), Some(true));
    m.reset_save();
    assert!(!m.save_data.has("chefe"));
    assert_eq!(m.save_data.version, 1);
}
