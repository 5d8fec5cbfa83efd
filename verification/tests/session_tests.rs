use rs2br_engine::editor::ProjectHubSession;
use rs2br_engine::editor::DeleteTarget;
use rs2br_engine::hierarchy::{ComponentKind, EntityNode};
use rs2br_engine::session::{
    delete_request, find_tab_by_path, rename_entity_request, scene_tab_name, EntitySelection, OpenSceneDocument, SceneEditor, SceneHistory, SceneTabs, SceneWorkspace,
};

#[test]
fn toggling_selection_adds_and_removes() {
    let mut s = EntitySelection::new();
    s.select_single_entity(Some("a".to_string()));
    s.toggle_entity_selection("b".to_string());
    assert_eq!(s.selected_entity_ids, vec!["a".to_string(), "b".to_string()]);
    assert_eq!(s.selected_entity_id.as_deref(), Some("b"));
    assert!(s.is_entity_selected("a"));
    s.toggle_entity_selection("b".to_string());
    assert_eq!(s.selected_entity_ids, vec!["a".to_string()]);
    assert_eq!(s.selected_entity_id.as_deref(), Some("a"));
    s.toggle_entity_selection("a".to_string());
    assert!(s.selected_entity_ids.is_empty());
    assert_eq!(s.selected_entity_id, None);
    assert!(!s.is_entity_selected("a"));
    s.select_single_entity(None);
    s.clear_entity_selection();
    assert!(s.selected_entity_ids.is_empty());
}

#[test]
fn undo_then_redo_restores_the_scene() {
    let mut h: SceneHistory<u32> = SceneHistory::new();
    assert_eq!(h.undo_scene(5), Err(5));
    h.push_undo_state(1);
    h.push_undo_state(2);
    let prev = h.undo_scene(3).unwrap();
    assert_eq!(prev, 2);
    assert_eq!(h.redo_scene(prev), Ok(3));
    assert_eq!(h.undo_stack, vec![1, 2]);
    assert!(h.redo_stack.is_empty());
    assert_eq!(h.redo_scene(9), Err(9));
    for i in 0..100u32 {
        h.push_undo_state(i);
    }
    assert_eq!(h.undo_stack.len(), 64);
    assert_eq!(h.undo_stack[0], 36);
    assert_eq!(*h.undo_stack.last().unwrap(), 99);
}

#[test]
fn closing_tabs_keeps_one_open() {
    let mut t = SceneTabs { open_scenes: vec!["a", "b", "c"], active_scene_index: 2 };
    assert!(t.close_scene_tab(2));
    assert_eq!(t.open_scenes, vec!["a", "b"]);
    assert_eq!(t.active_scene_index, 1);
    assert!(!t.close_scene_tab(5));
    assert!(t.close_scene_tab(0));
    assert_eq!(t.open_scenes, vec!["b"]);
    assert_eq!(t.active_scene_index, 0);
    assert!(!t.close_scene_tab(0));
    assert!(t.activate_scene_tab(0));
    assert!(!t.activate_scene_tab(1));
}

#[test]
fn tab_names_come_from_the_file() {
    assert_eq!(scene_tab_name(Some("fase_1.scene.json"), "Fase"), "fase_1");
    assert_eq!(scene_tab_name(Some(".scene.json"), "Fase"), "Fase");
    assert_eq!(scene_tab_name(Some("a.scene.scene.json"), "Fase"), "a");
    assert_eq!(scene_tab_name(Some("menu.json"), "Fase"), "menu");
    assert_eq!(scene_tab_name(None, "Fase"), "Fase");
}

#[test]
fn recent_projects_keep_the_latest_first() {
    let mut s = ProjectHubSession { last_project: None, recent_projects: Vec::new() };
    for i in 0..10 {
        s.register_recent_project(&format!("/p/{}", i));
    }
    assert_eq!(s.recent_projects.len(), 8);
    assert_eq!(s.recent_projects[0], "/p/9");
    assert_eq!(s.recent_projects[7], "/p/2");
    s.register_recent_project("/p/5");
    assert_eq!(s.recent_projects[0], "/p/5");
    assert_eq!(s.recent_projects.iter().filter(|p| p.as_str() == "/p/5").count(), 1);
    assert_eq!(s.recent_projects.len(), 8);
    assert_eq!(s.last_project.as_deref(), Some("/p/5"));
}

fn node(id: &str, name: &str, children: Vec<EntityNode>) -> EntityNode {
    EntityNode {
        id: id.to_string(),
        name: name.to_string(),
        prefab_source: None,
        components: vec![ComponentKind::Transform],
        children,
    }
}

#[test]
fn delete_requests_name_what_they_delete() {
    let scene = vec![node("1", "Heroi", vec![node("2", "Espada", Vec::new())]), node("3", "Chao", Vec::new())];
    let mut sel = EntitySelection::new();
    assert_eq!(delete_request(&sel, &scene, None).unwrap_err(), "Nada selecionado para deletar.");
    match delete_request(&sel, &scene, Some(("assets/sprites/a.png", Some("a.png")))).unwrap() {
        DeleteTarget::Asset { path, label } => {
            assert_eq!(path, "assets/sprites/a.png");
            assert_eq!(label, "a.png");
        }
        _ => panic!("esperava um asset"),
    }
    sel.select_single_entity(Some("2".to_string()));
    match delete_request(&sel, &scene, None).unwrap() {
        DeleteTarget::Entities { ids, label } => {
            assert_eq!(ids, vec!["2".to_string()]);
            assert_eq!(label, "a entidade 'Espada'");
        }
        _ => panic!("esperava entidades"),
    }
    sel.toggle_entity_selection("3".to_string());
    sel.toggle_entity_selection("9".to_string());
    match delete_request(&sel, &scene, None).unwrap() {
        DeleteTarget::Entities { ids, label } => {
            assert_eq!(ids.len(), 3);
            assert_eq!(label, "3 entidades selecionadas");
        }
        _ => panic!("esperava entidades"),
    }
    let only_missing = EntitySelection { selected_entity_id: Some("9".to_string()), selected_entity_ids: Vec::new() };
    match delete_request(&only_missing, &scene, None).unwrap() {
        DeleteTarget::Entities { label, .. } => assert_eq!(label, "a entidade 'Entidade'"),
        _ => panic!("esperava entidades"),
    }
    assert_eq!(
        rename_entity_request(&only_missing, &scene),
        Some(("9".to_string(), "Entidade".to_string()))
    );
    assert_eq!(rename_entity_request(&EntitySelection::new(), &scene), None);
}

#[test]
fn tabs_are_found_by_path_ignoring_separators_and_case() {
    let tabs = vec![None, Some("C:\\Jogo\\Fase1.scene.json".to_string()), Some("c:/jogo/fase1.scene.json".to_string())];
    assert_eq!(find_tab_by_path(&tabs, "c:/JOGO/fase1.scene.json"), Some(1));
    assert_eq!(find_tab_by_path(&tabs, "c:/jogo/fase2.scene.json"), None);
}

#[test]
fn new_tabs_open_last_and_edits_are_kept_in_the_active_tab() {
    let mut tabs = SceneTabs { open_scenes: vec!["fase1".to_string()], active_scene_index: 0 };
    tabs.push_scene_tab("Nova Cena".to_string());
    assert_eq!(tabs.open_scenes, vec!["fase1", "Nova Cena"]);
    assert_eq!(tabs.active_scene_index, 1);
    tabs.sync_active_scene_document("Nova Cena editada".to_string());
    assert_eq!(tabs.open_scenes, vec!["fase1", "Nova Cena editada"]);
    tabs.active_scene_index = 9;
    tabs.sync_active_scene_document("perdida".to_string());
    assert_eq!(tabs.open_scenes, vec!["fase1", "Nova Cena editada"]);
}

#[test]
fn undo_and_redo_restore_scenes_and_clear_the_selection() {
    let mut selection = EntitySelection::new();
    selection.select_single_entity(Some("e1".to_string()));
    let mut ed = SceneEditor {
        scene: "s0".to_string(),
        history: SceneHistory::new(),
        selection,
        status_msg: String::new(),
    };
    ed.redo_scene();
    assert_eq!(ed.status_msg, "Nada para refazer.");
    assert!(ed.selection.is_entity_selected("e1"));
    ed.history.push_undo_state(ed.scene.clone());
    ed.scene = "s1".to_string();
    ed.undo_scene();
    assert_eq!(ed.scene, "s0");
    assert_eq!(ed.status_msg, "↶ Desfazer aplicado.");
    assert!(ed.selection.selected_entity_id.is_none() && ed.selection.selected_entity_ids.is_empty());
    assert_eq!(ed.history.redo_stack, vec!["s1"]);
    ed.selection.select_single_entity(Some("e2".to_string()));
    ed.redo_scene();
    assert_eq!(ed.scene, "s1");
    assert_eq!(ed.history.undo_stack, vec!["s0"]);
    assert!(ed.history.redo_stack.is_empty());
    assert!(ed.selection.selected_entity_id.is_none() && ed.selection.selected_entity_ids.is_empty());
    assert_eq!(ed.status_msg, "↷ Refazer aplicado.");
    ed.undo_scene();
    ed.undo_scene();
    assert_eq!(ed.status_msg, "Nada para desfazer.");
    assert_eq!(ed.scene, "s0");
}

fn doc(scene: &str, path: Option<&str>) -> OpenSceneDocument<String> {
    OpenSceneDocument { scene: scene.to_string(), file_path: path.map(|p| p.to_string()) }
}

fn workspace() -> SceneWorkspace<String> {
    let mut selection = EntitySelection::new();
    selection.select_single_entity(Some("e1".to_string()));
    SceneWorkspace {
        editor: SceneEditor {
            scene: "fase1 editada".to_string(),
            history: SceneHistory::new(),
            selection,
            status_msg: String::new(),
        },
        tabs: SceneTabs {
            open_scenes: vec![doc("fase1", Some("a/fase1.scene.json")), doc("fase2", None), doc("menu", None)],
            active_scene_index: 0,
        },
    }
}

#[test]
fn switching_tabs_keeps_the_edited_scene_and_loads_the_other() {
    let mut w = workspace();
    assert!(w.activate_scene_tab(1, |s: &String| s.to_uppercase()));
    assert_eq!(w.editor.scene, "fase2");
    assert_eq!(w.editor.status_msg, "Cena ativa: FASE2");
    assert!(w.editor.selection.selected_entity_id.is_none() && w.editor.selection.selected_entity_ids.is_empty());
    assert_eq!(w.tabs.active_scene_index, 1);
    assert_eq!(w.tabs.open_scenes[0].scene, "fase1 editada");
    assert_eq!(w.tabs.open_scenes[0].file_path.as_deref(), Some("a/fase1.scene.json"));
    assert!(w.activate_scene_tab(0, |s: &String| s.clone()));
    assert_eq!(w.editor.scene, "fase1 editada");
    assert_eq!(w.editor.status_msg, "Cena ativa: fase1 editada");
    assert!(!w.activate_scene_tab(3, |s: &String| s.clone()));
    assert_eq!(w.editor.scene, "fase1 editada");
    assert_eq!(w.tabs.active_scene_index, 0);
}

#[test]
fn closing_a_tab_keeps_the_others_and_edits_the_active_one() {
    let mut w = workspace();
    w.editor.status_msg = "antes".to_string();
    assert!(w.close_scene_tab(1));
    assert_eq!(w.tabs.open_scenes.len(), 2);
    assert_eq!(w.tabs.active_scene_index, 0);
    assert_eq!(w.editor.scene, "fase1 editada");
    assert!(w.editor.selection.selected_entity_ids.is_empty());
    assert_eq!(w.editor.status_msg, "antes");
    assert!(w.activate_scene_tab(1, |s: &String| s.clone()));
    assert_eq!(w.editor.scene, "menu");
    w.editor.scene = "menu novo".to_string();
    assert!(w.close_scene_tab(0));
    assert_eq!(w.tabs.active_scene_index, 0);
    assert_eq!(w.editor.scene, "menu novo");
    assert!(!w.close_scene_tab(0));
    assert_eq!(w.editor.scene, "menu novo");
}
