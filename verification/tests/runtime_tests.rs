use rs2br_engine::runtime::{
    ScenePlace,
    layers_interact, queue_destroy, queue_destroy_last_spawned, ColliderLayers,
    PendingDestroyRequest, RuntimeGameFlow, RuntimeGameState,
};

#[test]
fn layers_zero_sempre_interagem() {
    let make = |layer: u8, mask: u8| ColliderLayers { layer, mask };
    assert!(layers_interact(&make(0, 0), &make(0, 0)));
}

#[test]
fn layers_sem_intersecao_nao_interagem() {
    let a = ColliderLayers { layer: 0b0001, mask: 0b0001 };
    let b = ColliderLayers { layer: 0b0010, mask: 0b0010 };
    assert!(!layers_interact(&a, &b));
}

#[test]
fn layers_with_shared_bits_interact() {
    let a = ColliderLayers { layer: 0b0001, mask: 0b0010 };
    let b = ColliderLayers { layer: 0b0010, mask: 0b0100 };
    assert!(layers_interact(&a, &b));
    assert!(layers_interact(&b, &a));
    let open = ColliderLayers { layer: 0b1000, mask: 0 };
    assert!(layers_interact(&open, &b));
}

#[test]
fn destroy_queue_has_no_repeats() {
    let mut q: Vec<PendingDestroyRequest> = Vec::new();
    queue_destroy(&mut q, "a".to_string());
    queue_destroy(&mut q, "b".to_string());
    queue_destroy(&mut q, "a".to_string());
    let ids: Vec<&str> = q.iter().map(|r| r.entity_id.as_str()).collect();
    assert_eq!(ids, vec!["a", "b"]);
    assert!(queue_destroy_last_spawned(&mut q, &Some("c".to_string())));
    assert!(!queue_destroy_last_spawned(&mut q, &None));
    assert_eq!(q.len(), 3);
}

#[test]
fn game_state_starts_editing() {
    let s = RuntimeGameState::new();
    assert_eq!(s.flow, RuntimeGameFlow::Editing);
    assert_eq!(s.score, 0);
    assert!(s.loading_label.is_none());
}

#[test]
fn saved_scene_candidates_in_order() {
    let c = rs2br_engine::runtime::saved_scene_candidates("  fases\\fase1 ", false, false);
    let expected: Vec<(bool, String)> = vec![
        (false, "fases\\fase1".to_string()),
        (false, "fases/fase1".to_string()),
        (true, "fases\\fase1".to_string()),
        (true, "fases/fase1".to_string()),
        (true, "fases\\fase1.scene.json".to_string()),
        (true, "fases\\fase1.json".to_string()),
    ];
    assert_eq!(c, expected);
    let with_ext = rs2br_engine::runtime::saved_scene_candidates("/jogo/a.scene.json", true, true);
    assert_eq!(with_ext.len(), 5);
    assert_eq!(with_ext[0], (false, "/jogo/a.scene.json".to_string()));
    let dotted = rs2br_engine::runtime::saved_scene_candidates("menu.scene", false, true);
    assert_eq!(dotted.len(), 4);
    assert!(rs2br_engine::runtime::saved_scene_candidates("   ", false, false).is_empty());
}

#[test]
fn audio_is_reached_by_part_of_its_name() {
    let m = rs2br_engine::runtime::audio_matches;
    assert!(m("heroi::assets/sounds/Pulo.ogg", " pulo "));
    assert!(m("heroi::assets/sounds/Pulo.ogg", "SOUNDS/PU"));
    assert!(!m("heroi::assets/sounds/Pulo.ogg", "   "));
    assert!(!m("heroi::assets/sounds/Pulo.ogg", "tiro"));
}

#[test]
fn button_scenes_are_looked_for_in_order() {
    let c = rs2br_engine::runtime::button_scene_candidates;
    let r = c(" fases\\fase2 ", false, true).unwrap();
    let expected = vec![
        (ScenePlace::ProjectRoot, "fases/fase2".to_string()),
        (ScenePlace::CurrentSceneDir, "fases/fase2".to_string()),
        (ScenePlace::ScenesDir, "fases/fase2".to_string()),
        (ScenePlace::ProjectRoot, "fases/fase2.scene.json".to_string()),
        (ScenePlace::ScenesDir, "fases/fase2.scene.json".to_string()),
    ];
    assert_eq!(r, expected);
    assert_eq!(c("   ", false, false).unwrap_err(), "UIButton sem target_scene configurado");
    assert_eq!(c("/jogo/x.scene.json", true, true).unwrap(), vec![(ScenePlace::Absolute, "/jogo/x.scene.json".to_string())]);
    assert_eq!(c("assets/scenes/x.scene.json", false, false).unwrap().len(), 1);
    assert_eq!(rs2br_engine::runtime::button_scene_missing(" a\\b "), "Cena alvo não encontrada: a/b");
}
