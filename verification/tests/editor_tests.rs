use rs2br_engine::assets::AssetNode;
use rs2br_engine::editor::{
    asset_matches_filter, component_badges, dedupe_warnings, entity_icon, infer_status_level,
    matches_filter, matches_scope_filter, normalize_animator_frames, quick_filters,
    scene_has_main_camera, AssetBrowserFilter, EditorStatusLevel, EditorWarning,
    EditorWarningKind, InputSnapshot,
};
use rs2br_engine::hierarchy::{
    count_entities, count_scripts, find_entity, remove_entity_by_id, set_grounded, ComponentKind, EntityNode,
};

fn entity(id: &str, components: Vec<ComponentKind>, children: Vec<EntityNode>) -> EntityNode {
    EntityNode {
        id: id.to_string(),
        name: format!("Nome {}", id),
        prefab_source: None,
        components,
        children,
    }
}

fn sample_scene() -> Vec<EntityNode> {
    vec![
        entity("cam", vec![ComponentKind::Transform, ComponentKind::Camera2D { is_main: true }], vec![]),
        entity(
            "player",
            vec![ComponentKind::Transform, ComponentKind::Sprite, ComponentKind::Script],
            vec![
                entity("arma", vec![ComponentKind::LuaScript], vec![]),
                entity("sombra", vec![], vec![entity("x", vec![ComponentKind::Script], vec![])]),
            ],
        ),
    ]
}

#[test]
fn status_levels_from_messages() {
    assert_eq!(infer_status_level("  ❌ falhou"), EditorStatusLevel::Error);
    assert_eq!(infer_status_level("ERRO ao salvar"), EditorStatusLevel::Error);
    assert_eq!(infer_status_level("⚠ cuidado"), EditorStatusLevel::Warning);
    assert_eq!(infer_status_level("✅ salvo"), EditorStatusLevel::Success);
    assert_eq!(infer_status_level("✔ ok"), EditorStatusLevel::Success);
    assert_eq!(infer_status_level("📥 Sprite importado"), EditorStatusLevel::Info);
    assert_eq!(infer_status_level(""), EditorStatusLevel::Info);
}

#[test]
fn duplicate_warnings_are_dropped() {
    let w = |k: EditorWarningKind, l: &str, d: &str| EditorWarning { kind: k, label: l.to_string(), details: d.to_string() };
    let mut list = vec![
        w(EditorWarningKind::Sprite, "a", "x"),
        w(EditorWarningKind::Script, "a", "x"),
        w(EditorWarningKind::Sprite, "a", "x"),
        w(EditorWarningKind::Sprite, "a", "y"),
    ];
    dedupe_warnings(&mut list);
    assert_eq!(list.len(), 3);
    assert_eq!(list[0].kind, EditorWarningKind::Sprite);
    assert_eq!(list[1].kind, EditorWarningKind::Script);
    assert_eq!(list[2].details, "y");
}

#[test]
fn asset_filters() {
    assert!(asset_matches_filter("HERO.PNG", AssetBrowserFilter::Images));
    assert!(!asset_matches_filter("hero.gif", AssetBrowserFilter::Images));
    assert!(asset_matches_filter("a.Lua", AssetBrowserFilter::Scripts));
    assert!(asset_matches_filter("a.scene.json", AssetBrowserFilter::Scenes));
    assert!(!asset_matches_filter("a.SCENE.json", AssetBrowserFilter::Scenes));
    assert!(asset_matches_filter("a.matr.json", AssetBrowserFilter::Prefabs));
    assert!(asset_matches_filter("a.MP3", AssetBrowserFilter::Audio));
    assert!(asset_matches_filter("a.ttf", AssetBrowserFilter::Fonts));
    assert!(asset_matches_filter("qualquer", AssetBrowserFilter::All));
    assert!(matches_scope_filter("Heroi.png", false, " HER ", AssetBrowserFilter::Images));
    assert!(!matches_scope_filter("Heroi.png", false, "vil", AssetBrowserFilter::All));
    assert!(matches_scope_filter("sprites", true, "", AssetBrowserFilter::Audio));
    let filters = quick_filters();
    assert_eq!(filters[0], ("Todos", AssetBrowserFilter::All));
    assert_eq!(filters[5], ("Áudio", AssetBrowserFilter::Audio));
}

#[test]
fn filter_looks_into_children() {
    let leaf = |n: &str| AssetNode { name: n.to_string(), path: format!("assets/x/{}", n), is_dir: false, children: vec![] };
    let tree = AssetNode {
        name: "x".to_string(),
        path: "assets/x".to_string(),
        is_dir: true,
        children: vec![leaf("a.png"), leaf("musica.ogg")],
    };
    assert!(matches_filter(&tree, "musica", AssetBrowserFilter::Audio));
    assert!(!matches_filter(&tree, "nada", AssetBrowserFilter::All));
    assert!(matches_filter(&tree, "", AssetBrowserFilter::Fonts));
}

#[test]
fn animator_frames_are_split_and_cleaned() {
    assert_eq!(
        normalize_animator_frames("\"assets/a.png\" assets/b.png;assets/c.png\r\n 'idle' ,,"),
        vec!["assets/a.png", "assets/b.png", "assets/c.png", "idle"]
    );
    assert_eq!(normalize_animator_frames("frame um, frame dois"), vec!["frame um", "frame dois"]);
    assert!(normalize_animator_frames(" ; , ").is_empty());
}

#[test]
fn entity_counts_and_lookup() {
    let scene = sample_scene();
    assert_eq!(count_entities(&scene), 5);
    assert_eq!(count_scripts(&scene), 3);
    assert_eq!(find_entity(&scene, "x").map(|e| e.name.as_str()), Some("Nome x"));
    assert!(find_entity(&scene, "nada").is_none());
    assert!(scene_has_main_camera(&scene));
    assert!(!scene_has_main_camera(&scene[1..]));
}

#[test]
fn entity_removal_searches_depth_first() {
    let mut scene = sample_scene();
    assert!(remove_entity_by_id(&mut scene, "x"));
    assert_eq!(count_entities(&scene), 4);
    assert!(find_entity(&scene, "x").is_none());
    assert!(remove_entity_by_id(&mut scene, "cam"));
    assert_eq!(scene[0].id, "player");
    assert!(!remove_entity_by_id(&mut scene, "cam"));
    assert_eq!(count_entities(&scene), 3);
}

#[test]
fn icons_and_badges() {
    let scene = sample_scene();
    assert_eq!(entity_icon(&scene[0]), "📷");
    assert_eq!(entity_icon(&scene[1]), "🖼");
    assert_eq!(entity_icon(&scene[1].children[1]), "📦");
    assert_eq!(entity_icon(&scene[1].children[0]), "🔷");
    assert_eq!(component_badges(&scene[1]), "Sprite • Script");
    let mut prefab = entity("p", vec![ComponentKind::BoxCollider { is_trigger: true }], vec![]);
    prefab.prefab_source = Some("assets/prefabs/p.prefab.json".to_string());
    assert_eq!(entity_icon(&prefab), "🧱");
    assert_eq!(component_badges(&prefab), "MATR • Trigger");
    assert_eq!(component_badges(&entity("t", vec![ComponentKind::Transform], vec![])), "");
}

#[test]
fn input_snapshot_ignores_case() {
    let snap = InputSnapshot { held: vec!["Space".to_string(), "A".to_string()], pressed: vec!["Enter".to_string()] };
    assert!(snap.key_held("space"));
    assert!(snap.key_held("a"));
    assert!(!snap.key_held("W"));
    assert!(snap.key_pressed("ENTER"));
    assert!(!snap.key_pressed("Space"));
}

#[test]
fn component_names_for_the_inspector() {
    assert_eq!(ComponentKind::Camera2D { is_main: false }.display_name(), "Camera 2D");
    assert_eq!(ComponentKind::BoxCollider { is_trigger: true }.display_name(), "Box Collider");
    assert_eq!(ComponentKind::Script.display_name(), "Script RS2");
    assert_eq!(ComponentKind::LuaScript.display_name(), "Script Lua");
    assert_eq!(ComponentKind::UIButton.display_name(), "UI Button");
}

#[test]
fn removing_an_absent_id_changes_nothing() {
    let mut scene = sample_scene();
    let before = count_entities(&scene);
    assert!(!remove_entity_by_id(&mut scene, "nao_existe"));
    assert_eq!(count_entities(&scene), before);
}

#[test]
fn scope_listing_ignores_case_and_puts_folders_first() {
    let entry = |name: &str, is_dir: bool| rs2br_engine::editor::ScopeEntry {
        path: format!("assets/{}", name),
        name: name.to_string(),
        is_dir,
    };
    let sorted = rs2br_engine::editor::sort_scope_entries(vec![
        entry("b.png", false),
        entry("Zeta", true),
        entry("A.png", false),
        entry("alpha", true),
        entry("Ávila.png", false),
    ]);
    let names: Vec<&str> = sorted.iter().map(|e| e.name.as_str()).collect();
    assert_eq!(names, vec!["alpha", "Zeta", "A.png", "b.png", "Ávila.png"]);
}

#[test]
fn scope_listing_keeps_the_order_of_names_equal_but_for_case() {
    let entry = |name: &str| rs2br_engine::editor::ScopeEntry {
        path: name.to_string(),
        name: name.to_string(),
        is_dir: false,
    };
    let first = rs2br_engine::editor::sort_scope_entries(vec![entry("b"), entry("a.PNG"), entry("A.png")]);
    let names: Vec<&str> = first.iter().map(|e| e.name.as_str()).collect();
    assert_eq!(names, vec!["a.PNG", "A.png", "b"]);
    let second = rs2br_engine::editor::sort_scope_entries(vec![entry("A.png"), entry("b"), entry("a.PNG")]);
    let names: Vec<&str> = second.iter().map(|e| e.name.as_str()).collect();
    assert_eq!(names, vec!["A.png", "a.PNG", "b"]);
}

#[test]
fn held_keys_give_the_movement_axes() {
    let snap = InputSnapshot {
        held: vec!["a".to_string(), "W".to_string(), "Right".to_string(), "Left".to_string(), "Down".to_string()],
        pressed: vec![],
    };
    assert_eq!(snap.player_axis(), (-1, 1));
    assert_eq!(snap.camera_axis(), (0, -1));
    let none = InputSnapshot { held: vec![], pressed: vec![] };
    assert_eq!(none.player_axis(), (0, 0));
    let both = InputSnapshot { held: vec!["D".to_string(), "S".to_string()], pressed: vec![] };
    assert_eq!(both.player_axis(), (1, -1));
}

#[test]
fn counts_add_up_over_parts_of_the_scene() {
    let mut whole = sample_scene();
    let tail = whole.split_off(1);
    let head = whole;
    let joined = sample_scene();
    assert_eq!(count_entities(&joined), count_entities(&head) + count_entities(&tail));
    assert_eq!(count_scripts(&joined), count_scripts(&head) + count_scripts(&tail));
    assert_eq!(count_entities(&[]), 0);
    let player = sample_scene().remove(1);
    let children_count = count_entities(&player.children);
    assert_eq!(count_entities(&[player]), 1 + children_count);
}

#[test]
fn grounding_marks_every_rigid_body() {
    let mut e = entity(
        "p",
        vec![ComponentKind::Transform, ComponentKind::RigidBody2D { grounded: false }, ComponentKind::RigidBody2D { grounded: true }],
        vec![entity("c", vec![ComponentKind::RigidBody2D { grounded: false }], vec![])],
    );
    set_grounded(&mut e, true);
    assert_eq!(
        e.components,
        vec![ComponentKind::Transform, ComponentKind::RigidBody2D { grounded: true }, ComponentKind::RigidBody2D { grounded: true }]
    );
    assert_eq!(e.children[0].components, vec![ComponentKind::RigidBody2D { grounded: false }]);
    set_grounded(&mut e, false);
    assert_eq!(e.components[1], ComponentKind::RigidBody2D { grounded: false });
    assert_eq!(e.id, "p");
}
