use rs2br_engine::assets::relative_asset_path;
use rs2br_engine::assets::{is_image_file, is_lua_file, is_matr_file, is_rs2_file};
use rs2br_engine::assets::{
    copy_candidate_name, copy_fallback_name, detect_asset_kind, detect_asset_type,
    detect_load_status_with_validation, import_candidate_name, is_lua_script_file,
    is_rs2_script_file, rename_target_name, sanitize_asset_name, AssetKind, AssetLoadStatus,
    AssetNode, AssetType, AssetValidation,
};

#[test]
fn sanitize_asset_name_removes_invalid_chars() {
    assert_eq!(sanitize_asset_name(" Meu asset?.png "), "Meu_asset.png");
}

#[test]
fn sanitize_asset_name_falls_back_when_nothing_is_left() {
    assert_eq!(sanitize_asset_name("   "), "novo_asset");
    assert_eq!(sanitize_asset_name("???"), "novo_asset");
    assert_eq!(sanitize_asset_name("ação final"), "ao_final");
}

#[test]
fn asset_kinds_follow_names() {
    assert_eq!(detect_asset_kind("fase.scene.json", false), AssetKind::Scene);
    assert_eq!(detect_asset_kind("FASE.SCENE.JSON", false), AssetKind::Scene);
    assert_eq!(detect_asset_kind("heroi.matr.json", false), AssetKind::Prefab);
    assert_eq!(detect_asset_kind("heroi.prefab.json", false), AssetKind::Prefab);
    assert_eq!(detect_asset_kind("jogador.RS2", false), AssetKind::ScriptRs2);
    assert_eq!(detect_asset_kind("ia.lua", false), AssetKind::ScriptLua);
    assert_eq!(detect_asset_kind("hero.PNG", false), AssetKind::Sprite);
    assert_eq!(detect_asset_kind("hit.ogg", false), AssetKind::Audio);
    assert_eq!(detect_asset_kind("fonte.otf", false), AssetKind::Font);
    assert_eq!(detect_asset_kind("dados.json", false), AssetKind::Json);
    assert_eq!(detect_asset_kind("notas.txt", false), AssetKind::Unknown);
    assert_eq!(detect_asset_kind(".lua", false), AssetKind::Unknown);
    assert_eq!(detect_asset_kind("sprites", true), AssetKind::Folder);
    assert_eq!(detect_asset_kind("x.scene.json", true), AssetKind::Folder);
}

#[test]
fn asset_types_follow_names() {
    assert_eq!(detect_asset_type("ia.lua", false), AssetType::Unknown);
    assert_eq!(detect_asset_type("hero.webp", false), AssetType::Texture);
    assert_eq!(detect_asset_type("a.scene.json", false), AssetType::Scene);
    assert_eq!(detect_asset_type("pasta", true), AssetType::Folder);
    assert!(is_rs2_script_file("x.rs2", false));
    assert!(!is_rs2_script_file("x.rs2", true));
    assert!(is_lua_script_file("x.LUA", false));
}

#[test]
fn load_status_decisions() {
    let ok = AssetValidation::ok();
    let bad = AssetValidation::issue("ruim".to_string());
    assert_eq!(detect_load_status_with_validation(false, false, AssetType::Json, &ok), AssetLoadStatus::Missing);
    assert_eq!(detect_load_status_with_validation(true, true, AssetType::Folder, &bad), AssetLoadStatus::Ready);
    assert_eq!(detect_load_status_with_validation(true, false, AssetType::Json, &bad), AssetLoadStatus::Invalid);
    assert_eq!(detect_load_status_with_validation(true, false, AssetType::Unknown, &ok), AssetLoadStatus::Invalid);
    assert_eq!(detect_load_status_with_validation(true, false, AssetType::Audio, &ok), AssetLoadStatus::Ready);
    assert_eq!(ok.message, "OK");
    assert!(ok.is_valid);
    assert!(!bad.is_valid);
}

#[test]
fn rename_keeps_compound_extension() {
    assert_eq!(rename_target_name("fase_teste.scene.json", true, "fase_final"), "fase_final.scene.json");
    assert_eq!(rename_target_name("fase_teste.scene.json", true, "fase_final.scene.json"), "fase_final.scene.json");
    assert_eq!(rename_target_name("heroi.prefab.json", true, "vilao"), "vilao.prefab.json");
    assert_eq!(rename_target_name("heroi.matr.json", true, "vilao"), "vilao.matr.json");
}

#[test]
fn rename_adds_missing_extension() {
    assert_eq!(rename_target_name("hero_copy_1.png", true, "hero_copia"), "hero_copia.png");
    assert_eq!(rename_target_name("hero.png", true, "hero2.jpg"), "hero2.jpg");
    assert_eq!(rename_target_name("sprites", false, "meus sprites"), "meus_sprites");
    assert_eq!(rename_target_name("LEIAME", true, "novo"), "novo");
}

#[test]
fn numbered_candidate_names() {
    assert_eq!(import_candidate_name("hero.png", 1), "hero_1.png");
    assert_eq!(import_candidate_name("README", 12), "README_12");
    assert_eq!(import_candidate_name("", 3), "asset_3");
    assert_eq!(copy_candidate_name("hero.png", 1), "hero_copy_1.png");
    assert_eq!(copy_candidate_name("fase.scene.json", 2), "fase.scene_copy_2.json");
    assert_eq!(copy_candidate_name(".env", 1), ".env_copy_1");
    assert_eq!(copy_fallback_name("hero.png"), "hero_copy");
    assert_eq!(copy_fallback_name(".."), "asset_copy");
}

#[test]
fn asset_node_icons() {
    let node = |name: &str, is_dir: bool| AssetNode {
        name: name.to_string(),
        path: format!("assets/{}", name),
        is_dir,
        children: Vec::new(),
    };
    assert_eq!(node("sprites", true).icon(), "📁");
    assert_eq!(node("fase.scene.json", false).icon(), "🎬");
    assert_eq!(node("ia.lua", false).icon(), "🌙");
    assert_eq!(node("x.bin", false).icon(), "📃");
}

#[test]
fn editor_file_predicates() {
    assert!(is_rs2_file("heroi.RS2"));
    assert!(!is_rs2_file("heroi.rs2.bak"));
    assert!(!is_rs2_file(".rs2"));
    assert!(is_lua_file("ia.Lua"));
    assert!(!is_lua_file("ia"));
    assert!(is_image_file("chao.JPEG"));
    assert!(is_image_file("a.webp"));
    assert!(!is_image_file("a.gif"));
    assert!(is_matr_file("inimigo.matr.json"));
    assert!(is_matr_file("porta.prefab.json"));
    assert!(!is_matr_file("porta.PREFAB.json"));
    assert!(!is_matr_file("porta.json"));
}

#[test]
fn create_scene_file_and_script_work() {
    let scene = rs2br_engine::assets::new_scene_file_name("fase_01");
    let script = rs2br_engine::assets::new_rs2_file_name("jogador");
    assert!(scene.ends_with(".scene.json"));
    assert!(script.ends_with(".rs2"));
    assert_eq!(scene, "fase_01.scene.json");
    assert_eq!(script, "jogador.rs2");
    assert_eq!(rs2br_engine::assets::new_rs2_file_name("x.rs"), "x.rs2");
    assert_eq!(rs2br_engine::assets::new_lua_file_name("ia.lua.lua"), "ia.lua");
    assert_eq!(rs2br_engine::assets::new_scene_file_name("   "), "novo_asset.scene.json");
}

#[test]
fn rename_scene_keeps_compound_extension() {
    let renamed = rename_target_name("fase_teste.scene.json", true, "fase_final");
    assert!(renamed.ends_with(".scene.json"));
    assert_eq!(renamed, "fase_final.scene.json");
}

#[test]
fn duplicate_and_rename_asset_keep_file_alive() {
    let duplicate = copy_candidate_name("hero.png", 1);
    assert_eq!(duplicate, "hero_copy_1.png");
    let renamed = rename_target_name(&duplicate, true, "hero_copia");
    assert!(renamed.contains("hero_copia"));
    assert_eq!(renamed, "hero_copia.png");
}

#[test]
fn sanitized_names_are_never_empty() {
    assert_eq!(sanitize_asset_name(" ?!* "), "novo_asset");
    let s = sanitize_asset_name("Olá mundo/çã.png");
    assert_eq!(s, "Ol_mundo.png");
    assert!(s.chars().all(|c| c.is_ascii_alphanumeric() || "_-.".contains(c)));
}

#[test]
fn asset_tree_puts_folders_first_then_names() {
    let node = |name: &str, is_dir: bool| AssetNode {
        name: name.to_string(),
        path: format!("assets/{}", name),
        is_dir,
        children: Vec::new(),
    };
    let sorted = rs2br_engine::assets::sort_asset_nodes(vec![
        node("zeta.png", false),
        node("sprites", true),
        node("Alpha.rs2", false),
        node("cenas", true),
        node("alpha.rs2", false),
    ]);
    let names: Vec<&str> = sorted.iter().map(|n| n.name.as_str()).collect();
    assert_eq!(names, vec!["cenas", "sprites", "Alpha.rs2", "alpha.rs2", "zeta.png"]);
}

#[test]
fn paths_are_made_relative_to_the_assets_folder() {
    assert_eq!(relative_asset_path("/p/assets/sprites/a.png", "/p/assets").as_deref(), Some("sprites/a.png"));
    assert_eq!(relative_asset_path("/p/assets/sprites/a.png", "/p/assets/").as_deref(), Some("sprites/a.png"));
    assert_eq!(relative_asset_path("/p/assets", "/p/assets").as_deref(), Some(""));
    assert_eq!(relative_asset_path("/p/assetsX/a.png", "/p/assets"), None);
    assert_eq!(relative_asset_path("/q/a.png", "/p/assets"), None);
}
