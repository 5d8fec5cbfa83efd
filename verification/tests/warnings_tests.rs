use rs2br_engine::assets::AssetType;
use rs2br_engine::editor::{EditorWarning, EditorWarningKind};
use rs2br_engine::hierarchy::{ComponentKind, EntityNode};
use rs2br_engine::validation::{AssetProbe, FoundReference, ScriptLookup};
use rs2br_engine::warnings::{
    collect_scene_warnings, prefab_file_warning, prefab_reference_warning, script_warning,
    sprite_warning,
};

fn text_probe(text: &str) -> AssetProbe {
    AssetProbe {
        file_name: String::new(),
        exists: true,
        is_file: true,
        text: Some(text.to_string()),
        bytes: Ok(text.as_bytes().to_vec()),
        structure: Ok(()),
    }
}

fn entity(name: &str, components: Vec<ComponentKind>) -> EntityNode {
    EntityNode {
        id: name.to_string(),
        name: name.to_string(),
        prefab_source: None,
        components,
        children: Vec::new(),
    }
}

#[test]
fn sprite_without_texture_is_reported() {
    let w = sprite_warning("Heroi", "   ", None).unwrap();
    assert_eq!(w.kind, EditorWarningKind::Sprite);
    assert_eq!(w.label, "Sprite sem textura em 'Heroi'");
    assert_eq!(
        w.details,
        "Defina uma textura válida no componente Sprite para evitar placeholder no runtime."
    );
    let missing = sprite_warning("Heroi", "sprites/heroi.png", None).unwrap();
    assert_eq!(missing.label, "Textura inválida em 'Heroi'");
    assert_eq!(missing.details, "Arquivo referenciado não encontrado: sprites/heroi.png");
    let wrong_type = FoundReference { actual_type: AssetType::Json, probe: text_probe("{}") };
    let w2 = sprite_warning("Heroi", "dados.json", Some(wrong_type)).unwrap();
    assert_eq!(w2.details, "Referência aponta para Json, mas o esperado era Texture.");
}

#[test]
fn script_warnings_cover_each_case() {
    let empty = script_warning("Npc", "", ScriptLookup::NotFound { first_candidate: "x".to_string() }).unwrap();
    assert_eq!(empty.label, "Script vazio em 'Npc'");
    let source = "@voar\n@nadar\n@correr\n@pular\n";
    let found = ScriptLookup::Found {
        file_name: "npc.rs2".to_string(),
        display_path: "assets/scripts/npc.rs2".to_string(),
        source: Some(source.to_string()),
    };
    let w = script_warning("Npc", "npc.rs2", found).unwrap();
    assert_eq!(w.label, "Script inválido em 'Npc'");
    assert_eq!(
        w.details,
        "Linha 1: Diretiva desconhecida '@voar'. | Linha 2: Diretiva desconhecida '@nadar'. | Linha 3: Diretiva desconhecida '@correr'."
    );
    let unreadable = ScriptLookup::Found {
        file_name: "npc.rs2".to_string(),
        display_path: "assets/scripts/npc.rs2".to_string(),
        source: None,
    };
    assert_eq!(
        script_warning("Npc", "npc.rs2", unreadable).unwrap().details,
        "Falha ao ler o script: assets/scripts/npc.rs2"
    );
    let nf = ScriptLookup::NotFound { first_candidate: "/p/npc.rs2".to_string() };
    assert_eq!(
        script_warning("Npc", " npc.rs2 ", nf).unwrap().details,
        "Arquivo de script não encontrado: /p/npc.rs2"
    );
    let ok = ScriptLookup::Found {
        file_name: "npc.rs2".to_string(),
        display_path: "p".to_string(),
        source: Some("@move_x 1\n".to_string()),
    };
    assert!(script_warning("Npc", "npc.rs2", ok).is_none());
}

#[test]
fn prefab_warnings() {
    assert!(prefab_reference_warning("Porta", "porta.prefab.json", None).is_some());
    let bad = AssetProbe {
        file_name: String::new(),
        exists: true,
        is_file: true,
        text: Some("{".to_string()),
        bytes: Ok(b"{".to_vec()),
        structure: Err("Falha ao desserializar prefab: EOF".to_string()),
    };
    let w = prefab_file_warning("porta.prefab.json", &bad).unwrap();
    assert_eq!(w.label, "Prefab quebrado: porta.prefab.json");
    assert_eq!(w.details, "Falha ao desserializar prefab: EOF");
    assert!(prefab_file_warning("porta.json", &bad).is_none());
    assert!(prefab_file_warning("porta.matr.json", &text_probe("{}")).is_none());
}

#[test]
fn scene_warnings_put_the_camera_first_and_drop_repeats() {
    let repeated = EditorWarning {
        kind: EditorWarningKind::Sprite,
        label: "Sprite sem textura em 'A'".to_string(),
        details: "d".to_string(),
    };
    let no_camera = vec![entity("A", vec![ComponentKind::Sprite])];
    let ws = collect_scene_warnings(&no_camera, vec![repeated.clone(), repeated.clone()], Vec::new());
    assert_eq!(ws.len(), 2);
    assert_eq!(ws[0].label, "Cena sem câmera principal");
    assert_eq!(ws[1].label, repeated.label);
    let with_camera = vec![entity("Camera", vec![ComponentKind::Camera2D { is_main: true }])];
    assert!(collect_scene_warnings(&with_camera, Vec::new(), Vec::new()).is_empty());
}
