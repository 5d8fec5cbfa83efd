use rs2br_engine::validation::sort_asset_records;
use rs2br_engine::script::ScriptLoadError;
use rs2br_engine::assets::{AssetLoadStatus, AssetType};
use rs2br_engine::validation::{
    detect_load_status, normalize_reference, reference_search_dirs, validate_asset_path,
    validate_reference_path, validate_script_reference, AssetProbe, AssetRecord,
    FoundReference, ScriptLookup, load_script_behavior_checked,
};

fn file_with_text(text: &str) -> AssetProbe {
    AssetProbe {
        file_name: String::new(),
        exists: true,
        is_file: true,
        text: Some(text.to_string()),
        bytes: Ok(text.as_bytes().to_vec()),
        structure: Ok(()),
    }
}

#[test]
fn missing_paths_are_reported() {
    let probe = AssetProbe { file_name: String::new(), exists: false, is_file: false, text: None, bytes: Err("x".to_string()), structure: Ok(()) };
    let v = validate_asset_path(AssetType::Json, &probe);
    assert!(!v.is_valid);
    assert_eq!(v.message, "Arquivo ou pasta não encontrado no disco.");
    assert_eq!(detect_load_status(AssetType::Json, false, &probe), AssetLoadStatus::Missing);
}

#[test]
fn json_assets_are_parsed() {
    assert!(validate_asset_path(AssetType::Json, &file_with_text("{\"a\": [1, 2]}")).is_valid);
    let bad = validate_asset_path(AssetType::Json, &file_with_text("{ invalid json }"));
    assert!(!bad.is_valid);
    assert!(bad.message.starts_with("JSON inválido: "));
    assert!(bad.message.len() > "JSON inválido: ".len());
}

#[test]
fn script_assets_are_checked() {
    assert!(validate_asset_path(AssetType::ScriptRs2, &file_with_text("@move_x 2\n")).is_valid);
    let v = validate_asset_path(AssetType::ScriptRs2, &file_with_text("@move_x\n@jump\n"));
    assert_eq!(v.message, "Linha 1: @move_x precisa de um número. | Linha 2: Diretiva desconhecida '@jump'.");
    let mut unreadable = file_with_text("");
    unreadable.text = None;
    assert_eq!(validate_asset_path(AssetType::ScriptRs2, &unreadable).message, "Script não pôde ser lido.");
}

#[test]
fn image_assets_are_decoded() {
    let mut png: Vec<u8> = Vec::new();
    image::RgbaImage::new(2, 2)
        .write_to(&mut std::io::Cursor::new(&mut png), image::ImageFormat::Png)
        .unwrap();
    let probe = AssetProbe { file_name: "heroi.png".to_string(), exists: true, is_file: true, text: None, bytes: Ok(png.clone()), structure: Ok(()) };
    assert!(validate_asset_path(AssetType::Texture, &probe).is_valid);
    let broken = AssetProbe { file_name: "heroi.png".to_string(), exists: true, is_file: true, text: None, bytes: Ok(b"fake".to_vec()), structure: Ok(()) };
    let v = validate_asset_path(AssetType::Texture, &broken);
    assert!(!v.is_valid);
    assert!(v.message.starts_with("Imagem quebrada ou formato inválido: "));
    let named_otherwise = AssetProbe { file_name: "heroi.jpg".to_string(), exists: true, is_file: true, text: None, bytes: Ok(png), structure: Ok(()) };
    assert!(validate_asset_path(AssetType::Texture, &named_otherwise).is_valid);
    let unopened = AssetProbe { file_name: String::new(), exists: true, is_file: true, text: None, bytes: Err("negado".to_string()), structure: Ok(()) };
    assert_eq!(validate_asset_path(AssetType::Texture, &unopened).message, "Textura não pôde ser aberta: negado");
}

#[test]
fn other_asset_types() {
    let dir = AssetProbe { file_name: String::new(), exists: true, is_file: false, text: None, bytes: Err(String::new()), structure: Ok(()) };
    assert!(validate_asset_path(AssetType::Folder, &dir).is_valid);
    assert_eq!(validate_asset_path(AssetType::Audio, &dir).message, "Áudio inválido ou inacessível.");
    assert_eq!(validate_asset_path(AssetType::Font, &dir).message, "Fonte inválida ou inacessível.");
    assert_eq!(validate_asset_path(AssetType::Scene, &dir).message, "Cena inválida: o caminho não aponta para um arquivo.");
    assert_eq!(
        validate_asset_path(AssetType::Unknown, &file_with_text("")).message,
        "Tipo de asset desconhecido ou não suportado."
    );
    let mut scene = file_with_text("{}");
    scene.structure = Err("Falha ao desserializar cena".to_string());
    assert_eq!(validate_asset_path(AssetType::Scene, &scene).message, "Falha ao desserializar cena");
    assert_eq!(detect_load_status(AssetType::Scene, false, &scene), AssetLoadStatus::Invalid);
}

#[test]
fn references_are_checked() {
    assert_eq!(validate_reference_path("   ", AssetType::Texture, None).message, "Referência vazia.");
    assert_eq!(
        validate_reference_path(" sprites/x.png ", AssetType::Texture, None).message,
        "Arquivo referenciado não encontrado: sprites/x.png"
    );
    let found = FoundReference { actual_type: AssetType::Json, probe: file_with_text("{}") };
    assert_eq!(
        validate_reference_path("a.json", AssetType::Prefab, Some(found)).message,
        "Referência aponta para Json, mas o esperado era Prefab."
    );
    let found = FoundReference { actual_type: AssetType::Json, probe: file_with_text("{}") };
    assert!(validate_reference_path("a.json", AssetType::Unknown, Some(found)).is_valid);
    assert_eq!(normalize_reference("  scripts\\a.rs2 "), Some("scripts/a.rs2".to_string()));
    assert_eq!(normalize_reference("  "), None);
    assert_eq!(reference_search_dirs()[2], "assets/scripts");
}

#[test]
fn script_references() {
    let nf = |p: &str| ScriptLookup::NotFound { first_candidate: p.to_string() };
    assert_eq!(validate_script_reference(" ", nf("x")), Err("Caminho do script está vazio.".to_string()));
    assert_eq!(validate_script_reference("a.lua", nf("x")), Err("'a.lua' não é um arquivo .rs2 válido.".to_string()));
    assert_eq!(
        validate_script_reference("a.rs2", nf("proj/a.rs2")),
        Err("Arquivo de script não encontrado: proj/a.rs2".to_string())
    );
    let found = |src: Option<&str>| ScriptLookup::Found {
        file_name: "a.RS2".to_string(),
        display_path: "proj/a.RS2".to_string(),
        source: src.map(|s| s.to_string()),
    };
    assert_eq!(validate_script_reference("a.RS2", found(Some("@move_x 1"))), Ok(()));
    assert_eq!(validate_script_reference("a.RS2", found(None)), Err("Falha ao ler o script: proj/a.RS2".to_string()));
    assert_eq!(
        validate_script_reference("a.RS2", found(Some("@x"))),
        Err("Linha 1: Diretiva desconhecida '@x'.".to_string())
    );
}

#[test]
fn asset_records_take_their_name() {
    let r = AssetRecord::new("assets/d.json".to_string(), Some("d.json"), AssetType::Json, false, &file_with_text("[]"));
    assert_eq!(r.name, "d.json");
    assert_eq!(r.load_status, AssetLoadStatus::Ready);
    let r2 = AssetRecord::new("/".to_string(), None, AssetType::Folder, true, &file_with_text(""));
    assert_eq!(r2.name, "asset");
    assert_ne!(r.id, r2.id);
}

#[test]
fn loading_a_script_gives_its_behavior() {
    let lookup = ScriptLookup::Found {
        file_name: "heroi.rs2".to_string(),
        display_path: "assets/scripts/heroi.rs2".to_string(),
        source: Some("@move_x 4\n@camera_follow\n".to_string()),
    };
    let b = load_script_behavior_checked("heroi.rs2", lookup).unwrap();
    assert_eq!(b.move_x.as_deref(), Some("4"));
    assert!(b.camera_follow);
    let bad = ScriptLookup::Found {
        file_name: "heroi.rs2".to_string(),
        display_path: "p".to_string(),
        source: Some("@voar\n".to_string()),
    };
    let err = load_script_behavior_checked("heroi.rs2", bad).unwrap_err();
    assert_eq!(err.message(), "Linha 1: Diretiva desconhecida '@voar'.");
}

#[test]
fn loading_a_script_reports_each_error_as_its_own_kind() {
    let found = |file: &str, src: Option<&str>| ScriptLookup::Found {
        file_name: file.to_string(),
        display_path: format!("proj/{}", file),
        source: src.map(|s| s.to_string()),
    };
    let two_bad = found("a.rs2", Some("@voar\nmove_x = rapido\n@camera_follow\n"));
    match load_script_behavior_checked(" a.rs2 ", two_bad) {
        Err(ScriptLoadError::ValidationFailed(errors)) => {
            assert_eq!(errors.len(), 2);
            assert_eq!(errors[0].line, 1);
            assert_eq!(errors[0].message, "Diretiva desconhecida '@voar'.");
            assert_eq!(errors[1].line, 2);
            assert_eq!(errors[1].message, "move_x esperava um número, mas recebeu 'rapido'.");
        }
        other => panic!("unexpected {:?}", other),
    }
    assert!(matches!(
        load_script_behavior_checked("   ", found("a.rs2", Some("@camera_follow"))),
        Err(ScriptLoadError::EmptyPath)
    ));
    match load_script_behavior_checked(" a.txt ", found("a.txt", Some(""))) {
        Err(ScriptLoadError::InvalidExtension(p)) => assert_eq!(p, "a.txt"),
        other => panic!("unexpected {:?}", other),
    }
    match load_script_behavior_checked("a.rs2", found("a.rs2", None)) {
        Err(ScriptLoadError::ReadFailed(p)) => assert_eq!(p, "proj/a.rs2"),
        other => panic!("unexpected {:?}", other),
    }
    match load_script_behavior_checked("a.rs2", ScriptLookup::NotFound { first_candidate: "proj/a.rs2".to_string() }) {
        Err(ScriptLoadError::FileNotFound(p)) => assert_eq!(p, "proj/a.rs2"),
        other => panic!("unexpected {:?}", other),
    }
}

#[test]
fn asset_records_are_listed_by_name() {
    let rec = |path: &str, name: &str| {
        AssetRecord::new(path.to_string(), Some(name), AssetType::Json, false, &file_with_text("{}"))
    };
    let sorted = sort_asset_records(vec![rec("b/x.json", "x.json"), rec("a.json", "a.json"), rec("c/x.json", "x.json"), rec("B.json", "B.json")]);
    let names: Vec<(&str, &str)> = sorted.iter().map(|r| (r.name.as_str(), r.path.as_str())).collect();
    assert_eq!(names, vec![("B.json", "B.json"), ("a.json", "a.json"), ("x.json", "b/x.json"), ("x.json", "c/x.json")]);
}
