use rs2br_engine::float_literal::is_float_literal_chars;
use rs2br_engine::script::{
    format_script_errors, is_valid_rs2_script, parse_script_action, parse_text_value,
    parse_rs2_script, validate_rs2_source, validate_script, ScriptAction, ScriptError,
    ScriptLoadError,
};

fn float_ok(s: &str) -> bool {
    is_float_literal_chars(&s.chars().collect())
}

#[test]
fn float_literals_match_std_parsing() {
    let samples = [
        "1", "-1", "+2.5", "3.", ".5", ".", "", "-", "1e5", "1E-3", "2.5e+10", "1e", "e5", "inf",
        "-Infinity", "NaN", "nan ", " 1", "1.2.3", "0x10", "1_000", "infinit", "+", "5e3.2", "..5",
        "00.00", "-.e1", "INF", "+nan",
    ];
    for s in samples {
        assert_eq!(float_ok(s), s.parse::<f32>().is_ok(), "sample {:?}", s);
    }
}

#[test]
fn valid_script_has_no_errors() {
    let src = "// Script RS2BR-Engine\n@start_message Novo script\n@move_x 10\nmove_y = -2.5;\n@camera_follow\ncamera_follow = TRUE\n@on_update mover\n@on_collision change_scene \"fases/b.scene.json\"\n@on_collision reload_scene;\nlivre sem igual\n";
    assert!(validate_script(src).is_empty());
}

#[test]
fn script_errors_name_their_lines() {
    let src = "@move_x\n\n@move_y abc\nrotate_speed = \nfoo = 1\n@jump 3\n@camera_follow agora\ncamera_follow = sim\nstart_message = \"\"\n@on_collision voar\n@on_update\n";
    let errors = validate_script(src);
    let expected = vec![
        ScriptError { line: 1, message: "@move_x precisa de um número.".to_string() },
        ScriptError { line: 3, message: "@move_y esperava um número, mas recebeu 'abc'.".to_string() },
        ScriptError { line: 4, message: "rotate_speed precisa de um número.".to_string() },
        ScriptError { line: 5, message: "Atribuição desconhecida 'foo'.".to_string() },
        ScriptError { line: 6, message: "Diretiva desconhecida '@jump'.".to_string() },
        ScriptError { line: 7, message: "@camera_follow não aceita argumentos.".to_string() },
        ScriptError { line: 8, message: "camera_follow só aceita true ou false.".to_string() },
        ScriptError { line: 9, message: "start_message precisa de um texto não vazio.".to_string() },
        ScriptError {
            line: 10,
            message: "@on_collision precisa de uma ação válida: change_scene \"caminho\" ou reload_scene."
                .to_string(),
        },
        ScriptError {
            line: 11,
            message: "@on_update precisa de uma instrução ou descrição após a diretiva.".to_string(),
        },
    ];
    assert_eq!(errors, expected);
}

#[test]
fn crlf_and_comment_lines_are_ignored() {
    let src = "   // @nada\r\n@move_x 1.5\r\n\r\n@start_message\r\n";
    let errors = validate_script(src);
    assert_eq!(errors.len(), 1);
    assert_eq!(errors[0].line, 4);
    assert_eq!(errors[0].message, "@start_message precisa de um texto não vazio.");
}

#[test]
fn error_display_and_formatting() {
    let e = ScriptError { line: 12, message: "x".to_string() };
    assert_eq!(e.display(), "Linha 12: x");
    let list = format_script_errors(&[e.clone(), ScriptError { line: 3, message: "y".to_string() }]);
    assert_eq!(list, vec!["Linha 12: x".to_string(), "Linha 3: y".to_string()]);
    assert_eq!(validate_rs2_source("@move_x\n"), vec!["Linha 1: @move_x precisa de um número.".to_string()]);
}

#[test]
fn load_error_messages() {
    assert_eq!(ScriptLoadError::EmptyPath.message(), "Caminho do script está vazio.");
    assert_eq!(ScriptLoadError::InvalidExtension("a.txt".to_string()).message(), "'a.txt' não é um arquivo .rs2 válido.");
    assert_eq!(ScriptLoadError::FileNotFound("p/a.rs2".to_string()).message(), "Arquivo de script não encontrado: p/a.rs2");
    assert_eq!(ScriptLoadError::ReadFailed("p".to_string()).message(), "Falha ao ler o script: p");
    let errs = vec![
        ScriptError { line: 1, message: "a".to_string() },
        ScriptError { line: 2, message: "b".to_string() },
    ];
    assert_eq!(ScriptLoadError::ValidationFailed(errs).message(), "Linha 1: a | Linha 2: b");
}

#[test]
fn rs2_paths() {
    assert!(is_valid_rs2_script("  scripts/Jogador.RS2 "));
    assert!(!is_valid_rs2_script("jogador.lua"));
    assert!(!is_valid_rs2_script(""));
}

#[test]
fn text_values_and_actions() {
    assert_eq!(parse_text_value(" = \"Olá mundo\";"), Some("Olá mundo".to_string()));
    assert_eq!(parse_text_value("'oi'"), Some("oi".to_string()));
    assert_eq!(parse_text_value(" = \"\" "), None);
    assert_eq!(
        parse_script_action(" change_scene \"fases/b.scene.json\";"),
        Some(ScriptAction::ChangeScene("fases/b.scene.json".to_string()))
    );
    assert_eq!(parse_script_action("reload_scene ;"), Some(ScriptAction::ReloadScene));
    assert_eq!(parse_script_action("change_scene"), None);
    assert_eq!(parse_script_action("voar"), None);
}

fn number(lit: &Option<String>) -> f32 {
    lit.as_deref().map(|t| t.parse::<f32>().unwrap()).unwrap_or(0.0)
}

#[test]
fn parse_script_reads_directives_and_assignments() {
    let src = "// comentário\n@move_x 2.5\nmove_y = -1;\n@rotate_speed 90\n@player_controller -120\n@camera_follow\n@start_message \"Olá\"\n@on_update pular\n@on_collision change_scene \"fase2.scene.json\"\n@on_collision reload_scene\n@on_collision voar\n";
    let b = parse_rs2_script(src);
    assert_eq!(number(&b.move_x), 2.5);
    assert_eq!(number(&b.move_y), -1.0);
    assert_eq!(number(&b.rotate_speed), 90.0);
    assert_eq!(b.player_controller_speed.as_deref(), Some("120"));
    assert_eq!(number(&b.player_controller_speed), 120.0);
    assert!(b.camera_follow);
    assert_eq!(b.start_message.as_deref(), Some("Olá"));
    assert_eq!(b.on_update, vec!["pular".to_string()]);
    assert_eq!(
        b.on_collision,
        vec![ScriptAction::ChangeScene("fase2.scene.json".to_string()), ScriptAction::ReloadScene]
    );
}

#[test]
fn parse_script_later_lines_win_and_bad_numbers_are_skipped() {
    let b = parse_rs2_script("move_x = 1\r\nmove_x = abc\r\n@move_x 3e1;\nplayer_controller_speed = +7\nstart_message = \"\"\n");
    assert_eq!(number(&b.move_x), 30.0);
    assert_eq!(b.player_controller_speed.as_deref(), Some("7"));
    assert_eq!(b.start_message, None);
    assert_eq!(b.move_y, None);
    assert!(!b.camera_follow);
    let empty = parse_rs2_script("");
    assert_eq!(empty.on_update.len(), 0);
    assert_eq!(number(&empty.rotate_speed), 0.0);
}

#[test]
fn script_errors_come_in_line_order() {
    let errors = validate_script("@a\n\n// nada\n@move_x\nvelocidade = 3\n@camera_follow\n");
    let lines: Vec<usize> = errors.iter().map(|e| e.line).collect();
    assert_eq!(lines, vec![1, 4, 5]);
    assert!(float_ok("-0042"));
    assert!(float_ok("+7"));
}
