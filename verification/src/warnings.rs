//! The warnings the editor shows about a scene: a missing main camera,
//! broken references of its entities, scripts that fail the check, and
//! broken prefab files of the project. The caller looks at the disk and
//! hands over what it found; what is reported, and how, is decided here.
use vstd::prelude::*;
use crate::assets::{is_matr_file, AssetType};
use crate::editor::{dedup, dedupe_warnings, has_main_camera, scene_has_main_camera, warnings_view, EditorWarning, EditorWarningKind};
use crate::hierarchy::EntityNode;
use crate::script::{displayed, errors_view, format_script_errors, join_bar, join_with_bar, script_errors, validate_script};
use crate::text::{chars_of, ends_with, string_of, string_views, trim, trim_chars};
use crate::validation::{
    spec_script_reference_message, spec_validate, spec_validate_reference, validate_asset_path,
    validate_reference_path, validate_script_reference, AssetProbe, FoundReference, ScriptLookup,
};

verus! {

pub type WarningModel = (EditorWarningKind, Seq<char>, Seq<char>);

pub open spec fn warning_opt_view(w: Option<EditorWarning>) -> Option<WarningModel> {
    match w {
        Some(x) => Some(x@),
        None => None,
    }
}

/// `<head> em '<name>'`.
pub open spec fn about(head: Seq<char>, name: Seq<char>) -> Seq<char> {
    head + " em '"@ + name + "'"@
}

fn about_exec(head: &str, name: &str) -> (r: String)
    ensures
        r@ == about(head@, name@),
{
    let mut s = String::from_str(head);
    s.append(" em '");
    s.append(name);
    s.append("'");
    s
}

fn warning(kind: EditorWarningKind, label: String, details: String) -> (r: EditorWarning)
    ensures
        r@ == (kind, label@, details@),
{
    EditorWarning { kind, label, details }
}

/// The warning of an entity whose prefab reference does not check.
pub open spec fn spec_prefab_reference_warning(
    entity_name: Seq<char>,
    prefab_reference: Seq<char>,
    found: Option<FoundReference>,
) -> Option<WarningModel> {
    let v = spec_validate_reference(prefab_reference, AssetType::Prefab, found);
    if v.0 {
        None
    } else {
        Some((EditorWarningKind::Prefab, about("Prefab referenciado inválido"@, entity_name), v.1))
    }
}

/// Checks the prefab an entity was made from, given where the reference
/// was found (see [`crate::validation::reference_search_dirs`]).
pub fn prefab_reference_warning(entity_name: &str, prefab_reference: &str, found: Option<FoundReference>) -> (r: Option<EditorWarning>)
    ensures
        warning_opt_view(r) == spec_prefab_reference_warning(entity_name@, prefab_reference@, found),
{
    let v = validate_reference_path(prefab_reference, AssetType::Prefab, found);
    if v.is_valid {
        None
    } else {
        Some(warning(EditorWarningKind::Prefab, about_exec("Prefab referenciado inválido", entity_name), v.message))
    }
}

/// The warning of a sprite: no texture, or a texture reference that does
/// not check.
pub open spec fn spec_sprite_warning(
    entity_name: Seq<char>,
    texture_path: Seq<char>,
    found: Option<FoundReference>,
) -> Option<WarningModel> {
    let t = trim(texture_path);
    if t.len() == 0 {
        Some(
            (
                EditorWarningKind::Sprite,
                about("Sprite sem textura"@, entity_name),
                "Defina uma textura válida no componente Sprite para evitar placeholder no runtime."@,
            ),
        )
    } else {
        let v = spec_validate_reference(t, AssetType::Texture, found);
        if v.0 {
            None
        } else {
            Some((EditorWarningKind::Sprite, about("Textura inválida"@, entity_name), v.1))
        }
    }
}

/// Checks the texture of an entity's sprite, given where the reference
/// was found.
pub fn sprite_warning(entity_name: &str, texture_path: &str, found: Option<FoundReference>) -> (r: Option<EditorWarning>)
    ensures
        warning_opt_view(r) == spec_sprite_warning(entity_name@, texture_path@, found),
{
    let t = trim_chars(&chars_of(texture_path));
    if t.len() == 0 {
        return Some(
            warning(
                EditorWarningKind::Sprite,
                about_exec("Sprite sem textura", entity_name),
                String::from_str("Defina uma textura válida no componente Sprite para evitar placeholder no runtime."),
            ),
        );
    }
    let ts = string_of(&t);
    let v = validate_reference_path(ts.as_str(), AssetType::Texture, found);
    if v.is_valid {
        None
    } else {
        Some(warning(EditorWarningKind::Sprite, about_exec("Textura inválida", entity_name), v.message))
    }
}

/// At most the first three of a list.
pub open spec fn first_three<A>(s: Seq<A>) -> Seq<A> {
    if s.len() <= 3 {
        s
    } else {
        s.take(3)
    }
}

/// The warning of an RS2 script component: no script; a script found
/// whose text fails the check (the first three errors); a script found
/// that could not be read; or a script not found (the reason the reference
/// cannot be used).
pub open spec fn spec_script_warning(entity_name: Seq<char>, script_path: Seq<char>, lookup: ScriptLookup) -> Option<
    WarningModel,
> {
    let t = trim(script_path);
    let invalid = about("Script inválido"@, entity_name);
    if t.len() == 0 {
        Some(
            (
                EditorWarningKind::Script,
                about("Script vazio"@, entity_name),
                "Associe um arquivo .rs2 ou remova o componente Script RS2."@,
            ),
        )
    } else {
        match lookup {
            ScriptLookup::Found { source: Some(s), .. } => if script_errors(s@).len() == 0 {
                None
            } else {
                Some((EditorWarningKind::Script, invalid, join_bar(first_three(displayed(script_errors(s@))))))
            },
            ScriptLookup::Found { display_path, source: None, .. } => Some(
                (EditorWarningKind::Script, invalid, "Falha ao ler o script: "@ + display_path@),
            ),
            ScriptLookup::NotFound { .. } => match spec_script_reference_message(t, lookup) {
                Some(m) => Some((EditorWarningKind::Script, invalid, m)),
                None => None,
            },
        }
    }
}

/// Checks an entity's RS2 script, given where looking for it led.
pub fn script_warning(entity_name: &str, script_path: &str, lookup: ScriptLookup) -> (r: Option<EditorWarning>)
    ensures
        warning_opt_view(r) == spec_script_warning(entity_name@, script_path@, lookup),
{
    let t = trim_chars(&chars_of(script_path));
    if t.len() == 0 {
        return Some(
            warning(
                EditorWarningKind::Script,
                about_exec("Script vazio", entity_name),
                String::from_str("Associe um arquivo .rs2 ou remova o componente Script RS2."),
            ),
        );
    }
    let invalid = about_exec("Script inválido", entity_name);
    match lookup {
        ScriptLookup::Found { file_name: _, display_path, source } => match source {
            Some(s) => {
                let errors = validate_script(s.as_str());
                if errors.len() == 0 {
                    None
                } else {
                    let lines = format_script_errors(errors.as_slice());
                    let mut kept: Vec<String> = Vec::new();
                    let mut i: usize = 0;
                    while i < lines.len() && i < 3
                        invariant
                            i <= lines.len(),
                            i <= 3,
                            kept@.len() == i,
                            string_views(kept@) == string_views(lines@).take(i as int),
                        decreases lines.len() - i,
                    {
                        let ghost before = kept@;
                        let line = String::from_str(lines[i].as_str());
                        kept.push(line);
                        assert(kept@ == before.push(line));
                        assert forall|k: int| 0 <= k < i + 1 implies #[trigger] string_views(kept@)[k] == string_views(
                            lines@,
                        ).take(i + 1)[k] by {
                            if k < i {
                                assert(kept@[k] == before[k]);
                                assert(string_views(before)[k] == string_views(lines@).take(i as int)[k]);
                            }
                        }
                        assert(string_views(kept@) =~= string_views(lines@).take(i + 1));
                        i += 1;
                    }
                    proof {
                        if string_views(lines@).len() <= 3 {
                            assert(string_views(lines@).take(i as int) =~= string_views(lines@));
                        }
                    }
                    Some(warning(EditorWarningKind::Script, invalid, join_with_bar(&kept)))
                }
            },
            None => {
                let mut d = String::from_str("Falha ao ler o script: ");
                d.append(display_path.as_str());
                Some(warning(EditorWarningKind::Script, invalid, d))
            },
        },
        ScriptLookup::NotFound { first_candidate } => {
            let ts = string_of(&t);
            match validate_script_reference(ts.as_str(), ScriptLookup::NotFound { first_candidate }) {
                Ok(()) => None,
                Err(m) => Some(warning(EditorWarningKind::Script, invalid, m)),
            }
        },
    }
}

/// The warning of a file of the prefab folder: a prefab file (by its
/// name) that is a file and does not check.
pub open spec fn spec_prefab_file_warning(file_name: Seq<char>, probe: AssetProbe) -> Option<WarningModel> {
    let is_prefab = ends_with(file_name, ".prefab.json"@) || ends_with(file_name, ".matr.json"@);
    let v = spec_validate(AssetType::Prefab, probe);
    if !is_prefab || !probe.is_file || v.0 {
        None
    } else {
        Some((EditorWarningKind::Prefab, "Prefab quebrado: "@ + file_name, v.1))
    }
}

/// Checks one entry of the project's prefab folder, by its file name and
/// what the disk showed of it.
pub fn prefab_file_warning(file_name: &str, probe: &AssetProbe) -> (r: Option<EditorWarning>)
    ensures
        warning_opt_view(r) == spec_prefab_file_warning(file_name@, *probe),
{
    if !is_matr_file(file_name) || !probe.is_file {
        return None;
    }
    let v = validate_asset_path(AssetType::Prefab, probe);
    if v.is_valid {
        None
    } else {
        let mut label = String::from_str("Prefab quebrado: ");
        label.append(file_name);
        Some(warning(EditorWarningKind::Prefab, label, v.message))
    }
}

/// The warning of a scene with no main camera.
pub open spec fn camera_warning() -> WarningModel {
    (
        EditorWarningKind::Scene,
        "Cena sem câmera principal"@,
        "Adicione uma Camera2D marcada como principal para o runtime enquadrar a cena corretamente."@,
    )
}

/// The warnings of a scene, without repetitions: the missing camera
/// first, then those of its entities, then those of the prefab folder.
pub open spec fn spec_scene_warnings(
    entities: Seq<EntityNode>,
    entity_warnings: Seq<WarningModel>,
    prefab_warnings: Seq<WarningModel>,
) -> Seq<WarningModel> {
    let head: Seq<WarningModel> = if has_main_camera(entities) {
        seq![]
    } else {
        seq![camera_warning()]
    };
    dedup(head + entity_warnings + prefab_warnings)
}

/// Puts a scene's warnings together: the entities' warnings (each entity
/// before its children, in scene order) and the prefab folder's.
pub fn collect_scene_warnings(
    entities: &[EntityNode],
    entity_warnings: Vec<EditorWarning>,
    prefab_warnings: Vec<EditorWarning>,
) -> (r: Vec<EditorWarning>)
    ensures
        warnings_view(r@) == spec_scene_warnings(entities@, warnings_view(entity_warnings@), warnings_view(prefab_warnings@)),
{
    let mut all: Vec<EditorWarning> = Vec::new();
    let has_camera = scene_has_main_camera(entities);
    if !has_camera {
        all.push(
            warning(
                EditorWarningKind::Scene,
                String::from_str("Cena sem câmera principal"),
                String::from_str(
                    "Adicione uma Camera2D marcada como principal para o runtime enquadrar a cena corretamente.",
                ),
            ),
        );
    }
    let ghost head = warnings_view(all@);
    assert(head =~= (if has_main_camera(entities@) {
        seq![]
    } else {
        seq![camera_warning()]
    }));
    let mut ew = entity_warnings;
    let mut pw = prefab_warnings;
    let ghost e = warnings_view(ew@);
    let ghost p = warnings_view(pw@);
    all.append(&mut ew);
    assert(warnings_view(all@) =~= head + e);
    all.append(&mut pw);
    assert(warnings_view(all@) =~= head + e + p);
    dedupe_warnings(&mut all);
    all
}

} // verus!
