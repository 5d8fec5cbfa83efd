//! Checking assets and the references a scene makes to them. The caller
//! looks at the disk and hands over what it saw; the decisions are here.
use vstd::prelude::*;
use crate::assets::{
    detect_load_status_with_validation, extension_chars, extension_of, spec_load_status, AssetLoadStatus,
    AssetType, AssetValidation,
};
use crate::script::{
    displayed, errors_view, format_script_errors, join_bar, join_with_bar, load_error_text,
    script_errors, spec_is_valid_rs2_script, validate_script, is_valid_rs2_script, ScriptLoadError,
    parse_rs2_script, spec_parse_rs2_script, BehaviorModel, ScriptBehavior,
};
use crate::text::{
    chars_eq, chars_of, lower_seq, replace_char, replace_char_chars, string_of, to_ascii_lower_chars, trim, trim_chars,
    lemma_lex_asymmetric, lemma_lex_irreflexive, lemma_lex_total, lemma_lex_transitive, lex_lt, lex_lt_exec,
};
use crate::sorting::{insertion_sort, same_rank, sorted_by};

verus! {

/// The error text of `serde_json::from_str::<serde_json::Value>` on a text,
/// `None` when the text is JSON.
pub uninterp spec fn json_parse_error(text: Seq<char>) -> Option<Seq<char>>;

/// `serde_json::from_str::<serde_json::Value>`: whether the text is JSON,
/// and the parser's error text when it is not. The contract ties the
/// result to the name [`json_parse_error`] and says nothing more of it.
#[verifier::external_body]
fn json_syntax_check(text: &str) -> (r: Result<(), String>)
    ensures
        match r {
            Ok(()) => json_parse_error(text@) is None,
            Err(e) => json_parse_error(text@) == Some(e@),
        },
{
    match serde_json::from_str::<serde_json::Value>(text) {
        Ok(_) => Ok(()),
        Err(e) => Err(e.to_string()),
    }
}

/// How decoding an image file's bytes with the `image` crate ends, the
/// format taken from the file name's extension unless the content tells
/// it: `None` when it decodes; otherwise whether the content could not be
/// looked at (`true`) or decoding failed (`false`), with the crate's error
/// text.
pub uninterp spec fn image_decode_problem(bytes: Seq<u8>, file_name: Seq<char>) -> Option<(bool, Seq<char>)>;

/// `image::ImageReader` over bytes in memory, its format set from the file
/// name (`ImageFormat::from_path`) when the extension names one, then
/// `with_guessed_format` and `decode`. The contract ties the outcome to
/// the name [`image_decode_problem`] and says nothing more of it.
#[verifier::external_body]
fn image_decode_check(bytes: &[u8], file_name: &str) -> (r: Option<(bool, String)>)
    ensures
        match r {
            None => image_decode_problem(bytes@, file_name@) is None,
            Some((f, e)) => image_decode_problem(bytes@, file_name@) == Some((f, e@)),
        },
{
    let mut reader = image::ImageReader::new(std::io::Cursor::new(bytes));
    if let Ok(format) = image::ImageFormat::from_path(file_name) {
        reader.set_format(format);
    }
    match reader.with_guessed_format() {
        Ok(reader) => match reader.decode() {
            Ok(_) => None,
            Err(e) => Some((false, e.to_string())),
        },
        Err(e) => Some((true, e.to_string())),
    }
}

/// What the disk showed about an asset's path: its file name (empty when
/// the path has none), whether it exists and is a file, its text when it
/// could be read as text, its bytes (or the error text of opening it),
/// and, for scenes and prefabs, the outcome of reading the text as one.
#[derive(Debug)]
pub struct AssetProbe {
    pub file_name: String,
    pub exists: bool,
    pub is_file: bool,
    pub text: Option<String>,
    pub bytes: Result<Vec<u8>, String>,
    pub structure: Result<(), String>,
}

pub open spec fn ok_v() -> (bool, Seq<char>) {
    (true, "OK"@)
}

pub open spec fn issue_v(m: Seq<char>) -> (bool, Seq<char>) {
    (false, m)
}

/// A text asset: not a file, unreadable, or judged by `check` on its text.
pub open spec fn text_asset(
    p: AssetProbe,
    not_file: Seq<char>,
    unreadable: Seq<char>,
    checked: (bool, Seq<char>),
) -> (bool, Seq<char>) {
    if !p.is_file {
        issue_v(not_file)
    } else if p.text is None {
        issue_v(unreadable)
    } else {
        checked
    }
}

pub open spec fn structure_v(p: AssetProbe) -> (bool, Seq<char>) {
    match p.structure {
        Ok(()) => ok_v(),
        Err(e) => issue_v(e@),
    }
}

pub open spec fn script_v(text: Seq<char>) -> (bool, Seq<char>) {
    let errs = script_errors(text);
    if errs.len() == 0 {
        ok_v()
    } else {
        issue_v(join_bar(displayed(errs)))
    }
}

pub open spec fn json_v(text: Seq<char>) -> (bool, Seq<char>) {
    match json_parse_error(text) {
        None => ok_v(),
        Some(e) => issue_v("JSON inválido: "@ + e),
    }
}

pub open spec fn texture_v(p: AssetProbe) -> (bool, Seq<char>) {
    if !p.is_file {
        issue_v("Textura inválida: o caminho não aponta para um arquivo."@)
    } else {
        match p.bytes {
            Err(e) => issue_v("Textura não pôde ser aberta: "@ + e@),
            Ok(b) => match image_decode_problem(b@, p.file_name@) {
                None => ok_v(),
                Some((true, e)) => issue_v("Não foi possível detectar o formato da imagem: "@ + e),
                Some((false, e)) => issue_v("Imagem quebrada ou formato inválido: "@ + e),
            },
        }
    }
}

pub open spec fn text_of(p: AssetProbe) -> Seq<char> {
    match p.text {
        Some(t) => t@,
        None => seq![],
    }
}

/// The check of an asset of the given type, as (valid, message).
pub open spec fn spec_validate(t: AssetType, p: AssetProbe) -> (bool, Seq<char>) {
    if !p.exists {
        issue_v("Arquivo ou pasta não encontrado no disco."@)
    } else {
        match t {
            AssetType::Folder => ok_v(),
            AssetType::Scene => text_asset(
                p,
                "Cena inválida: o caminho não aponta para um arquivo."@,
                "Cena não pôde ser lida."@,
                structure_v(p),
            ),
            AssetType::Prefab => text_asset(
                p,
                "Prefab inválido: o caminho não aponta para um arquivo."@,
                "Prefab não pôde ser lido."@,
                structure_v(p),
            ),
            AssetType::Texture => texture_v(p),
            AssetType::ScriptRs2 => text_asset(
                p,
                "Script inválido: o caminho não aponta para um arquivo."@,
                "Script não pôde ser lido."@,
                script_v(text_of(p)),
            ),
            AssetType::Audio => if p.is_file {
                ok_v()
            } else {
                issue_v("Áudio inválido ou inacessível."@)
            },
            AssetType::Font => if p.is_file {
                ok_v()
            } else {
                issue_v("Fonte inválida ou inacessível."@)
            },
            AssetType::Json => text_asset(
                p,
                "JSON inválido: o caminho não aponta para um arquivo."@,
                "JSON não pôde ser lido."@,
                json_v(text_of(p)),
            ),
            AssetType::Unknown => issue_v("Tipo de asset desconhecido ou não suportado."@),
        }
    }
}

pub open spec fn validation_v(v: AssetValidation) -> (bool, Seq<char>) {
    (v.is_valid, v.message@)
}

fn issue_lit(m: &str) -> (r: AssetValidation)
    ensures
        validation_v(r) == issue_v(m@),
{
    AssetValidation::issue(String::from_str(m))
}

fn issue_with(prefix: &str, detail: &String) -> (r: AssetValidation)
    ensures
        validation_v(r) == issue_v(prefix@ + detail@),
{
    let mut m = String::from_str(prefix);
    m.append(detail.as_str());
    AssetValidation::issue(m)
}

fn structure_exec(p: &AssetProbe) -> (r: AssetValidation)
    ensures
        validation_v(r) == structure_v(*p),
{
    match &p.structure {
        Ok(()) => AssetValidation::ok(),
        Err(e) => AssetValidation::issue(e.clone()),
    }
}

fn script_exec(text: &String) -> (r: AssetValidation)
    ensures
        validation_v(r) == script_v(text@),
{
    let errors = validate_script(text.as_str());
    if errors.len() == 0 {
        AssetValidation::ok()
    } else {
        let lines = format_script_errors(errors.as_slice());
        AssetValidation::issue(join_with_bar(&lines))
    }
}

fn json_exec(text: &String) -> (r: AssetValidation)
    ensures
        validation_v(r) == json_v(text@),
{
    match json_syntax_check(text.as_str()) {
        Ok(()) => AssetValidation::ok(),
        Err(e) => issue_with("JSON inválido: ", &e),
    }
}

fn texture_exec(p: &AssetProbe) -> (r: AssetValidation)
    ensures
        validation_v(r) == texture_v(*p),
{
    if !p.is_file {
        return issue_lit("Textura inválida: o caminho não aponta para um arquivo.");
    }
    match &p.bytes {
        Err(e) => issue_with("Textura não pôde ser aberta: ", e),
        Ok(b) => match image_decode_check(b.as_slice(), p.file_name.as_str()) {
            None => AssetValidation::ok(),
            Some((true, e)) => issue_with("Não foi possível detectar o formato da imagem: ", &e),
            Some((false, e)) => issue_with("Imagem quebrada ou formato inválido: ", &e),
        },
    }
}

/// Checks an asset of the given type from what the disk showed of it.
pub fn validate_asset_path(asset_type: AssetType, probe: &AssetProbe) -> (r: AssetValidation)
    ensures
        validation_v(r) == spec_validate(asset_type, *probe),
{
    if !probe.exists {
        return issue_lit("Arquivo ou pasta não encontrado no disco.");
    }
    match asset_type {
        AssetType::Folder => AssetValidation::ok(),
        AssetType::Scene => {
            if !probe.is_file {
                issue_lit("Cena inválida: o caminho não aponta para um arquivo.")
            } else if probe.text.is_none() {
                issue_lit("Cena não pôde ser lida.")
            } else {
                structure_exec(probe)
            }
        },
        AssetType::Prefab => {
            if !probe.is_file {
                issue_lit("Prefab inválido: o caminho não aponta para um arquivo.")
            } else if probe.text.is_none() {
                issue_lit("Prefab não pôde ser lido.")
            } else {
                structure_exec(probe)
            }
        },
        AssetType::Texture => texture_exec(probe),
        AssetType::ScriptRs2 => {
            if !probe.is_file {
                issue_lit("Script inválido: o caminho não aponta para um arquivo.")
            } else {
                match &probe.text {
                    None => issue_lit("Script não pôde ser lido."),
                    Some(t) => script_exec(t),
                }
            }
        },
        AssetType::Audio => {
            if probe.is_file {
                AssetValidation::ok()
            } else {
                issue_lit("Áudio inválido ou inacessível.")
            }
        },
        AssetType::Font => {
            if probe.is_file {
                AssetValidation::ok()
            } else {
                issue_lit("Fonte inválida ou inacessível.")
            }
        },
        AssetType::Json => {
            if !probe.is_file {
                issue_lit("JSON inválido: o caminho não aponta para um arquivo.")
            } else {
                match &probe.text {
                    None => issue_lit("JSON não pôde ser lido."),
                    Some(t) => json_exec(t),
                }
            }
        },
        AssetType::Unknown => issue_lit("Tipo de asset desconhecido ou não suportado."),
    }
}

/// The load status of an asset from what the disk showed of it.
pub fn detect_load_status(asset_type: AssetType, is_dir: bool, probe: &AssetProbe) -> (r: AssetLoadStatus)
    ensures
        r == spec_load_status(probe.exists, is_dir, asset_type, spec_validate(asset_type, *probe).0),
{
    let v = validate_asset_path(asset_type, probe);
    detect_load_status_with_validation(probe.exists, is_dir, asset_type, &v)
}

// ── asset records ────────────────────────────────────────────

/// A fresh random identifier (`uuid::Uuid::new_v4`, as text). Nothing is
/// said of the result: it depends on chance.
#[verifier::external_body]
fn new_asset_id() -> String {
    uuid::Uuid::new_v4().to_string()
}

/// An asset as the asset list shows it.
#[derive(Debug)]
pub struct AssetRecord {
    pub id: String,
    pub name: String,
    pub path: String,
    pub asset_type: AssetType,
    pub load_status: AssetLoadStatus,
    pub validation: AssetValidation,
}

impl AssetRecord {
    /// The record of an asset: named by its file name (`asset` when the
    /// path has none), checked from what the disk showed, with a fresh
    /// random id.
    pub fn new(path: String, file_name: Option<&str>, asset_type: AssetType, is_dir: bool, probe: &AssetProbe) -> (r: Self)
        ensures
            r.path == path,
            r.name@ == (match file_name {
                Some(n) => n@,
                None => "asset"@,
            }),
            r.asset_type == asset_type,
            validation_v(r.validation) == spec_validate(asset_type, *probe),
            r.load_status == spec_load_status(probe.exists, is_dir, asset_type, r.validation.is_valid),
    {
        let name = match file_name {
            Some(n) => String::from_str(n),
            None => String::from_str("asset"),
        };
        let validation = validate_asset_path(asset_type, probe);
        let load_status = detect_load_status_with_validation(probe.exists, is_dir, asset_type, &validation);
        AssetRecord { id: new_asset_id(), name, path, asset_type, load_status, validation }
    }
}

/// The order of the asset list: by name, text order.
pub open spec fn record_order() -> spec_fn(AssetRecord, AssetRecord) -> bool {
    |a: AssetRecord, b: AssetRecord| !lex_lt(b.name@, a.name@)
}

/// The asset records in the list's order, by name; records with the same
/// name keep their order.
pub fn sort_asset_records(records: Vec<AssetRecord>) -> (r: Vec<AssetRecord>)
    ensures
        sorted_by(r@, record_order()),
        r@.to_multiset() == records@.to_multiset(),
        forall|x: AssetRecord| #[trigger] same_rank(r@, x, record_order()) == same_rank(records@, x, record_order()),
{
    let ghost le = record_order();
    proof {
        assert forall|a: AssetRecord, b: AssetRecord| #[trigger] le(a, b) || le(b, a) by {
            lemma_lex_total(a.name@, b.name@);
            if lex_lt(a.name@, b.name@) {
                lemma_lex_asymmetric(a.name@, b.name@);
            }
            if a.name@ == b.name@ {
                lemma_lex_irreflexive(a.name@);
            }
        }
        assert forall|a: AssetRecord, b: AssetRecord, c: AssetRecord| #[trigger] le(a, b) && #[trigger] le(b, c) implies le(
            a,
            c,
        ) by {
            if lex_lt(c.name@, a.name@) {
                lemma_lex_total(b.name@, a.name@);
                lemma_lex_total(c.name@, b.name@);
                if !lex_lt(b.name@, a.name@) && b.name@ != a.name@ && c.name@ != b.name@ {
                    lemma_lex_transitive(c.name@, a.name@, b.name@);
                }
            }
        }
    }
    let by_name = |a: &AssetRecord, b: &AssetRecord| -> (x: bool)
        ensures
            x == !lex_lt(b.name@, a.name@),
        { !lex_lt_exec(&chars_of(b.name.as_str()), &chars_of(a.name.as_str())) };
    insertion_sort(records, by_name, Ghost(le))
}

// ── references ───────────────────────────────────────────────

/// A reference as the project's files are searched for it: trimmed, with
/// `\` turned into `/`; `None` when it is blank.
pub open spec fn spec_normalize_reference(raw: Seq<char>) -> Option<Seq<char>> {
    if trim(raw).len() == 0 {
        None
    } else {
        Some(replace_char(trim(raw), '\\', '/'))
    }
}

pub fn normalize_reference(raw: &str) -> (r: Option<String>)
    ensures
        match r {
            Some(s) => spec_normalize_reference(raw@) == Some(s@),
            None => spec_normalize_reference(raw@) is None,
        },
{
    let t = trim_chars(&chars_of(raw));
    if t.len() == 0 {
        None
    } else {
        Some(string_of(&replace_char_chars(&t, '\\', '/')))
    }
}

/// The folders, relative to the project root and in order, in which a
/// referenced asset is looked for.
pub fn reference_search_dirs() -> (r: Vec<&'static str>)
    ensures
        r@.len() == 5,
        r@[0]@ == ""@,
        r@[1]@ == "assets"@,
        r@[2]@ == "assets/scripts"@,
        r@[3]@ == "assets/prefabs"@,
        r@[4]@ == "assets/sprites"@,
{
    vec!["", "assets", "assets/scripts", "assets/prefabs", "assets/sprites"]
}

/// The folders, relative to the project root and in order, in which a
/// script is looked for.
pub fn script_search_dirs() -> (r: Vec<&'static str>)
    ensures
        r@.len() == 3,
        r@[0]@ == ""@,
        r@[1]@ == "assets"@,
        r@[2]@ == "assets/scripts"@,
{
    vec!["", "assets", "assets/scripts"]
}

/// The folders, relative to the project root and in order, in which a
/// sound is looked for.
pub fn audio_search_dirs() -> (r: Vec<&'static str>)
    ensures
        r@.len() == 4,
        r@[0]@ == ""@,
        r@[1]@ == "assets"@,
        r@[2]@ == "assets/sounds"@,
        r@[3]@ == "sounds"@,
{
    vec!["", "assets", "assets/sounds", "sounds"]
}

/// The name `Debug` gives an asset type.
pub open spec fn asset_type_label(t: AssetType) -> Seq<char> {
    match t {
        AssetType::Folder => "Folder"@,
        AssetType::Scene => "Scene"@,
        AssetType::Prefab => "Prefab"@,
        AssetType::Texture => "Texture"@,
        AssetType::Audio => "Audio"@,
        AssetType::Font => "Font"@,
        AssetType::ScriptRs2 => "ScriptRs2"@,
        AssetType::Json => "Json"@,
        AssetType::Unknown => "Unknown"@,
    }
}

pub fn asset_type_name(t: AssetType) -> (r: &'static str)
    ensures
        r@ == asset_type_label(t),
{
    match t {
        AssetType::Folder => "Folder",
        AssetType::Scene => "Scene",
        AssetType::Prefab => "Prefab",
        AssetType::Texture => "Texture",
        AssetType::Audio => "Audio",
        AssetType::Font => "Font",
        AssetType::ScriptRs2 => "ScriptRs2",
        AssetType::Json => "Json",
        AssetType::Unknown => "Unknown",
    }
}

/// The first search location where a referenced asset exists: its type
/// and what the disk showed of it.
#[derive(Debug)]
pub struct FoundReference {
    pub actual_type: AssetType,
    pub probe: AssetProbe,
}

/// The check of a reference: blank is an error; a found asset of another
/// type than the expected one (unless any type is expected) is an error;
/// a found asset is checked as its type; a missing one is an error.
pub open spec fn spec_validate_reference(
    raw: Seq<char>,
    expected: AssetType,
    found: Option<FoundReference>,
) -> (bool, Seq<char>) {
    let trimmed = trim(raw);
    if trimmed.len() == 0 {
        issue_v("Referência vazia."@)
    } else {
        match found {
            Some(f) => if expected != AssetType::Unknown && f.actual_type != expected {
                issue_v(
                    "Referência aponta para "@ + asset_type_label(f.actual_type) + ", mas o esperado era "@
                        + asset_type_label(expected) + "."@,
                )
            } else {
                spec_validate(f.actual_type, f.probe)
            },
            None => issue_v("Arquivo referenciado não encontrado: "@ + trimmed),
        }
    }
}

/// Checks a reference to an asset, given the first search location where
/// it exists (see [`reference_search_dirs`]), if any.
pub fn validate_reference_path(raw_path: &str, expected: AssetType, found: Option<FoundReference>) -> (r: AssetValidation)
    ensures
        validation_v(r) == spec_validate_reference(raw_path@, expected, found),
{
    let trimmed = trim_chars(&chars_of(raw_path));
    if trimmed.len() == 0 {
        return issue_lit("Referência vazia.");
    }
    match found {
        Some(f) => {
            if expected != AssetType::Unknown && f.actual_type != expected {
                let mut m = String::from_str("Referência aponta para ");
                m.append(asset_type_name(f.actual_type));
                m.append(", mas o esperado era ");
                m.append(asset_type_name(expected));
                m.append(".");
                AssetValidation::issue(m)
            } else {
                validate_asset_path(f.actual_type, &f.probe)
            }
        },
        None => issue_with("Arquivo referenciado não encontrado: ", &string_of(&trimmed)),
    }
}

// ── script references ────────────────────────────────────────

/// Where looking for a referenced script led: nowhere (with the path of
/// the first search location), or to a file with this name and path, and
/// its text when it could be read.
#[derive(Debug)]
pub enum ScriptLookup {
    NotFound { first_candidate: String },
    Found { file_name: String, display_path: String, source: Option<String> },
}

/// The message of a script reference that cannot be used: empty path, not
/// an `.rs2` file, not found, unreadable, or failing the script check;
/// `None` when the script can be used.
pub open spec fn spec_script_reference_message(raw: Seq<char>, lookup: ScriptLookup) -> Option<Seq<char>> {
    let trimmed = trim(raw);
    if trimmed.len() == 0 {
        Some("Caminho do script está vazio."@)
    } else {
        match lookup {
            ScriptLookup::NotFound { first_candidate } => {
                if !spec_is_valid_rs2_script(raw) {
                    Some("'"@ + trimmed + "' não é um arquivo .rs2 válido."@)
                } else {
                    Some("Arquivo de script não encontrado: "@ + first_candidate@)
                }
            },
            ScriptLookup::Found { file_name, display_path, source } => {
                if !has_rs2_extension(file_name@) {
                    Some("'"@ + trimmed + "' não é um arquivo .rs2 válido."@)
                } else {
                    match source {
                        None => Some("Falha ao ler o script: "@ + display_path@),
                        Some(s) => if script_errors(s@).len() == 0 {
                            None
                        } else {
                            Some(join_bar(displayed(script_errors(s@))))
                        },
                    }
                }
            },
        }
    }
}

/// Whether a file name's extension is `rs2`, ignoring ASCII case.
pub open spec fn has_rs2_extension(file_name: Seq<char>) -> bool {
    let ext = extension_of(file_name);
    ext is Some && lower_seq(ext->0) == "rs2"@
}

/// The mathematical value of what loading a script gives: the behaviour,
/// or the error with what it carries.
pub enum ScriptLoadModel {
    Behavior(BehaviorModel),
    EmptyPath,
    InvalidExtension(Seq<char>),
    FileNotFound(Seq<char>),
    ReadFailed(Seq<char>),
    ValidationFailed(Seq<(int, Seq<char>)>),
}

pub open spec fn load_result_view(r: Result<ScriptBehavior, ScriptLoadError>) -> ScriptLoadModel {
    match r {
        Ok(b) => ScriptLoadModel::Behavior(b@),
        Err(ScriptLoadError::EmptyPath) => ScriptLoadModel::EmptyPath,
        Err(ScriptLoadError::InvalidExtension(p)) => ScriptLoadModel::InvalidExtension(p@),
        Err(ScriptLoadError::FileNotFound(p)) => ScriptLoadModel::FileNotFound(p@),
        Err(ScriptLoadError::ReadFailed(p)) => ScriptLoadModel::ReadFailed(p@),
        Err(ScriptLoadError::ValidationFailed(e)) => ScriptLoadModel::ValidationFailed(errors_view(e@)),
    }
}

/// What loading the script `raw` refers to gives: an empty path is
/// refused first; a script not found is refused as not an `.rs2` file or
/// as missing (at the first place looked at); a found file that is not
/// `.rs2` is refused, so is one that could not be read, and one whose text
/// has errors (all of them, in line order); otherwise the behaviour its
/// text describes.
pub open spec fn spec_load_script(raw: Seq<char>, lookup: ScriptLookup) -> ScriptLoadModel {
    let trimmed = trim(raw);
    if trimmed.len() == 0 {
        ScriptLoadModel::EmptyPath
    } else {
        match lookup {
            ScriptLookup::NotFound { first_candidate } => {
                if !spec_is_valid_rs2_script(raw) {
                    ScriptLoadModel::InvalidExtension(trimmed)
                } else {
                    ScriptLoadModel::FileNotFound(first_candidate@)
                }
            },
            ScriptLookup::Found { file_name, display_path, source } => {
                if !has_rs2_extension(file_name@) {
                    ScriptLoadModel::InvalidExtension(trimmed)
                } else {
                    match source {
                        None => ScriptLoadModel::ReadFailed(display_path@),
                        Some(s) => if script_errors(s@).len() == 0 {
                            ScriptLoadModel::Behavior(spec_parse_rs2_script(s@))
                        } else {
                            ScriptLoadModel::ValidationFailed(script_errors(s@))
                        },
                    }
                }
            },
        }
    }
}

/// Loads a referenced script: the behaviour its text describes, or why it
/// cannot be used (see [`spec_load_script`]); the error's message is the
/// one of [`spec_script_reference_message`].
pub fn load_script_behavior_checked(raw_path: &str, lookup: ScriptLookup) -> (r: Result<ScriptBehavior, ScriptLoadError>)
    ensures
        load_result_view(r) == spec_load_script(raw_path@, lookup),
        match r {
            Ok(b) => spec_script_reference_message(raw_path@, lookup) is None,
            Err(e) => spec_script_reference_message(raw_path@, lookup) == Some(load_error_text(e)),
        },
{
    let trimmed_chars = trim_chars(&chars_of(raw_path));
    let trimmed = string_of(&trimmed_chars);
    if trimmed_chars.len() == 0 {
        return Err(ScriptLoadError::EmptyPath);
    }
    match lookup {
        ScriptLookup::NotFound { first_candidate } => {
            if !is_valid_rs2_script(raw_path) {
                Err(ScriptLoadError::InvalidExtension(trimmed))
            } else {
                Err(ScriptLoadError::FileNotFound(first_candidate))
            }
        },
        ScriptLookup::Found { file_name, display_path, source } => {
            let ext = extension_chars(&chars_of(file_name.as_str()));
            let is_rs2 = match ext {
                Some(e) => chars_eq(&to_ascii_lower_chars(&e), &chars_of("rs2")),
                None => false,
            };
            if !is_rs2 {
                Err(ScriptLoadError::InvalidExtension(trimmed))
            } else {
                match source {
                    None => Err(ScriptLoadError::ReadFailed(display_path)),
                    Some(s) => {
                        let errors = validate_script(s.as_str());
                        if errors.len() == 0 {
                            Ok(parse_rs2_script(s.as_str()))
                        } else {
                            Err(ScriptLoadError::ValidationFailed(errors))
                        }
                    },
                }
            }
        },
    }
}

/// Whether a referenced script can be used; the message says why not.
pub fn validate_script_reference(raw_path: &str, lookup: ScriptLookup) -> (r: Result<(), String>)
    ensures
        match r {
            Ok(()) => spec_script_reference_message(raw_path@, lookup) is None,
            Err(m) => spec_script_reference_message(raw_path@, lookup) == Some(m@),
        },
{
    match load_script_behavior_checked(raw_path, lookup) {
        Ok(_) => Ok(()),
        Err(e) => Err(e.message()),
    }
}

} // verus!
