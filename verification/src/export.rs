//! The standalone PC export: its parameters and the decisions taken before
//! and while packaging (tool check, binary name, bundle names, notes).
use vstd::prelude::*;
use crate::names::{sanitize_filename, spec_sanitize_filename};
use crate::text::{
    chars_eq, chars_of, decimal, decimal_chars, first_index_of, find_char, lemma_first_index_of,
    lines_chars, lines_of, starts_with, starts_with_chars, string_of, sub_chars, trim, trim_char,
    trim_char_chars, trim_chars, views,
};

verus! {

/// A message from the export to whoever shows its progress.
#[derive(Debug)]
pub enum StandaloneBuildNotice {
    Step(String),
    Log(String),
}

/// What an export needs, already checked.
#[derive(Debug, Clone)]
pub struct StandaloneExportParams {
    pub engine_root: String,
    pub bin_name: String,
    pub engine_exe_name: String,
    pub project_name: String,
    pub assets_src: String,
    pub save_src: String,
    pub project_json_src: String,
    pub saved_scene_name: String,
    pub selected_output: String,
}

/// An export can go on when a prebuilt runtime is there or Cargo can build
/// one.
pub fn preflight_standalone_toolchain(prebuilt_found: bool, cargo_available: bool) -> (r: Result<(), String>)
    ensures
        r is Ok <==> (prebuilt_found || cargo_available),
        r matches Err(m) ==> m@ == "Rust/Cargo não encontrado e não há runtime pré-compilado disponível. Para exportar sem Rust instalado, adicione um executável em standalone_runtime/windows/ na raiz da engine."@,
{
    if !prebuilt_found && !cargo_available {
        return Err(
            String::from_str(
                "Rust/Cargo não encontrado e não há runtime pré-compilado disponível. Para exportar sem Rust instalado, adicione um executável em standalone_runtime/windows/ na raiz da engine.",
            ),
        );
    }
    Ok(())
}

// ── binary name from Cargo.toml ──────────────────────────────

/// The value of a `name = "..."` line: the text between the first and the
/// second `=` (or the end), trimmed and without surrounding `"`; `None`
/// when the line holds no `=`.
pub open spec fn name_value(line: Seq<char>) -> Option<Seq<char>> {
    let e = first_index_of(line, '=');
    if e >= line.len() {
        None
    } else {
        let after = line.skip(e + 1);
        let seg = after.take(first_index_of(after, '='));
        Some(trim_char(trim(seg), '"'))
    }
}

/// How scanning lines for a name ends: found, given up (a `name` line
/// without `=`), or not found.
pub enum NameScan {
    Found(Seq<char>),
    GiveUp,
    NotFound,
}

/// The first pass: the `name` of the first `[[bin]]` section.
pub open spec fn bin_section_scan(lines: Seq<Seq<char>>, in_bin: bool) -> NameScan
    decreases lines.len(),
{
    if lines.len() == 0 {
        NameScan::NotFound
    } else {
        let l = trim(lines[0]);
        if l == "[[bin]]"@ {
            bin_section_scan(lines.drop_first(), true)
        } else if in_bin && starts_with(l, "["@) {
            NameScan::NotFound
        } else if in_bin && starts_with(l, "name"@) {
            match name_value(l) {
                None => NameScan::GiveUp,
                Some(v) => if v.len() > 0 {
                    NameScan::Found(v)
                } else {
                    bin_section_scan(lines.drop_first(), in_bin)
                },
            }
        } else {
            bin_section_scan(lines.drop_first(), in_bin)
        }
    }
}

/// The second pass: the first non-empty `name` anywhere.
pub open spec fn any_name_scan(lines: Seq<Seq<char>>) -> NameScan
    decreases lines.len(),
{
    if lines.len() == 0 {
        NameScan::NotFound
    } else {
        let l = trim(lines[0]);
        if starts_with(l, "name"@) {
            match name_value(l) {
                None => NameScan::GiveUp,
                Some(v) => if v.len() > 0 {
                    NameScan::Found(v)
                } else {
                    any_name_scan(lines.drop_first())
                },
            }
        } else {
            any_name_scan(lines.drop_first())
        }
    }
}

/// The binary name a `Cargo.toml` text gives: the `name` of its `[[bin]]`
/// section, else the first `name` of the file.
pub open spec fn spec_bin_name(content: Seq<char>) -> Option<Seq<char>> {
    let lines = lines_of(content);
    match bin_section_scan(lines, false) {
        NameScan::Found(v) => Some(v),
        NameScan::GiveUp => None,
        NameScan::NotFound => match any_name_scan(lines) {
            NameScan::Found(v) => Some(v),
            _ => None,
        },
    }
}

fn name_value_exec(line: &Vec<char>) -> (r: Option<Vec<char>>)
    ensures
        match r {
            Some(v) => name_value(line@) == Some(v@),
            None => name_value(line@) is None,
        },
{
    let e = find_char(line, '=');
    proof {
        lemma_first_index_of(line@, '=');
    }
    if e >= line.len() {
        return None;
    }
    let after = sub_chars(line, e + 1, line.len());
    assert(after@ == line@.skip(e + 1));
    let e2 = find_char(&after, '=');
    proof {
        lemma_first_index_of(after@, '=');
    }
    let seg = sub_chars(&after, 0, e2);
    let t = trim_chars(&seg);
    Some(trim_char_chars(&t, '"'))
}

fn lit(s: &str) -> (r: Vec<char>)
    ensures
        r@ == s@,
{
    chars_of(s)
}

fn bin_section_exec(lines: &Vec<Vec<char>>) -> (r: NameScanResult)
    ensures
        r.matches(bin_section_scan(views(lines@), false)),
{
    let ghost lv = views(lines@);
    let mut in_bin = false;
    let mut i: usize = 0;
    assert(lv.skip(0) == lv);
    while i < lines.len()
        invariant
            lv == views(lines@),
            i <= lines@.len(),
            bin_section_scan(lv, false) == bin_section_scan(lv.skip(i as int), in_bin),
        decreases lines@.len() - i,
    {
        assert(lv.skip(i as int)[0] == lines@[i as int]@);
        assert(lv.skip(i as int).drop_first() == lv.skip(i + 1));
        let l = trim_chars(&lines[i]);
        if chars_eq(&l, &lit("[[bin]]")) {
            in_bin = true;
        } else if in_bin && starts_with_chars(&l, &lit("[")) {
            return NameScanResult::NotFound;
        } else if in_bin && starts_with_chars(&l, &lit("name")) {
            match name_value_exec(&l) {
                None => {
                    return NameScanResult::GiveUp;
                },
                Some(v) => {
                    if v.len() > 0 {
                        return NameScanResult::Found(v);
                    }
                },
            }
        }
        i += 1;
    }
    assert(lv.skip(i as int).len() == 0);
    NameScanResult::NotFound
}

fn any_name_exec(lines: &Vec<Vec<char>>) -> (r: NameScanResult)
    ensures
        r.matches(any_name_scan(views(lines@))),
{
    let ghost lv = views(lines@);
    let mut i: usize = 0;
    assert(lv.skip(0) == lv);
    while i < lines.len()
        invariant
            lv == views(lines@),
            i <= lines@.len(),
            any_name_scan(lv) == any_name_scan(lv.skip(i as int)),
        decreases lines@.len() - i,
    {
        assert(lv.skip(i as int)[0] == lines@[i as int]@);
        assert(lv.skip(i as int).drop_first() == lv.skip(i + 1));
        let l = trim_chars(&lines[i]);
        if starts_with_chars(&l, &lit("name")) {
            match name_value_exec(&l) {
                None => {
                    return NameScanResult::GiveUp;
                },
                Some(v) => {
                    if v.len() > 0 {
                        return NameScanResult::Found(v);
                    }
                },
            }
        }
        i += 1;
    }
    assert(lv.skip(i as int).len() == 0);
    NameScanResult::NotFound
}

/// The executable outcome of a name scan.
pub enum NameScanResult {
    Found(Vec<char>),
    GiveUp,
    NotFound,
}

impl NameScanResult {
    pub open spec fn matches(self, s: NameScan) -> bool {
        match (self, s) {
            (NameScanResult::Found(v), NameScan::Found(w)) => v@ == w,
            (NameScanResult::GiveUp, NameScan::GiveUp) => true,
            (NameScanResult::NotFound, NameScan::NotFound) => true,
            _ => false,
        }
    }
}

/// The binary name from the text of a `Cargo.toml`: the `name` of its
/// `[[bin]]` section, else its first `name`.
pub fn detect_bin_name(cargo_toml: &str) -> (r: Option<String>)
    ensures
        match r {
            Some(v) => spec_bin_name(cargo_toml@) == Some(v@),
            None => spec_bin_name(cargo_toml@) is None,
        },
{
    let lines = lines_chars(&chars_of(cargo_toml));
    match bin_section_exec(&lines) {
        NameScanResult::Found(v) => Some(string_of(&v)),
        NameScanResult::GiveUp => None,
        NameScanResult::NotFound => match any_name_exec(&lines) {
            NameScanResult::Found(v) => Some(string_of(&v)),
            _ => None,
        },
    }
}

// ── bundle names ─────────────────────────────────────────────

/// The name of the exported bundle: the chosen output's stem made safe,
/// or the project name made safe when that is empty or there is none.
pub open spec fn spec_bundle_stem(output_stem: Option<Seq<char>>, project_name: Seq<char>) -> Seq<char> {
    match output_stem {
        Some(s) => if spec_sanitize_filename(s).len() > 0 {
            spec_sanitize_filename(s)
        } else {
            spec_sanitize_filename(project_name)
        },
        None => spec_sanitize_filename(project_name),
    }
}

pub fn export_bundle_stem(output_stem: Option<&str>, project_name: &str) -> (r: String)
    ensures
        r@ == spec_bundle_stem(
            match output_stem {
                Some(s) => Some(s@),
                None => None,
            },
            project_name@,
        ),
{
    match output_stem {
        Some(s) => {
            let safe = sanitize_filename(s);
            if chars_of(safe.as_str()).len() > 0 {
                safe
            } else {
                sanitize_filename(project_name)
            }
        },
        None => sanitize_filename(project_name),
    }
}

/// The executable name of a game: `.exe` added on Windows.
pub fn game_exe_name(stem: &str, windows: bool) -> (r: String)
    ensures
        r@ == (if windows {
            stem@ + ".exe"@
        } else {
            stem@
        }),
{
    let mut r = String::from_str(stem);
    if windows {
        r.append(".exe");
    }
    r
}

/// The temporary build folder of an export, unique by its time stamp.
pub fn build_cache_dir_name(stem: &str, timestamp_ms: u64) -> (r: String)
    ensures
        r@ == ".rs2br_build_cache_"@ + spec_sanitize_filename(stem@) + "_"@ + decimal(
            timestamp_ms as nat,
        ),
{
    let mut r = String::from_str(".rs2br_build_cache_");
    r.append(sanitize_filename(stem).as_str());
    r.append("_");
    r.append(string_of(&decimal_u64(timestamp_ms)).as_str());
    r
}

fn decimal_u64(n: u64) -> (r: Vec<char>)
    ensures
        r@ == decimal(n as nat),
    decreases n,
{
    let d = (n % 10) as u8;
    let c = (d + 48) as char;
    assert(c == crate::text::digit_char((n % 10) as nat));
    if n < 10 {
        vec![c]
    } else {
        let mut r = decimal_u64(n / 10);
        r.push(c);
        r
    }
}

/// The read-me placed beside an exported game.
pub open spec fn spec_readme(project_name: Seq<char>, scene: Seq<char>, exe: Seq<char>, prebuilt: bool) -> Seq<char> {
    "RS2BR Engine - Build Standalone PC\n\nProjeto: "@ + project_name + "\nCena inicial: "@ + scene
        + "\nExecutável: "@ + exe + "\nModo: "@ + (if prebuilt {
        "Runtime pré-compilado"@
    } else {
        "Compilado via Cargo local"@
    }) + "\n\nPara rodar:\n1. Deixe esta pasta inteira junta.\n2. Execute "@ + exe
        + ".\n\nRequisitos:\n- Não precisa de Rust ou Cargo.\n- Se o Windows reclamar de runtime C++, instale o Microsoft Visual C++ Redistributable 2015-2022 (x64).\n"@
}

pub fn export_readme(project_name: &str, saved_scene_name: &str, game_exe: &str, prebuilt: bool) -> (r: String)
    ensures
        r@ == spec_readme(project_name@, saved_scene_name@, game_exe@, prebuilt),
{
    let mut r = String::from_str("RS2BR Engine - Build Standalone PC\n\nProjeto: ");
    r.append(project_name);
    r.append("\nCena inicial: ");
    r.append(saved_scene_name);
    r.append("\nExecutável: ");
    r.append(game_exe);
    r.append("\nModo: ");
    if prebuilt {
        r.append("Runtime pré-compilado");
    } else {
        r.append("Compilado via Cargo local");
    }
    r.append("\n\nPara rodar:\n1. Deixe esta pasta inteira junta.\n2. Execute ");
    r.append(game_exe);
    r.append(
        ".\n\nRequisitos:\n- Não precisa de Rust ou Cargo.\n- Se o Windows reclamar de runtime C++, instale o Microsoft Visual C++ Redistributable 2015-2022 (x64).\n",
    );
    r
}

// ── command line ─────────────────────────────────────────────

/// The engine's command line: an optional subcommand.
#[derive(Debug)]
pub struct EngineCli {
    pub command: Option<EngineCommands>,
}

/// The engine's subcommands.
#[derive(Debug)]
pub enum EngineCommands {
    Build(BuildArgs),
}

/// The arguments of `build`: the project folder, the chosen output, and
/// whether to skip re-saving the initial scene.
#[derive(Debug, Clone)]
pub struct BuildArgs {
    pub project: String,
    pub output: Option<String>,
    pub no_save_scene: bool,
}

} // verus!
