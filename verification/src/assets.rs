//! Asset names and kinds: what a file is, by its name, and how the project's
//! asset files are named when they are created, imported, copied or renamed.
use vstd::prelude::*;
use crate::text::{
    chars_eq, chars_of, concat_chars, decimal, decimal_chars, ends_with, ends_with_chars,
    is_ascii_alnum, is_ascii_alnum_char, lower_seq, replace_char, replace_char_chars, string_of,
    sub_chars, to_ascii_lower_chars, trim, trim_chars, lemma_lex_asymmetric, lemma_lex_irreflexive,
    lemma_lex_total, lemma_lex_transitive, lex_lt, lex_lt_exec, starts_with, starts_with_chars,
    trim_end_char, trim_end_char_chars, trim_start_char, trim_start_char_chars, opt_view,
};
use crate::sorting::{insertion_sort, same_rank, sorted_by};

verus! {

/// What an entry of the asset tree is, for the asset browser.
#[derive(Debug, Clone, Copy, PartialEq, Eq, Structural)]
pub enum AssetKind {
    Folder,
    Scene,
    Sprite,
    ScriptRs2,
    ScriptLua,
    Audio,
    Font,
    Prefab,
    Json,
    Unknown,
}

/// What an asset is, for validation and asset records.
#[derive(Debug, Clone, Copy, PartialEq, Eq, Structural)]
pub enum AssetType {
    Folder,
    Scene,
    Prefab,
    Texture,
    Audio,
    Font,
    ScriptRs2,
    Json,
    Unknown,
}

/// Whether an asset can be used.
#[derive(Debug, Clone, Copy, PartialEq, Eq, Structural)]
pub enum AssetLoadStatus {
    NotLoaded,
    Ready,
    Missing,
    Invalid,
}

/// The outcome of checking an asset.
#[derive(Debug, Clone)]
pub struct AssetValidation {
    pub is_valid: bool,
    pub message: String,
}

impl AssetValidation {
    /// A passed check, with the message `OK`.
    pub fn ok() -> (r: Self)
        ensures
            r.is_valid,
            r.message@ == "OK"@,
    {
        AssetValidation { is_valid: true, message: String::from_str("OK") }
    }

    /// A failed check with the given message.
    pub fn issue(message: String) -> (r: Self)
        ensures
            !r.is_valid,
            r.message@ == message@,
    {
        AssetValidation { is_valid: false, message }
    }
}

// ── file names ───────────────────────────────────────────────

/// Index of the last `.` in `s`, or -1.
pub open spec fn last_dot(s: Seq<char>) -> int
    decreases s.len(),
{
    if s.len() == 0 {
        -1
    } else if s.last() == '.' {
        s.len() - 1
    } else {
        last_dot(s.drop_last())
    }
}

proof fn lemma_last_dot(s: Seq<char>)
    ensures
        -1 <= last_dot(s) < s.len(),
        last_dot(s) >= 0 ==> s[last_dot(s)] == '.',
        forall|j: int| last_dot(s) < j < s.len() ==> s[j] != '.',
    decreases s.len(),
{
    if s.len() > 0 && s.last() != '.' {
        lemma_last_dot(s.drop_last());
        assert forall|j: int| last_dot(s) < j < s.len() implies s[j] != '.' by {
            if j < s.len() - 1 {
                assert(s[j] == s.drop_last()[j]);
            }
        }
    }
}

/// `Path::extension` of a file name: the text after the last `.`, unless
/// there is no `.`, the only `.` is the first character, or the name is `..`.
pub open spec fn extension_of(name: Seq<char>) -> Option<Seq<char>> {
    let d = last_dot(name);
    if name == ".."@ || d <= 0 {
        None
    } else {
        Some(name.skip(d + 1))
    }
}

/// `Path::file_stem` of a file name (`None` for an empty name, `.` and `..`).
pub open spec fn file_stem_of(name: Seq<char>) -> Option<Seq<char>> {
    let d = last_dot(name);
    if name.len() == 0 || name == "."@ || name == ".."@ {
        None
    } else if d <= 0 {
        Some(name)
    } else {
        Some(name.take(d))
    }
}

fn find_last_dot(s: &Vec<char>) -> (r: Option<usize>)
    ensures
        match r {
            Some(i) => i as int == last_dot(s@),
            None => last_dot(s@) == -1,
        },
{
    let mut j: usize = s.len();
    assert(s@.take(j as int) == s@);
    while j > 0
        invariant
            j <= s.len(),
            last_dot(s@) == last_dot(s@.take(j as int)),
        decreases j,
    {
        if s[j - 1] == '.' {
            assert(s@.take(j as int).last() == '.');
            return Some(j - 1);
        }
        assert(s@.take(j as int).drop_last() == s@.take(j - 1));
        j -= 1;
    }
    None
}

proof fn lemma_take_all(s: Seq<char>)
    ensures
        s.take(s.len() as int) == s,
{
}

fn is_dot_dot(name: &Vec<char>) -> (r: bool)
    ensures
        r == (name@ == ".."@),
{
    chars_eq(name, &chars_of(".."))
}

/// The extension of a file name (see [`extension_of`]).
pub fn extension_chars(name: &Vec<char>) -> (r: Option<Vec<char>>)
    ensures
        match r {
            Some(e) => extension_of(name@) == Some(e@),
            None => extension_of(name@) is None,
        },
{
    proof {
        lemma_take_all(name@);
        lemma_last_dot(name@);
    }
    if is_dot_dot(name) {
        return None;
    }
    match find_last_dot(name) {
        Some(d) => {
            if d == 0 {
                None
            } else {
                proof {
                    lemma_last_dot(name@);
                }
                assert(d < name.len());
                let e = sub_chars(name, d + 1, name.len());
                assert(e@ == name@.skip(d + 1));
                Some(e)
            }
        },
        None => None,
    }
}

/// The stem of a file name (see [`file_stem_of`]).
pub fn file_stem_chars(name: &Vec<char>) -> (r: Option<Vec<char>>)
    ensures
        match r {
            Some(e) => file_stem_of(name@) == Some(e@),
            None => file_stem_of(name@) is None,
        },
{
    proof {
        lemma_take_all(name@);
        lemma_last_dot(name@);
    }
    if name.len() == 0 || chars_eq(name, &chars_of(".")) || is_dot_dot(name) {
        return None;
    }
    match find_last_dot(name) {
        Some(d) => {
            if d == 0 {
                Some(sub_chars(name, 0, name.len()))
            } else {
                Some(sub_chars(name, 0, d))
            }
        },
        None => Some(sub_chars(name, 0, name.len())),
    }
}

// ── kinds ────────────────────────────────────────────────────

pub open spec fn is_image_ext(e: Seq<char>) -> bool {
    e == "png"@ || e == "jpg"@ || e == "jpeg"@ || e == "webp"@
}

pub open spec fn is_audio_ext(e: Seq<char>) -> bool {
    e == "wav"@ || e == "ogg"@ || e == "mp3"@
}

pub open spec fn is_font_ext(e: Seq<char>) -> bool {
    e == "ttf"@ || e == "otf"@
}

/// The kind of a file by its lowercased extension.
pub open spec fn kind_of_extension(e: Option<Seq<char>>) -> AssetKind {
    match e {
        Some(x) => {
            let l = lower_seq(x);
            if l == "rs2"@ {
                AssetKind::ScriptRs2
            } else if l == "lua"@ {
                AssetKind::ScriptLua
            } else if is_image_ext(l) {
                AssetKind::Sprite
            } else if is_audio_ext(l) {
                AssetKind::Audio
            } else if is_font_ext(l) {
                AssetKind::Font
            } else if l == "json"@ {
                AssetKind::Json
            } else {
                AssetKind::Unknown
            }
        },
        None => AssetKind::Unknown,
    }
}

pub open spec fn is_prefab_name(lower_name: Seq<char>) -> bool {
    ends_with(lower_name, ".matr.json"@) || ends_with(lower_name, ".prefab.json"@)
}

/// The kind of an asset from its file name and whether it is a directory.
pub open spec fn spec_asset_kind(file_name: Seq<char>, is_dir: bool) -> AssetKind {
    let l = lower_seq(file_name);
    if is_dir {
        AssetKind::Folder
    } else if ends_with(l, ".scene.json"@) {
        AssetKind::Scene
    } else if is_prefab_name(l) {
        AssetKind::Prefab
    } else {
        kind_of_extension(extension_of(file_name))
    }
}

/// Whether the lowercase text ends with the last character of a scene or
/// prefab file name (`n`, from `json`).
proof fn lemma_not_scene_or_prefab(name: Seq<char>, ext: Seq<char>)
    requires
        extension_of(name) == Some(ext),
        lower_seq(ext).len() > 0,
        lower_seq(ext).last() != 'n',
    ensures
        !ends_with(lower_seq(name), ".scene.json"@),
        !is_prefab_name(lower_seq(name)),
{
    lemma_last_dot(name);
    let l = lower_seq(name);
    assert(ext.last() == name.last());
    assert(lower_seq(ext).last() == l.last());
    reveal_strlit(".scene.json");
    reveal_strlit(".matr.json");
    reveal_strlit(".prefab.json");
    if ends_with(l, ".scene.json"@) {
        assert(l.skip(l.len() - 11).last() == l.last());
    }
    if ends_with(l, ".matr.json"@) {
        assert(l.skip(l.len() - 10).last() == l.last());
    }
    if ends_with(l, ".prefab.json"@) {
        assert(l.skip(l.len() - 12).last() == l.last());
    }
}

/// A file (not a folder) is classified by its extension, in any letter
/// case: `rs2` and `lua` are scripts, `png`, `jpg`, `jpeg` and `webp`
/// sprites, `wav`, `ogg` and `mp3` audio, `ttf` and `otf` fonts; a folder is
/// a folder whatever its name.
pub proof fn law_kind_follows_extension(name: Seq<char>, ext: Seq<char>)
    requires
        extension_of(name) == Some(ext),
    ensures
        spec_asset_kind(name, true) == AssetKind::Folder,
        lower_seq(ext) == "rs2"@ ==> spec_asset_kind(name, false) == AssetKind::ScriptRs2,
        lower_seq(ext) == "lua"@ ==> spec_asset_kind(name, false) == AssetKind::ScriptLua,
        lower_seq(ext) == "png"@ || lower_seq(ext) == "jpg"@ || lower_seq(ext) == "jpeg"@ || lower_seq(ext)
            == "webp"@ ==> spec_asset_kind(name, false) == AssetKind::Sprite,
        lower_seq(ext) == "wav"@ || lower_seq(ext) == "ogg"@ || lower_seq(ext) == "mp3"@ ==> spec_asset_kind(
            name,
            false,
        ) == AssetKind::Audio,
        lower_seq(ext) == "ttf"@ || lower_seq(ext) == "otf"@ ==> spec_asset_kind(name, false)
            == AssetKind::Font,
{
    reveal_strlit("rs2");
    reveal_strlit("lua");
    reveal_strlit("png");
    reveal_strlit("jpg");
    reveal_strlit("jpeg");
    reveal_strlit("webp");
    reveal_strlit("wav");
    reveal_strlit("ogg");
    reveal_strlit("mp3");
    reveal_strlit("ttf");
    reveal_strlit("otf");
    reveal_strlit("json");
    let le = lower_seq(ext);
    if le == "rs2"@ || le == "lua"@ || le == "png"@ || le == "jpg"@ || le == "jpeg"@ || le == "webp"@
        || le == "wav"@ || le == "ogg"@ || le == "mp3"@ || le == "ttf"@ || le == "otf"@ {
        lemma_not_scene_or_prefab(name, ext);
        let (c0, c1, n) = (le[0], le[1], le.len());
        if le == "rs2"@ {
            assert(c0 == 'r');
        } else if le == "lua"@ {
            assert(c0 == 'l');
        } else if le == "png"@ {
            assert(c0 == 'p');
        } else if le == "jpg"@ {
            assert(c0 == 'j' && n == 3);
        } else if le == "jpeg"@ {
            assert(c0 == 'j' && n == 4);
        } else if le == "webp"@ {
            assert(c0 == 'w' && n == 4);
        } else if le == "wav"@ {
            assert(c0 == 'w' && n == 3);
        } else if le == "ogg"@ {
            assert(c0 == 'o' && c1 == 'g');
        } else if le == "mp3"@ {
            assert(c0 == 'm');
        } else if le == "ttf"@ {
            assert(c0 == 't');
        } else {
            assert(c0 == 'o' && c1 == 't');
        }
    }
}

fn eq_lit(s: &Vec<char>, lit: &str) -> (r: bool)
    ensures
        r == (s@ == lit@),
{
    chars_eq(s, &chars_of(lit))
}

fn ends_with_lit(s: &Vec<char>, lit: &str) -> (r: bool)
    ensures
        r == ends_with(s@, lit@),
{
    ends_with_chars(s, &chars_of(lit))
}

fn kind_of_extension_exec(e: Option<Vec<char>>) -> (r: AssetKind)
    ensures
        r == kind_of_extension(
            match e {
                Some(x) => Some(x@),
                None => None,
            },
        ),
{
    match e {
        Some(x) => {
            let l = to_ascii_lower_chars(&x);
            if eq_lit(&l, "rs2") {
                AssetKind::ScriptRs2
            } else if eq_lit(&l, "lua") {
                AssetKind::ScriptLua
            } else if eq_lit(&l, "png") || eq_lit(&l, "jpg") || eq_lit(&l, "jpeg") || eq_lit(
                &l,
                "webp",
            ) {
                AssetKind::Sprite
            } else if eq_lit(&l, "wav") || eq_lit(&l, "ogg") || eq_lit(&l, "mp3") {
                AssetKind::Audio
            } else if eq_lit(&l, "ttf") || eq_lit(&l, "otf") {
                AssetKind::Font
            } else if eq_lit(&l, "json") {
                AssetKind::Json
            } else {
                AssetKind::Unknown
            }
        },
        None => AssetKind::Unknown,
    }
}

/// The kind of an asset from its file name (the last component of its
/// path, empty when the path has none) and whether it is a directory.
pub fn detect_asset_kind(file_name: &str, is_dir: bool) -> (r: AssetKind)
    ensures
        r == spec_asset_kind(file_name@, is_dir),
{
    let name = chars_of(file_name);
    let l = to_ascii_lower_chars(&name);
    if is_dir {
        AssetKind::Folder
    } else if ends_with_lit(&l, ".scene.json") {
        AssetKind::Scene
    } else if ends_with_lit(&l, ".matr.json") || ends_with_lit(&l, ".prefab.json") {
        AssetKind::Prefab
    } else {
        kind_of_extension_exec(extension_chars(&name))
    }
}

/// The asset type that corresponds to an asset kind (a Lua script has no
/// asset type of its own).
pub open spec fn type_of_kind(k: AssetKind) -> AssetType {
    match k {
        AssetKind::Folder => AssetType::Folder,
        AssetKind::Scene => AssetType::Scene,
        AssetKind::Sprite => AssetType::Texture,
        AssetKind::ScriptRs2 => AssetType::ScriptRs2,
        AssetKind::ScriptLua => AssetType::Unknown,
        AssetKind::Audio => AssetType::Audio,
        AssetKind::Font => AssetType::Font,
        AssetKind::Prefab => AssetType::Prefab,
        AssetKind::Json => AssetType::Json,
        AssetKind::Unknown => AssetType::Unknown,
    }
}

/// The asset type from a file name and whether it is a directory.
pub fn detect_asset_type(file_name: &str, is_dir: bool) -> (r: AssetType)
    ensures
        r == type_of_kind(spec_asset_kind(file_name@, is_dir)),
{
    match detect_asset_kind(file_name, is_dir) {
        AssetKind::Folder => AssetType::Folder,
        AssetKind::Scene => AssetType::Scene,
        AssetKind::Sprite => AssetType::Texture,
        AssetKind::ScriptRs2 => AssetType::ScriptRs2,
        AssetKind::ScriptLua => AssetType::Unknown,
        AssetKind::Audio => AssetType::Audio,
        AssetKind::Font => AssetType::Font,
        AssetKind::Prefab => AssetType::Prefab,
        AssetKind::Json => AssetType::Json,
        AssetKind::Unknown => AssetType::Unknown,
    }
}

pub fn is_rs2_script_file(file_name: &str, is_dir: bool) -> (r: bool)
    ensures
        r == (spec_asset_kind(file_name@, is_dir) == AssetKind::ScriptRs2),
{
    detect_asset_kind(file_name, is_dir) == AssetKind::ScriptRs2
}

pub fn is_lua_script_file(file_name: &str, is_dir: bool) -> (r: bool)
    ensures
        r == (spec_asset_kind(file_name@, is_dir) == AssetKind::ScriptLua),
{
    detect_asset_kind(file_name, is_dir) == AssetKind::ScriptLua
}

/// The status of an asset: missing when the path does not exist, ready
/// for a directory, invalid when its check failed or its type is unknown,
/// ready otherwise.
pub open spec fn spec_load_status(
    exists: bool,
    is_dir: bool,
    asset_type: AssetType,
    is_valid: bool,
) -> AssetLoadStatus {
    if !exists {
        AssetLoadStatus::Missing
    } else if is_dir {
        AssetLoadStatus::Ready
    } else if !is_valid {
        AssetLoadStatus::Invalid
    } else if asset_type == AssetType::Unknown {
        AssetLoadStatus::Invalid
    } else {
        AssetLoadStatus::Ready
    }
}

pub fn detect_load_status_with_validation(
    exists: bool,
    is_dir: bool,
    asset_type: AssetType,
    validation: &AssetValidation,
) -> (r: AssetLoadStatus)
    ensures
        r == spec_load_status(exists, is_dir, asset_type, validation.is_valid),
{
    if !exists {
        return AssetLoadStatus::Missing;
    }
    if is_dir {
        return AssetLoadStatus::Ready;
    }
    if !validation.is_valid {
        return AssetLoadStatus::Invalid;
    }
    match asset_type {
        AssetType::Unknown => AssetLoadStatus::Invalid,
        _ => AssetLoadStatus::Ready,
    }
}

// ── file predicates of the editor ────────────────────────────

/// Whether a file name's extension, ignoring ASCII case, is `ext`.
pub open spec fn has_extension_ci(file_name: Seq<char>, ext: Seq<char>) -> bool {
    extension_of(file_name) is Some && lower_seq(extension_of(file_name)->0) == ext
}

fn has_extension_ci_exec(file_name: &str, ext: &str) -> (r: bool)
    requires
        lower_seq(ext@) == ext@,
    ensures
        r == has_extension_ci(file_name@, ext@),
{
    match extension_chars(&chars_of(file_name)) {
        Some(e) => eq_lit(&to_ascii_lower_chars(&e), ext),
        None => false,
    }
}

/// Whether a file is an RS2 script by its extension (any case).
pub fn is_rs2_file(file_name: &str) -> (r: bool)
    ensures
        r == has_extension_ci(file_name@, "rs2"@),
{
    proof {
        reveal_strlit("rs2");
        assert(lower_seq("rs2"@) =~= "rs2"@);
    }
    has_extension_ci_exec(file_name, "rs2")
}

/// Whether a file is a Lua script by its extension (any case).
pub fn is_lua_file(file_name: &str) -> (r: bool)
    ensures
        r == has_extension_ci(file_name@, "lua"@),
{
    proof {
        reveal_strlit("lua");
        assert(lower_seq("lua"@) =~= "lua"@);
    }
    has_extension_ci_exec(file_name, "lua")
}

/// Whether a file is an image the engine reads: its extension, in lower
/// case, is `png`, `jpg`, `jpeg` or `webp`.
pub fn is_image_file(file_name: &str) -> (r: bool)
    ensures
        r == (extension_of(file_name@) is Some && is_image_ext(lower_seq(extension_of(file_name@)->0))),
{
    match extension_chars(&chars_of(file_name)) {
        Some(e) => {
            let l = to_ascii_lower_chars(&e);
            eq_lit(&l, "png") || eq_lit(&l, "jpg") || eq_lit(&l, "jpeg") || eq_lit(&l, "webp")
        },
        None => false,
    }
}

/// Whether a file holds a prefab: its name ends in `.matr.json` or
/// `.prefab.json` (in this case).
pub fn is_matr_file(file_name: &str) -> (r: bool)
    ensures
        r == (ends_with(file_name@, ".matr.json"@) || ends_with(file_name@, ".prefab.json"@)),
{
    let n = chars_of(file_name);
    ends_with_lit(&n, ".matr.json") || ends_with_lit(&n, ".prefab.json")
}

// ── the asset tree ───────────────────────────────────────────

/// An entry of the asset tree: its file name (`?` when the path has none),
/// its path, whether it is a directory, and its entries.
#[derive(Debug)]
pub struct AssetNode {
    pub name: String,
    pub path: String,
    pub is_dir: bool,
    pub children: Vec<AssetNode>,
}

/// The icon of an asset kind.
pub open spec fn kind_icon(k: AssetKind) -> Seq<char> {
    match k {
        AssetKind::Folder => "📁"@,
        AssetKind::Scene => "🎬"@,
        AssetKind::Sprite => "🖼"@,
        AssetKind::ScriptRs2 => "📜"@,
        AssetKind::ScriptLua => "🌙"@,
        AssetKind::Audio => "🔊"@,
        AssetKind::Font => "🔤"@,
        AssetKind::Prefab => "🧱"@,
        AssetKind::Json => "📄"@,
        AssetKind::Unknown => "📃"@,
    }
}

impl AssetNode {
    /// The icon of the node's kind, judged by its name and whether it was
    /// a directory when the tree was read.
    pub fn icon(&self) -> (r: &'static str)
        ensures
            r@ == kind_icon(spec_asset_kind(self.name@, self.is_dir)),
    {
        match detect_asset_kind(self.name.as_str(), self.is_dir) {
            AssetKind::Folder => "📁",
            AssetKind::Scene => "🎬",
            AssetKind::Sprite => "🖼",
            AssetKind::ScriptRs2 => "📜",
            AssetKind::ScriptLua => "🌙",
            AssetKind::Audio => "🔊",
            AssetKind::Font => "🔤",
            AssetKind::Prefab => "🧱",
            AssetKind::Json => "📄",
            AssetKind::Unknown => "📃",
        }
    }
}

/// The order of the asset tree: folders first, then by name (text order,
/// as `String`'s `Ord`). `node_le(a, b)`: `a` may come before `b`.
pub open spec fn node_le(a: AssetNode, b: AssetNode) -> bool {
    if a.is_dir != b.is_dir {
        a.is_dir
    } else {
        !lex_lt(b.name@, a.name@)
    }
}

pub open spec fn node_order() -> spec_fn(AssetNode, AssetNode) -> bool {
    |a: AssetNode, b: AssetNode| node_le(a, b)
}

proof fn lemma_node_le_transitive(a: AssetNode, b: AssetNode, c: AssetNode)
    requires
        node_le(a, b),
        node_le(b, c),
    ensures
        node_le(a, c),
{
    if a.is_dir == b.is_dir && b.is_dir == c.is_dir {
        if lex_lt(c.name@, a.name@) {
            lemma_lex_total(b.name@, a.name@);
            lemma_lex_total(c.name@, b.name@);
            if lex_lt(b.name@, a.name@) {
            } else if b.name@ == a.name@ {
            } else {
                if c.name@ == b.name@ {
                } else {
                    lemma_lex_transitive(c.name@, a.name@, b.name@);
                }
            }
        }
    }
}

proof fn lemma_node_le_total(a: AssetNode, b: AssetNode)
    ensures
        node_le(a, b) || node_le(b, a),
{
    lemma_lex_total(a.name@, b.name@);
    if lex_lt(a.name@, b.name@) {
        lemma_lex_asymmetric(a.name@, b.name@);
    }
    if a.name@ == b.name@ {
        lemma_lex_irreflexive(a.name@);
    }
}

fn node_le_exec(a: &AssetNode, b: &AssetNode) -> (r: bool)
    ensures
        r == node_le(*a, *b),
{
    if a.is_dir != b.is_dir {
        a.is_dir
    } else {
        !lex_lt_exec(&chars_of(b.name.as_str()), &chars_of(a.name.as_str()))
    }
}

/// The entries of a folder in the tree's order: folders first, then by
/// name; entries that rank the same keep their order.
pub fn sort_asset_nodes(nodes: Vec<AssetNode>) -> (r: Vec<AssetNode>)
    ensures
        sorted_by(r@, node_order()),
        r@.to_multiset() == nodes@.to_multiset(),
        forall|x: AssetNode| #[trigger] same_rank(r@, x, node_order()) == same_rank(nodes@, x, node_order()),
{
    let ghost le = node_order();
    proof {
        assert forall|a: AssetNode, b: AssetNode| #[trigger] le(a, b) || le(b, a) by {
            lemma_node_le_total(a, b);
        }
        assert forall|a: AssetNode, b: AssetNode, c: AssetNode| #[trigger] le(a, b) && #[trigger] le(b, c) implies le(
            a,
            c,
        ) by {
            lemma_node_le_transitive(a, b, c);
        }
    }
    let node_rank = |a: &AssetNode, b: &AssetNode| -> (x: bool)
        ensures
            x == node_le(*a, *b),
        { node_le_exec(a, b) };
    insertion_sort(nodes, node_rank, Ghost(le))
}

// ── paths below the assets folder ────────────────────────────

/// Where `path` lies below the folder `assets_root`, both written with `/`
/// between parts: empty for the folder itself, the rest after the folder
/// and its separators for a path inside it, `None` for a path outside it.
/// Trailing `/` of the folder are ignored.
pub open spec fn spec_relative_asset_path(path: Seq<char>, assets_root: Seq<char>) -> Option<Seq<char>> {
    let root = trim_end_char(assets_root, '/');
    if path == root {
        Some(seq![])
    } else if starts_with(path, root.push('/')) {
        Some(trim_start_char(path.skip(root.len() + 1int), '/'))
    } else {
        None
    }
}

/// The path of an asset relative to the assets folder.
pub fn relative_asset_path(path: &str, assets_root: &str) -> (r: Option<String>)
    ensures
        opt_view(r) == spec_relative_asset_path(path@, assets_root@),
{
    let p = chars_of(path);
    let root = trim_end_char_chars(&chars_of(assets_root), '/');
    if chars_eq(&p, &root) {
        return Some(String::new());
    }
    let mut with_sep = sub_chars(&root, 0, root.len());
    with_sep.push('/');
    assert(with_sep@ == root@.push('/'));
    if starts_with_chars(&p, &with_sep) {
        assert(with_sep@.len() <= p@.len());
        let k: usize = root.len();
        assert(k + 1 <= p.len());
        let start: usize = k + 1;
        let rest = sub_chars(&p, start, p.len());
        assert(rest@ == p@.skip(root@.len() + 1int));
        Some(string_of(&trim_start_char_chars(&rest, '/')))
    } else {
        None
    }
}

// ── naming ───────────────────────────────────────────────────

pub open spec fn is_asset_name_char(c: char) -> bool {
    is_ascii_alnum(c) || c == '_' || c == '-' || c == '.'
}

/// The characters of `s` that may stand in an asset name, in order.
pub open spec fn keep_name_chars(s: Seq<char>) -> Seq<char>
    decreases s.len(),
{
    if s.len() == 0 {
        seq![]
    } else if is_asset_name_char(s.last()) {
        keep_name_chars(s.drop_last()).push(s.last())
    } else {
        keep_name_chars(s.drop_last())
    }
}

/// An asset name made safe: surrounding white space dropped, spaces turned
/// into `_`, every character other than ASCII letters, digits, `_`, `-` and
/// `.` dropped; `novo_asset` when nothing is left.
pub open spec fn spec_sanitize_asset_name(name: Seq<char>) -> Seq<char> {
    let kept = keep_name_chars(replace_char(trim(name), ' ', '_'));
    if kept.len() == 0 {
        "novo_asset"@
    } else {
        kept
    }
}

pub fn sanitize_asset_name(name: &str) -> (r: String)
    ensures
        r@ == spec_sanitize_asset_name(name@),
{
    let n = chars_of(name);
    let t = trim_chars(&n);
    let s = replace_char_chars(&t, ' ', '_');
    let mut kept: Vec<char> = Vec::new();
    for i in 0..s.len()
        invariant
            kept@ == keep_name_chars(s@.take(i as int)),
    {
        let c = s[i];
        assert(s@.take(i + 1).drop_last() == s@.take(i as int));
        if is_ascii_alnum_char(c) || c == '_' || c == '-' || c == '.' {
            kept.push(c);
        }
    }
    assert(s@.take(s@.len() as int) == s@);
    if kept.len() == 0 {
        String::from_str("novo_asset")
    } else {
        string_of(&kept)
    }
}

/// Every trailing copy of a non-empty `p` removed from `s`
/// (`str::trim_end_matches` with a text pattern).
pub open spec fn trim_end_text(s: Seq<char>, p: Seq<char>) -> Seq<char>
    decreases s.len(),
{
    if p.len() > 0 && ends_with(s, p) {
        trim_end_text(s.take(s.len() - p.len()), p)
    } else {
        s
    }
}

fn trim_end_text_chars(s: &Vec<char>, p: &Vec<char>) -> (r: Vec<char>)
    ensures
        r@ == trim_end_text(s@, p@),
{
    let mut cur = sub_chars(s, 0, s.len());
    assert(cur@ == s@);
    while p.len() > 0 && ends_with_chars(&cur, p)
        invariant
            trim_end_text(s@, p@) == trim_end_text(cur@, p@),
        decreases cur@.len(),
    {
        cur = sub_chars(&cur, 0, cur.len() - p.len());
    }
    cur
}

/// The compound extensions that a rename keeps.
pub open spec fn compound_suffix(current: Seq<char>) -> Option<Seq<char>> {
    if ends_with(current, ".scene.json"@) {
        Some(".scene.json"@)
    } else if ends_with(current, ".prefab.json"@) {
        Some(".prefab.json"@)
    } else if ends_with(current, ".matr.json"@) {
        Some(".matr.json"@)
    } else {
        None
    }
}

/// The file name a rename gives: the new name made safe; for a file, a
/// compound extension (`.scene.json`, `.prefab.json`, `.matr.json`) of the
/// current name is kept, and the current extension is added when the new
/// name has none.
pub open spec fn spec_rename_target(current: Seq<char>, is_file: bool, new_name: Seq<char>) -> Seq<
    char,
> {
    let trimmed = spec_sanitize_asset_name(new_name);
    if !is_file {
        trimmed
    } else {
        match compound_suffix(current) {
            Some(sfx) => trim_end_text(trimmed, sfx) + sfx,
            None => {
                if extension_of(trimmed) is None && extension_of(current) is Some {
                    trimmed + "."@ + extension_of(current)->0
                } else {
                    trimmed
                }
            },
        }
    }
}

/// The file name that renaming an asset called `current_file_name` to
/// `new_name` produces.
pub fn rename_target_name(current_file_name: &str, is_file: bool, new_name: &str) -> (r: String)
    ensures
        r@ == spec_rename_target(current_file_name@, is_file, new_name@),
{
    let trimmed_s = sanitize_asset_name(new_name);
    let trimmed = chars_of(trimmed_s.as_str());
    if !is_file {
        return trimmed_s;
    }
    let current = chars_of(current_file_name);
    let sfx: Option<&str> = if ends_with_lit(&current, ".scene.json") {
        Some(".scene.json")
    } else if ends_with_lit(&current, ".prefab.json") {
        Some(".prefab.json")
    } else if ends_with_lit(&current, ".matr.json") {
        Some(".matr.json")
    } else {
        None
    };
    match sfx {
        Some(x) => {
            let base = trim_end_text_chars(&trimmed, &chars_of(x));
            let mut r = string_of(&base);
            r.append(x);
            r
        },
        None => {
            let new_ext = extension_chars(&trimmed);
            let cur_ext = extension_chars(&current);
            match (new_ext, cur_ext) {
                (None, Some(e)) => {
                    let mut r = trimmed_s;
                    r.append(".");
                    r.append(string_of(&e).as_str());
                    r
                },
                _ => trimmed_s,
            }
        },
    }
}

/// The stem and extension an imported file keeps: the stem is `asset` when
/// the name has none, the extension empty when it has none.
pub open spec fn stem_or_asset(name: Seq<char>) -> Seq<char> {
    match file_stem_of(name) {
        Some(s) => s,
        None => "asset"@,
    }
}

pub open spec fn extension_or_empty(name: Seq<char>) -> Seq<char> {
    match extension_of(name) {
        Some(e) => e,
        None => seq![],
    }
}

/// `<stem><infix><n>` followed by `.<ext>` when there is an extension.
pub open spec fn numbered_name(name: Seq<char>, infix: Seq<char>, n: nat) -> Seq<char> {
    let stem = stem_or_asset(name);
    let ext = extension_or_empty(name);
    if ext.len() == 0 {
        stem + infix + decimal(n)
    } else {
        stem + infix + decimal(n) + "."@ + ext
    }
}

fn numbered_name_exec(name: &str, infix: &str, n: usize) -> (r: String)
    ensures
        r@ == numbered_name(name@, infix@, n as nat),
{
    let c = chars_of(name);
    let stem = match file_stem_chars(&c) {
        Some(s) => string_of(&s),
        None => String::from_str("asset"),
    };
    let ext = match extension_chars(&c) {
        Some(e) => e,
        None => Vec::new(),
    };
    let mut r = stem;
    r.append(infix);
    r.append(string_of(&decimal_chars(n)).as_str());
    if ext.len() > 0 {
        r.append(".");
        r.append(string_of(&ext).as_str());
    }
    r
}

/// A numbered name is never the name it was made from, so importing or
/// duplicating a file never writes over the file it started from.
pub proof fn law_numbered_name_differs(name: Seq<char>, infix: Seq<char>, n: nat)
    requires
        infix.len() > 0,
    ensures
        numbered_name(name, infix, n) != name,
        numbered_name(name, infix, n).len() > name.len(),
{
    lemma_last_dot(name);
    assert(decimal(n).len() >= 1);
    reveal_strlit("asset");
    reveal_strlit(".");
    reveal_strlit("..");
    let d = last_dot(name);
    let stem = stem_or_asset(name);
    let ext = extension_or_empty(name);
    match extension_of(name) {
        Some(e) => {
            assert(name.len() >= 2);
            assert(file_stem_of(name) == Some(name.take(d)));
            assert(stem.len() == d);
            assert(ext.len() == name.len() - d - 1);
        },
        None => {
            assert(ext.len() == 0);
            if name.len() == 0 || name == "."@ || name == ".."@ {
                assert(stem.len() == 5);
            } else {
                assert(d <= 0);
                assert(stem == name);
            }
        },
    }
    assert(numbered_name(name, infix, n).len() > name.len());
}

/// The `n`-th name tried for a file imported into a folder that already
/// holds its name: `<stem>_<n>.<ext>`.
pub fn import_candidate_name(file_name: &str, n: usize) -> (r: String)
    ensures
        r@ == numbered_name(file_name@, "_"@, n as nat),
{
    numbered_name_exec(file_name, "_", n)
}

/// The `n`-th name tried for a copy of an asset: `<stem>_copy_<n>.<ext>`.
pub fn copy_candidate_name(file_name: &str, n: usize) -> (r: String)
    ensures
        r@ == numbered_name(file_name@, "_copy_"@, n as nat),
{
    numbered_name_exec(file_name, "_copy_", n)
}

/// The name used when every numbered name is taken: `<stem>_copy`.
pub fn copy_fallback_name(file_name: &str) -> (r: String)
    ensures
        r@ == stem_or_asset(file_name@) + "_copy"@,
{
    let c = chars_of(file_name);
    let mut r = match file_stem_chars(&c) {
        Some(s) => string_of(&s),
        None => String::from_str("asset"),
    };
    r.append("_copy");
    r
}

// ── names of new files ───────────────────────────────────────

/// The file name of a new scene: the name without trailing `.scene.json`,
/// made safe, then `.scene.json`.
pub open spec fn spec_new_scene_file_name(name: Seq<char>) -> Seq<char> {
    spec_sanitize_asset_name(trim_end_text(name, ".scene.json"@)) + ".scene.json"@
}

/// The file name of a new RS2 script: the name without trailing `.rs2`
/// and then `.rs`, made safe, then `.rs2`.
pub open spec fn spec_new_rs2_file_name(name: Seq<char>) -> Seq<char> {
    spec_sanitize_asset_name(trim_end_text(trim_end_text(name, ".rs2"@), ".rs"@)) + ".rs2"@
}

/// The file name of a new Lua script: the name without trailing `.lua`,
/// made safe, then `.lua`.
pub open spec fn spec_new_lua_file_name(name: Seq<char>) -> Seq<char> {
    spec_sanitize_asset_name(trim_end_text(name, ".lua"@)) + ".lua"@
}

fn with_suffix(base: &Vec<char>, suffix: &str) -> (r: String)
    ensures
        r@ == spec_sanitize_asset_name(base@) + suffix@,
{
    let b = string_of(base);
    let mut r = sanitize_asset_name(b.as_str());
    r.append(suffix);
    r
}

pub fn new_scene_file_name(name: &str) -> (r: String)
    ensures
        r@ == spec_new_scene_file_name(name@),
{
    let base = trim_end_text_chars(&chars_of(name), &chars_of(".scene.json"));
    with_suffix(&base, ".scene.json")
}

pub fn new_rs2_file_name(name: &str) -> (r: String)
    ensures
        r@ == spec_new_rs2_file_name(name@),
{
    let a = trim_end_text_chars(&chars_of(name), &chars_of(".rs2"));
    let base = trim_end_text_chars(&a, &chars_of(".rs"));
    with_suffix(&base, ".rs2")
}

pub fn new_lua_file_name(name: &str) -> (r: String)
    ensures
        r@ == spec_new_lua_file_name(name@),
{
    let base = trim_end_text_chars(&chars_of(name), &chars_of(".lua"));
    with_suffix(&base, ".lua")
}

/// A renamed scene, prefab or MATR file keeps its compound extension,
/// whatever the new name.
pub proof fn law_rename_keeps_compound_extension(current: Seq<char>, new_name: Seq<char>)
    requires
        compound_suffix(current) is Some,
    ensures
        ends_with(spec_rename_target(current, true, new_name), compound_suffix(current)->0),
{
    let sfx = compound_suffix(current)->0;
    lemma_ends_with_concat(trim_end_text(spec_sanitize_asset_name(new_name), sfx), sfx);
}

pub proof fn lemma_ends_with_concat(a: Seq<char>, b: Seq<char>)
    ensures
        ends_with(a + b, b),
{
    assert((a + b).skip((a + b).len() - b.len()) =~= b);
}

/// A new scene file is always a scene by its name; a new RS2 script is
/// always an RS2 script.
pub proof fn law_new_files_have_their_kind(name: Seq<char>)
    ensures
        ends_with(spec_new_scene_file_name(name), ".scene.json"@),
        ends_with(spec_new_rs2_file_name(name), ".rs2"@),
        ends_with(spec_new_lua_file_name(name), ".lua"@),
{
    lemma_ends_with_concat(spec_sanitize_asset_name(trim_end_text(name, ".scene.json"@)), ".scene.json"@);
    lemma_ends_with_concat(
        spec_sanitize_asset_name(trim_end_text(trim_end_text(name, ".rs2"@), ".rs"@)),
        ".rs2"@,
    );
    lemma_ends_with_concat(spec_sanitize_asset_name(trim_end_text(name, ".lua"@)), ".lua"@);
}

/// A safe asset name is never empty and holds only ASCII letters, digits,
/// `_`, `-` and `.`.
pub proof fn law_sanitized_names_are_safe(name: Seq<char>)
    ensures
        spec_sanitize_asset_name(name).len() > 0,
        forall|i: int| 0 <= i < spec_sanitize_asset_name(name).len() ==> is_asset_name_char(
            #[trigger] spec_sanitize_asset_name(name)[i],
        ),
{
    lemma_kept_chars_safe(replace_char(trim(name), ' ', '_'));
    reveal_strlit("novo_asset");
}

proof fn lemma_kept_chars_safe(s: Seq<char>)
    ensures
        forall|i: int| 0 <= i < keep_name_chars(s).len() ==> is_asset_name_char(#[trigger] keep_name_chars(s)[i]),
    decreases s.len(),
{
    if s.len() > 0 {
        let d = s.drop_last();
        lemma_kept_chars_safe(d);
        let k = keep_name_chars(s);
        assert forall|i: int| 0 <= i < k.len() implies is_asset_name_char(#[trigger] k[i]) by {
            if i < keep_name_chars(d).len() {
                assert(k[i] == keep_name_chars(d)[i]);
            }
        }
    }
}

} // verus!
