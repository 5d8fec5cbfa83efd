//! Decisions of the editor that do not draw anything: status levels,
//! warning lists, the recent projects, the asset browser's filters and
//! listing order, animator frame lists and the entity icons and badges
//! shown in the hierarchy and the scene view.
use vstd::prelude::*;
use crate::assets::{
    extension_of, is_audio_ext, is_font_ext, is_image_ext, is_prefab_name, law_kind_follows_extension,
    spec_asset_kind, AssetKind, AssetNode,
};
use crate::hierarchy::{ComponentKind, EntityNode};
use crate::sorting::{insertion_sort, same_rank, sorted_by};
use crate::text::{
    lines_chars, lines_of, non_empty, string_views, split_whitespace_chars, trim_char, trim_char_chars, views, words,
    chars_eq, chars_of, contains_chars, contains_seq, ends_with, ends_with_chars, lower_seq,
    starts_with, starts_with_chars, string_of, sub_chars, to_ascii_lower_chars, trim, trim_chars,
    trim_start, trim_start_chars, lemma_lex_asymmetric, lemma_lex_irreflexive, lemma_lex_total,
    lemma_lex_transitive, lex_lt, lex_lt_exec,
};

verus! {

/// Whether the editor is editing or running the scene.
#[derive(Debug, Clone, Copy, PartialEq, Eq, Structural)]
pub enum EditorPlayState {
    Edit,
    Playing,
    Paused,
}

/// The quick filters of the asset browser.
#[derive(Debug, Clone, Copy, PartialEq, Eq, Structural)]
pub enum AssetBrowserFilter {
    All,
    Images,
    Scripts,
    Scenes,
    Prefabs,
    Audio,
    Fonts,
}

/// The tabs of the bottom dock.
#[derive(Debug, Clone, Copy, PartialEq, Eq, Structural)]
pub enum BottomDockTab {
    Assets,
    Animator,
}

/// What a pending delete confirmation is about.
#[derive(Debug, Clone)]
pub enum DeleteTarget {
    Entities { ids: Vec<String>, label: String },
    Asset { path: String, label: String },
}

/// The editor's screens.
#[derive(Debug, Clone, Copy, PartialEq, Eq, Structural)]
pub enum EditorScreen {
    ProjectHub,
    Editor,
}

/// The projects the project hub remembers.
#[derive(Debug, Clone)]
pub struct ProjectHubSession {
    pub last_project: Option<String>,
    pub recent_projects: Vec<String>,
}

/// `recent` without any copy of `root`, in order.
pub open spec fn without_entry(recent: Seq<Seq<char>>, root: Seq<char>) -> Seq<Seq<char>>
    decreases recent.len(),
{
    if recent.len() == 0 {
        seq![]
    } else if recent.last() == root {
        without_entry(recent.drop_last(), root)
    } else {
        without_entry(recent.drop_last(), root).push(recent.last())
    }
}

/// How many projects the hub remembers.
pub const RECENT_PROJECTS_LIMIT: usize = 8;

/// The recent projects after opening `root`: it comes first, its older
/// entries go, and only the first [`RECENT_PROJECTS_LIMIT`] are kept.
pub open spec fn spec_recent_after(recent: Seq<Seq<char>>, root: Seq<char>) -> Seq<Seq<char>> {
    let all = seq![root] + without_entry(recent, root);
    if all.len() > RECENT_PROJECTS_LIMIT {
        all.take(RECENT_PROJECTS_LIMIT as int)
    } else {
        all
    }
}

impl ProjectHubSession {
    /// Records that the project at `root` was opened: it becomes the last
    /// project and heads the recent list.
    pub fn register_recent_project(&mut self, root: &str)
        ensures
            string_views(final(self).recent_projects@) == spec_recent_after(string_views(old(self).recent_projects@), root@),
            final(self).last_project matches Some(p) && p@ == root@,
    {
        let ghost old_recent = string_views(self.recent_projects@);
        let mut kept: Vec<String> = Vec::new();
        kept.push(String::from_str(root));
        let n = self.recent_projects.len();
        for i in 0..n
            invariant
                n == self.recent_projects.len(),
                old_recent == string_views(self.recent_projects@),
                string_views(kept@) == seq![root@] + without_entry(old_recent.take(i as int), root@),
        {
            assert(old_recent.take(i + 1).drop_last() == old_recent.take(i as int));
            assert(old_recent.take(i + 1).last() == self.recent_projects@[i as int]@);
            let entry = String::from_str(self.recent_projects[i].as_str());
            if !chars_eq(&chars_of(entry.as_str()), &chars_of(root)) {
                let ghost before = string_views(kept@);
                kept.push(entry);
                assert(string_views(kept@) =~= before.push(self.recent_projects@[i as int]@));
            }
        }
        assert(old_recent.take(n as int) == old_recent);
        if kept.len() > RECENT_PROJECTS_LIMIT {
            let ghost before = string_views(kept@);
            kept.truncate(RECENT_PROJECTS_LIMIT);
            assert(string_views(kept@) =~= before.take(RECENT_PROJECTS_LIMIT as int));
        }
        self.recent_projects = kept;
        self.last_project = Some(String::from_str(root));
    }
}

/// After a project is opened it heads the recent list, appears there once,
/// and the list holds at most [`RECENT_PROJECTS_LIMIT`] entries.
pub proof fn law_recent_project_first_and_once(recent: Seq<Seq<char>>, root: Seq<char>)
    ensures
        spec_recent_after(recent, root).len() > 0,
        spec_recent_after(recent, root)[0] == root,
        spec_recent_after(recent, root).len() <= RECENT_PROJECTS_LIMIT,
        forall|i: int| 0 < i < spec_recent_after(recent, root).len() ==> spec_recent_after(recent, root)[i] != root,
{
    lemma_without_entry(recent, root);
    let all = seq![root] + without_entry(recent, root);
    assert forall|i: int| 0 < i < spec_recent_after(recent, root).len() implies spec_recent_after(recent, root)[i]
        != root by {
        assert(all[i] == without_entry(recent, root)[i - 1]);
    }
}

proof fn lemma_without_entry(recent: Seq<Seq<char>>, root: Seq<char>)
    ensures
        forall|i: int| 0 <= i < without_entry(recent, root).len() ==> without_entry(recent, root)[i] != root,
        without_entry(recent, root).len() <= recent.len(),
    decreases recent.len(),
{
    if recent.len() > 0 {
        lemma_without_entry(recent.drop_last(), root);
    }
}

/// How the status bar shows a message.
#[derive(Debug, Clone, Copy, PartialEq, Eq, Structural)]
pub enum EditorStatusLevel {
    Info,
    Success,
    Warning,
    Error,
}

/// The level of a status message, read from how it starts (after leading
/// white space): `❌` or `erro` in any ASCII case is an error, `⚠` a
/// warning, `✅` or `✔` a success, anything else information.
pub open spec fn spec_status_level(message: Seq<char>) -> EditorStatusLevel {
    let t = trim_start(message);
    if (t.len() > 0 && t[0] == '❌') || starts_with(lower_seq(t), "erro"@) {
        EditorStatusLevel::Error
    } else if t.len() > 0 && t[0] == '⚠' {
        EditorStatusLevel::Warning
    } else if t.len() > 0 && (t[0] == '✅' || t[0] == '✔') {
        EditorStatusLevel::Success
    } else {
        EditorStatusLevel::Info
    }
}

pub fn infer_status_level(message: &str) -> (r: EditorStatusLevel)
    ensures
        r == spec_status_level(message@),
{
    let t = trim_start_chars(&chars_of(message));
    let l = to_ascii_lower_chars(&t);
    if (t.len() > 0 && t[0] == '❌') || starts_with_chars(&l, &chars_of("erro")) {
        EditorStatusLevel::Error
    } else if t.len() > 0 && t[0] == '⚠' {
        EditorStatusLevel::Warning
    } else if t.len() > 0 && (t[0] == '✅' || t[0] == '✔') {
        EditorStatusLevel::Success
    } else {
        EditorStatusLevel::Info
    }
}

pub proof fn lemma_contains_push<A>(s: Seq<A>, a: A, x: A)
    ensures
        s.push(a).contains(x) == (s.contains(x) || x == a),
{
    if s.push(a).contains(x) {
        let k = choose|k: int| 0 <= k < s.push(a).len() && s.push(a)[k] == x;
        if k < s.len() {
            assert(s[k] == x);
        }
    }
    if s.contains(x) {
        let k = choose|k: int| 0 <= k < s.len() && s[k] == x;
        assert(s.push(a)[k] == x);
    }
    if x == a {
        assert(s.push(a)[s.len() as int] == x);
    }
}

// ── warnings ─────────────────────────────────────────────────

/// What a scene warning is about.
#[derive(Debug, Clone, Copy, PartialEq, Eq, Structural)]
pub enum EditorWarningKind {
    Scene,
    Sprite,
    Script,
    Prefab,
}

/// A problem the editor reports about the open scene.
#[derive(Debug, Clone)]
pub struct EditorWarning {
    pub kind: EditorWarningKind,
    pub label: String,
    pub details: String,
}

impl View for EditorWarning {
    type V = (EditorWarningKind, Seq<char>, Seq<char>);

    open spec fn view(&self) -> (EditorWarningKind, Seq<char>, Seq<char>) {
        (self.kind, self.label@, self.details@)
    }
}

pub open spec fn warnings_view(s: Seq<EditorWarning>) -> Seq<(EditorWarningKind, Seq<char>, Seq<char>)> {
    s.map_values(|w: EditorWarning| w@)
}

/// The warnings with every repetition of an earlier one left out.
pub open spec fn dedup(s: Seq<(EditorWarningKind, Seq<char>, Seq<char>)>) -> Seq<
    (EditorWarningKind, Seq<char>, Seq<char>),
>
    decreases s.len(),
{
    if s.len() == 0 {
        seq![]
    } else {
        let d = dedup(s.drop_last());
        if d.contains(s.last()) {
            d
        } else {
            d.push(s.last())
        }
    }
}

fn same_warning(a: &EditorWarning, b: &EditorWarning) -> (r: bool)
    ensures
        r == (a@ == b@),
{
    a.kind == b.kind && a.label == b.label && a.details == b.details
}

/// Drops every warning equal (kind, label and details) to an earlier one.
pub fn dedupe_warnings(warnings: &mut Vec<EditorWarning>)
    ensures
        warnings_view(final(warnings)@) == dedup(warnings_view(old(warnings)@)),
{
    let ghost input = warnings_view(warnings@);
    let mut unique: Vec<EditorWarning> = Vec::new();
    let mut rest: Vec<EditorWarning> = Vec::new();
    std::mem::swap(&mut rest, warnings);
    let n = rest.len();
    let mut i: usize = 0;
    while i < n
        invariant
            n == rest.len(),
            input == warnings_view(rest@),
            i <= n,
            warnings_view(unique@) == dedup(input.take(i as int)),
        decreases n - i,
    {
        let w = &rest[i];
        let mut exists = false;
        let mut j: usize = 0;
        while j < unique.len()
            invariant
                j <= unique.len(),
                exists == warnings_view(unique@).take(j as int).contains(w@),
            decreases unique.len() - j,
        {
            assert(warnings_view(unique@).take(j + 1) == warnings_view(unique@).take(j as int).push(
                unique@[j as int]@,
            ));
            proof {
                lemma_contains_push(warnings_view(unique@).take(j as int), unique@[j as int]@, w@);
            }
            if same_warning(&unique[j], w) {
                exists = true;
            }
            j += 1;
        }
        assert(warnings_view(unique@).take(unique@.len() as int) == warnings_view(unique@));
        assert(input.take(i + 1).drop_last() == input.take(i as int));
        assert(input.take(i + 1).last() == w@);
        if !exists {
            let copy = EditorWarning { kind: w.kind, label: w.label.clone(), details: w.details.clone() };
            let ghost before = unique@;
            unique.push(copy);
            assert(warnings_view(unique@) == warnings_view(before).push(copy@));
        }
        i += 1;
    }
    assert(input.take(n as int) == input);
    *warnings = unique;
}

/// Every warning kept by [`dedup`] is different from every other.
pub proof fn law_dedup_no_repeats(s: Seq<(EditorWarningKind, Seq<char>, Seq<char>)>)
    ensures
        dedup(s).no_duplicates(),
        forall|x| #[trigger] s.contains(x) <==> dedup(s).contains(x),
    decreases s.len(),
{
    if s.len() > 0 {
        let p = s.drop_last();
        let a = s.last();
        law_dedup_no_repeats(p);
        let d = dedup(p);
        assert(s == p.push(a));
        assert forall|x| #[trigger] s.contains(x) <==> dedup(s).contains(x) by {
            lemma_contains_push(p, a, x);
            lemma_contains_push(d, a, x);
            assert(p.contains(x) == d.contains(x));
        }
        if !d.contains(a) {
            assert forall|i: int, j: int| 0 <= i < d.push(a).len() && 0 <= j < d.push(a).len() && i != j
                implies d.push(a)[i] != d.push(a)[j] by {
                if i < d.len() && j < d.len() {
                } else if i < d.len() {
                    assert(d.push(a)[i] == d[i]);
                } else if j < d.len() {
                    assert(d.push(a)[j] == d[j]);
                }
            }
        }
    }
}

// ── asset browser ────────────────────────────────────────────

/// The lowercase text of `s` by Unicode rules, the result of
/// `str::to_lowercase`.
pub uninterp spec fn unicode_lowercase(s: Seq<char>) -> Seq<char>;

/// `str::to_lowercase`. The contract ties the result to the name
/// [`unicode_lowercase`] and says nothing more of it.
#[verifier::external_body]
fn str_to_lowercase(s: &str) -> (r: String)
    ensures
        r@ == unicode_lowercase(s@),
{
    s.to_lowercase()
}

/// The quick filters offered by the asset browser, with their labels.
pub fn quick_filters() -> (r: [(&'static str, AssetBrowserFilter); 7])
    ensures
        r[0].1 == AssetBrowserFilter::All,
        r[1].1 == AssetBrowserFilter::Images,
        r[2].1 == AssetBrowserFilter::Scripts,
        r[3].1 == AssetBrowserFilter::Scenes,
        r[4].1 == AssetBrowserFilter::Prefabs,
        r[5].1 == AssetBrowserFilter::Audio,
        r[6].1 == AssetBrowserFilter::Fonts,
        r[0].0@ == "Todos"@,
        r[1].0@ == "Imagens"@,
        r[2].0@ == "Scripts"@,
        r[3].0@ == "Scenes"@,
        r[4].0@ == "Prefabs"@,
        r[5].0@ == "Áudio"@,
        r[6].0@ == "Fontes"@,
{
    [
        ("Todos", AssetBrowserFilter::All),
        ("Imagens", AssetBrowserFilter::Images),
        ("Scripts", AssetBrowserFilter::Scripts),
        ("Scenes", AssetBrowserFilter::Scenes),
        ("Prefabs", AssetBrowserFilter::Prefabs),
        ("Áudio", AssetBrowserFilter::Audio),
        ("Fontes", AssetBrowserFilter::Fonts),
    ]
}

/// Whether a file with this name passes the filter. Images compare the
/// Unicode-lowercased extension; scripts, audio and fonts the
/// ASCII-lowercased one; scenes and prefabs the exact name ending.
pub open spec fn spec_matches_filter(file_name: Seq<char>, filter: AssetBrowserFilter) -> bool {
    let ext = extension_of(file_name);
    match filter {
        AssetBrowserFilter::All => true,
        AssetBrowserFilter::Images => ext is Some && is_image_ext(unicode_lowercase(ext->0)),
        AssetBrowserFilter::Scripts => ext is Some && (lower_seq(ext->0) == "rs2"@ || lower_seq(
            ext->0,
        ) == "lua"@),
        AssetBrowserFilter::Scenes => ends_with(file_name, ".scene.json"@),
        AssetBrowserFilter::Prefabs => is_prefab_name(file_name),
        AssetBrowserFilter::Audio => ext is Some && is_audio_ext(lower_seq(ext->0)),
        AssetBrowserFilter::Fonts => ext is Some && is_font_ext(lower_seq(ext->0)),
    }
}

fn eq_lit(s: &Vec<char>, lit: &str) -> (r: bool)
    ensures
        r == (s@ == lit@),
{
    chars_eq(s, &chars_of(lit))
}

fn ends_with_lit(s: &Vec<char>, lit: &str) -> (r: bool)
    ensures
        r == ends_with(s@, lit@),
{
    ends_with_chars(s, &chars_of(lit))
}

/// Whether a file with this name passes the asset browser's filter.
pub fn asset_matches_filter(file_name: &str, asset_filter: AssetBrowserFilter) -> (r: bool)
    ensures
        r == spec_matches_filter(file_name@, asset_filter),
{
    let name = chars_of(file_name);
    let ext = crate::assets::extension_chars(&name);
    match asset_filter {
        AssetBrowserFilter::All => true,
        AssetBrowserFilter::Images => match ext {
            Some(e) => {
                let l = chars_of(str_to_lowercase(string_of(&e).as_str()).as_str());
                eq_lit(&l, "png") || eq_lit(&l, "jpg") || eq_lit(&l, "jpeg") || eq_lit(&l, "webp")
            },
            None => false,
        },
        AssetBrowserFilter::Scripts => match ext {
            Some(e) => {
                let l = to_ascii_lower_chars(&e);
                eq_lit(&l, "rs2") || eq_lit(&l, "lua")
            },
            None => false,
        },
        AssetBrowserFilter::Scenes => ends_with_lit(&name, ".scene.json"),
        AssetBrowserFilter::Prefabs => ends_with_lit(&name, ".matr.json") || ends_with_lit(
            &name,
            ".prefab.json",
        ),
        AssetBrowserFilter::Audio => match ext {
            Some(e) => {
                let l = to_ascii_lower_chars(&e);
                eq_lit(&l, "wav") || eq_lit(&l, "ogg") || eq_lit(&l, "mp3")
            },
            None => false,
        },
        AssetBrowserFilter::Fonts => match ext {
            Some(e) => {
                let l = to_ascii_lower_chars(&e);
                eq_lit(&l, "ttf") || eq_lit(&l, "otf")
            },
            None => false,
        },
    }
}

proof fn lemma_lower_keeps_suffix(name: Seq<char>, suffix: Seq<char>)
    requires
        ends_with(name, suffix),
        lower_seq(suffix) == suffix,
    ensures
        ends_with(lower_seq(name), suffix),
{
    let k = name.len() - suffix.len();
    assert(lower_seq(name).skip(k) =~= lower_seq(name.skip(k)));
}

/// The asset browser's filters agree with the kinds of files: the script,
/// audio and font filters pass exactly the files of those kinds, the
/// scene and prefab filters pass only scenes and prefabs, and "all"
/// passes every file.
pub proof fn law_filters_agree_with_kinds(name: Seq<char>)
    ensures
        spec_matches_filter(name, AssetBrowserFilter::All),
        spec_matches_filter(name, AssetBrowserFilter::Scripts) <==> (spec_asset_kind(name, false)
            == AssetKind::ScriptRs2 || spec_asset_kind(name, false) == AssetKind::ScriptLua),
        spec_matches_filter(name, AssetBrowserFilter::Audio) <==> spec_asset_kind(name, false)
            == AssetKind::Audio,
        spec_matches_filter(name, AssetBrowserFilter::Fonts) <==> spec_asset_kind(name, false)
            == AssetKind::Font,
        spec_matches_filter(name, AssetBrowserFilter::Scenes) ==> spec_asset_kind(name, false)
            == AssetKind::Scene,
        spec_matches_filter(name, AssetBrowserFilter::Prefabs) ==> spec_asset_kind(name, false)
            == AssetKind::Prefab,
{
    match extension_of(name) {
        Some(e) => law_kind_follows_extension(name, e),
        None => {},
    }
    reveal_strlit(".scene.json");
    reveal_strlit(".matr.json");
    reveal_strlit(".prefab.json");
    let l = lower_seq(name);
    let n = name.len();
    if ends_with(name, ".scene.json"@) {
        assert(lower_seq(".scene.json"@) =~= ".scene.json"@);
        lemma_lower_keeps_suffix(name, ".scene.json"@);
    }
    if ends_with(l, ".scene.json"@) {
        assert(l[n - 6] == 'e') by {
            assert(l.skip(n - 11)[5] == l[n - 6]);
        }
    }
    if ends_with(name, ".matr.json"@) {
        assert(lower_seq(".matr.json"@) =~= ".matr.json"@);
        lemma_lower_keeps_suffix(name, ".matr.json"@);
        assert(l.skip(n - 10)[4] == l[n - 6]);
    }
    if ends_with(name, ".prefab.json"@) {
        assert(lower_seq(".prefab.json"@) =~= ".prefab.json"@);
        lemma_lower_keeps_suffix(name, ".prefab.json"@);
        assert(l.skip(n - 12)[6] == l[n - 6]);
    }
}

/// The image filter passes exactly the files whose extension, lowercased
/// by Unicode rules, is `png`, `jpg`, `jpeg` or `webp`.
pub proof fn law_image_filter_by_extension(name: Seq<char>)
    ensures
        spec_matches_filter(name, AssetBrowserFilter::Images) <==> (extension_of(name) matches Some(e) && (
        unicode_lowercase(e) == "png"@ || unicode_lowercase(e) == "jpg"@ || unicode_lowercase(e) == "jpeg"@
            || unicode_lowercase(e) == "webp"@)),
{
}

/// Whether a name matches a search: an empty (trimmed) query matches
/// everything, otherwise the lowercased name must contain the lowercased
/// query.
pub open spec fn search_matches(name: Seq<char>, search: Seq<char>) -> bool {
    let query = unicode_lowercase(trim(search));
    query.len() == 0 || contains_seq(unicode_lowercase(name), query)
}

fn search_matches_exec(name: &str, search: &str) -> (r: bool)
    ensures
        r == search_matches(name@, search@),
{
    let t = string_of(&trim_chars(&chars_of(search)));
    let query = chars_of(str_to_lowercase(t.as_str()).as_str());
    let lname = chars_of(str_to_lowercase(name).as_str());
    query.len() == 0 || contains_chars(&lname, &query)
}

/// Whether a directory entry is shown in the asset browser under the
/// search text and the filter: its name must match the search, and a
/// directory passes every filter.
pub fn matches_scope_filter(file_name: &str, is_dir: bool, search: &str, asset_filter: AssetBrowserFilter) -> (r: bool)
    ensures
        r == (search_matches(file_name@, search@) && (is_dir || spec_matches_filter(
            file_name@,
            asset_filter,
        ))),
{
    let search_ok = search_matches_exec(file_name, search);
    let filter_ok = is_dir || asset_matches_filter(file_name, asset_filter);
    search_ok && filter_ok
}

/// Whether an asset node, or any node below it, matches the search and
/// the filter.
pub open spec fn node_matches(node: AssetNode, search: Seq<char>, filter: AssetBrowserFilter) -> bool
    decreases node,
{
    (search_matches(node.name@, search) && (node.is_dir || spec_matches_filter(node.name@, filter)))
        || children_match(node.children@, search, filter)
}

pub open spec fn children_match(s: Seq<AssetNode>, search: Seq<char>, filter: AssetBrowserFilter) -> bool
    decreases s,
{
    s.len() > 0 && (children_match(s.drop_last(), search, filter) || node_matches(
        s.last(),
        search,
        filter,
    ))
}

/// Whether the node or one of its descendants matches the search and the
/// filter.
pub fn matches_filter(node: &AssetNode, search: &str, asset_filter: AssetBrowserFilter) -> (r: bool)
    ensures
        r == node_matches(*node, search@, asset_filter),
    decreases *node,
{
    let self_ok = search_matches_exec(node.name.as_str(), search) && (node.is_dir
        || asset_matches_filter(node.name.as_str(), asset_filter));
    if self_ok {
        return true;
    }
    let n = node.children.len();
    let mut i: usize = 0;
    while i < n
        invariant
            n == node.children@.len(),
            i <= n,
            !children_match(node.children@.take(i as int), search@, asset_filter),
        decreases n - i,
    {
        assert(node.children@.take(i + 1).drop_last() == node.children@.take(i as int));
        assert(node.children@.take(i + 1).last() == node.children@[i as int]);
        proof {
            assert(decreases_to!(*node => node.children));
            assert(decreases_to!(node.children => node.children@));
            assert(decreases_to!(node.children@ => node.children@[i as int]));
        }
        if matches_filter(&node.children[i], search, asset_filter) {
            proof {
                lemma_children_match_prefix(node.children@, i + 1, search@, asset_filter);
            }
            return true;
        }
        i += 1;
    }
    assert(node.children@.take(n as int) == node.children@);
    false
}

proof fn lemma_children_match_prefix(s: Seq<AssetNode>, i: int, search: Seq<char>, filter: AssetBrowserFilter)
    requires
        0 <= i <= s.len(),
        children_match(s.take(i), search, filter),
    ensures
        children_match(s, search, filter),
    decreases s.len() - i,
{
    if i < s.len() {
        assert(s.take(i + 1).drop_last() == s.take(i));
        lemma_children_match_prefix(s, i + 1, search, filter);
    } else {
        assert(s.take(i) == s);
    }
}

/// An entry of the folder the asset browser lists: its path, file name
/// and whether it is a folder.
#[derive(Debug, Clone)]
pub struct ScopeEntry {
    pub path: String,
    pub name: String,
    pub is_dir: bool,
}

/// The order of the asset browser's listing: folders first, then by file
/// name in lower case (Unicode rules), text order.
pub open spec fn scope_le(a: ScopeEntry, b: ScopeEntry) -> bool {
    if a.is_dir != b.is_dir {
        a.is_dir
    } else {
        !lex_lt(unicode_lowercase(b.name@), unicode_lowercase(a.name@))
    }
}

fn scope_le_exec(a: &ScopeEntry, b: &ScopeEntry) -> (r: bool)
    ensures
        r == scope_le(*a, *b),
{
    if a.is_dir != b.is_dir {
        a.is_dir
    } else {
        let la = str_to_lowercase(a.name.as_str());
        let lb = str_to_lowercase(b.name.as_str());
        !lex_lt_exec(&chars_of(lb.as_str()), &chars_of(la.as_str()))
    }
}

pub open spec fn scope_order() -> spec_fn(ScopeEntry, ScopeEntry) -> bool {
    |a: ScopeEntry, b: ScopeEntry| scope_le(a, b)
}

/// The entries of a folder as the asset browser lists them: folders first,
/// then by lower-case file name; entries that rank the same keep their
/// order.
pub fn sort_scope_entries(entries: Vec<ScopeEntry>) -> (r: Vec<ScopeEntry>)
    ensures
        sorted_by(r@, scope_order()),
        r@.to_multiset() == entries@.to_multiset(),
        forall|x: ScopeEntry| #[trigger] same_rank(r@, x, scope_order()) == same_rank(entries@, x, scope_order()),
{
    let ghost le = scope_order();
    proof {
        assert forall|a: ScopeEntry, b: ScopeEntry| #[trigger] le(a, b) || le(b, a) by {
            let la = unicode_lowercase(a.name@);
            let lb = unicode_lowercase(b.name@);
            lemma_lex_total(la, lb);
            if lex_lt(la, lb) {
                lemma_lex_asymmetric(la, lb);
            }
            if la == lb {
                lemma_lex_irreflexive(la);
            }
        }
        assert forall|a: ScopeEntry, b: ScopeEntry, c: ScopeEntry| #[trigger] le(a, b) && #[trigger] le(b, c) implies le(
            a,
            c,
        ) by {
            if a.is_dir == b.is_dir && b.is_dir == c.is_dir {
                let la = unicode_lowercase(a.name@);
                let lb = unicode_lowercase(b.name@);
                let lc = unicode_lowercase(c.name@);
                if lex_lt(lc, la) {
                    lemma_lex_total(lb, la);
                    lemma_lex_total(lc, lb);
                    if !lex_lt(lb, la) && lb != la && lc != lb {
                        lemma_lex_transitive(lc, la, lb);
                    }
                }
            }
        }
    }
    let scope_rank = |a: &ScopeEntry, b: &ScopeEntry| -> (x: bool)
        ensures
            x == scope_le(*a, *b),
        { scope_le_exec(a, b) };
    insertion_sort(entries, scope_rank, Ghost(le))
}

// ── animator ─────────────────────────────────────────────────

/// Separators of a frame list: line breaks, `;` and `,`.
pub open spec fn frame_separated(raw: Seq<char>) -> Seq<char> {
    raw.map_values(|c: char| if c == '\r' || c == ';' || c == ',' { '\n' } else { c })
}

/// The items of one line: its words when it mentions `assets/`, else the
/// whole (trimmed) line.
pub open spec fn line_items(line: Seq<char>) -> Seq<Seq<char>> {
    let t = trim(line);
    if contains_seq(t, "assets/"@) {
        words(t)
    } else {
        seq![t]
    }
}

/// An item without surrounding white space and quotes.
pub open spec fn clean_item(x: Seq<char>) -> Seq<char> {
    trim_char(trim_char(trim(x), '"'), '\'')
}

pub open spec fn frames_of_lines(lines: Seq<Seq<char>>) -> Seq<Seq<char>>
    decreases lines.len(),
{
    if lines.len() == 0 {
        seq![]
    } else {
        frames_of_lines(lines.drop_last()) + non_empty(
            line_items(lines.last()).map_values(|x: Seq<char>| clean_item(x)),
        )
    }
}

/// The frame paths written in a text field: separated by line breaks, `;`
/// or `,` (and by spaces on lines that mention `assets/`), cleaned of
/// quotes, empty ones dropped.
pub open spec fn spec_animator_frames(raw: Seq<char>) -> Seq<Seq<char>> {
    frames_of_lines(lines_of(frame_separated(raw)))
}

fn clean_item_exec(x: &Vec<char>) -> (r: Vec<char>)
    ensures
        r@ == clean_item(x@),
{
    let a = trim_chars(x);
    let b = trim_char_chars(&a, '"');
    trim_char_chars(&b, '\'')
}

pub fn normalize_animator_frames(raw: &str) -> (r: Vec<String>)
    ensures
        string_views(r@) == spec_animator_frames(raw@),
{
    let src = chars_of(raw);
    let mut sep: Vec<char> = Vec::new();
    for i in 0..src.len()
        invariant
            sep@ == frame_separated(src@.take(i as int)),
    {
        let c = src[i];
        sep.push(if c == '\r' || c == ';' || c == ',' { '\n' } else { c });
        assert(frame_separated(src@.take(i + 1)) =~= frame_separated(src@.take(i as int)).push(
            if c == '\r' || c == ';' || c == ',' { '\n' } else { c },
        ));
    }
    assert(src@.take(src@.len() as int) == src@);
    let lines = lines_chars(&sep);
    let ghost lv = views(lines@);
    let mut out: Vec<String> = Vec::new();
    for i in 0..lines.len()
        invariant
            lv == views(lines@),
            lv == lines_of(frame_separated(raw@)),
            string_views(out@) == frames_of_lines(lv.take(i as int)),
    {
        assert(lv.take(i + 1).drop_last() == lv.take(i as int));
        assert(lv.take(i + 1).last() == lines@[i as int]@);
        let t = trim_chars(&lines[i]);
        let items: Vec<Vec<char>> = if contains_chars(&t, &chars_of("assets/")) {
            split_whitespace_chars(&t)
        } else {
            let mut one: Vec<Vec<char>> = Vec::new();
            one.push(t);
            assert(views(one@) =~= seq![trim(lines@[i as int]@)]);
            one
        };
        assert(views(items@) == line_items(lines@[i as int]@));
        let ghost cleaned = views(items@).map_values(|x: Seq<char>| clean_item(x));
        let ghost base = string_views(out@);
        for j in 0..items.len()
            invariant
                cleaned == views(items@).map_values(|x: Seq<char>| clean_item(x)),
                string_views(out@) == base + non_empty(cleaned.take(j as int)),
        {
            let c = clean_item_exec(&items[j]);
            assert(cleaned.take(j + 1).drop_last() == cleaned.take(j as int));
            assert(cleaned.take(j + 1).last() == c@);
            if c.len() > 0 {
                let ghost before = out@;
                out.push(string_of(&c));
                assert(string_views(out@) =~= string_views(before).push(c@));
            }
        }
        assert(cleaned.take(items@.len() as int) == cleaned);
    }
    assert(lv.take(lines@.len() as int) == lv);
    out
}

// ── entities ─────────────────────────────────────────────────

/// The icon of an entity in the hierarchy: a prefab mark for prefab
/// instances, else the icon of its first component that has one, else a
/// group or a single-entity icon.
pub open spec fn component_icon(k: ComponentKind) -> Option<Seq<char>> {
    match k {
        ComponentKind::Camera2D { .. } => Some("📷"@),
        ComponentKind::Sprite => Some("🖼"@),
        ComponentKind::Script => Some("📜"@),
        ComponentKind::Audio => Some("🔊"@),
        ComponentKind::RigidBody2D { .. } => Some("⚙"@),
        ComponentKind::BoxCollider { .. } => Some("📐"@),
        _ => None,
    }
}

pub open spec fn first_icon(c: Seq<ComponentKind>) -> Option<Seq<char>>
    decreases c.len(),
{
    if c.len() == 0 {
        None
    } else {
        match component_icon(c[0]) {
            Some(i) => Some(i),
            None => first_icon(c.drop_first()),
        }
    }
}

pub open spec fn spec_entity_icon(e: EntityNode) -> Seq<char> {
    if e.prefab_source is Some {
        "🧱"@
    } else {
        match first_icon(e.components@) {
            Some(i) => i,
            None => if e.children@.len() > 0 {
                "📦"@
            } else {
                "🔷"@
            },
        }
    }
}

fn component_icon_exec(k: ComponentKind) -> (r: Option<&'static str>)
    ensures
        match r {
            Some(s) => component_icon(k) == Some(s@),
            None => component_icon(k) is None,
        },
{
    match k {
        ComponentKind::Camera2D { .. } => Some("📷"),
        ComponentKind::Sprite => Some("🖼"),
        ComponentKind::Script => Some("📜"),
        ComponentKind::Audio => Some("🔊"),
        ComponentKind::RigidBody2D { .. } => Some("⚙"),
        ComponentKind::BoxCollider { .. } => Some("📐"),
        _ => None,
    }
}

pub fn entity_icon(entity: &EntityNode) -> (r: &'static str)
    ensures
        r@ == spec_entity_icon(*entity),
{
    if entity.prefab_source.is_some() {
        return "🧱";
    }
    let n = entity.components.len();
    let mut i: usize = 0;
    assert(entity.components@.skip(0) == entity.components@);
    while i < n
        invariant
            n == entity.components@.len(),
            entity.prefab_source is None,
            i <= n,
            first_icon(entity.components@) == first_icon(entity.components@.skip(i as int)),
        decreases n - i,
    {
        assert(entity.components@.skip(i as int)[0] == entity.components@[i as int]);
        assert(entity.components@.skip(i as int).drop_first() == entity.components@.skip(i + 1));
        match component_icon_exec(entity.components[i]) {
            Some(icon) => {
                assert(first_icon(entity.components@.skip(i as int)) == Some(icon@));
                return icon;
            },
            None => {},
        }
        i += 1;
    }
    assert(entity.components@.skip(n as int).len() == 0);
    if entity.children.len() > 0 {
        "📦"
    } else {
        "🔷"
    }
}

/// The badge of a component in the scene view, if it has one.
pub open spec fn component_badge(k: ComponentKind) -> Option<Seq<char>> {
    match k {
        ComponentKind::Sprite => Some("Sprite"@),
        ComponentKind::Camera2D { .. } => Some("Camera2D"@),
        ComponentKind::RigidBody2D { .. } => Some("RigidBody2D"@),
        ComponentKind::Velocity => Some("Velocity"@),
        ComponentKind::BoxCollider { is_trigger } => Some(
            if is_trigger {
                "Trigger"@
            } else {
                "Collider"@
            },
        ),
        ComponentKind::Script => Some("Script"@),
        ComponentKind::LuaScript => Some("LuaScript"@),
        ComponentKind::Audio => Some("Audio"@),
        ComponentKind::Animator => Some("Animator"@),
        ComponentKind::TextLabel => Some("TextLabel"@),
        ComponentKind::UIButton => Some("UIButton"@),
        ComponentKind::Transform => None,
    }
}

/// The badges of a list of components, in order.
pub open spec fn badges_of(c: Seq<ComponentKind>) -> Seq<Seq<char>>
    decreases c.len(),
{
    if c.len() == 0 {
        seq![]
    } else {
        match component_badge(c.last()) {
            Some(b) => badges_of(c.drop_last()).push(b),
            None => badges_of(c.drop_last()),
        }
    }
}

/// Texts joined by `" • "`.
pub open spec fn join_dot(parts: Seq<Seq<char>>) -> Seq<char>
    decreases parts.len(),
{
    if parts.len() == 0 {
        seq![]
    } else if parts.len() == 1 {
        parts[0]
    } else {
        join_dot(parts.drop_last()) + " • "@ + parts.last()
    }
}

pub open spec fn entity_badges(e: EntityNode) -> Seq<Seq<char>> {
    if e.prefab_source is Some {
        seq!["MATR"@] + badges_of(e.components@)
    } else {
        badges_of(e.components@)
    }
}

fn component_badge_exec(k: ComponentKind) -> (r: Option<&'static str>)
    ensures
        match r {
            Some(s) => component_badge(k) == Some(s@),
            None => component_badge(k) is None,
        },
{
    match k {
        ComponentKind::Sprite => Some("Sprite"),
        ComponentKind::Camera2D { .. } => Some("Camera2D"),
        ComponentKind::RigidBody2D { .. } => Some("RigidBody2D"),
        ComponentKind::Velocity => Some("Velocity"),
        ComponentKind::BoxCollider { is_trigger } => Some(
            if is_trigger {
                "Trigger"
            } else {
                "Collider"
            },
        ),
        ComponentKind::Script => Some("Script"),
        ComponentKind::LuaScript => Some("LuaScript"),
        ComponentKind::Audio => Some("Audio"),
        ComponentKind::Animator => Some("Animator"),
        ComponentKind::TextLabel => Some("TextLabel"),
        ComponentKind::UIButton => Some("UIButton"),
        ComponentKind::Transform => None,
    }
}

/// The badges of an entity joined by `" • "` (`MATR` first for a prefab
/// instance).
pub fn component_badges(entity: &EntityNode) -> (r: String)
    ensures
        r@ == join_dot(entity_badges(*entity)),
{
    let ghost badges = entity_badges(*entity);
    let mut out = String::new();
    let mut any = false;
    let ghost mut done: Seq<Seq<char>> = seq![];
    if entity.prefab_source.is_some() {
        out.append("MATR");
        any = true;
        proof {
            done = seq!["MATR"@];
        }
    }
    assert(done + badges_of(entity.components@.take(0)) == done);
    let n = entity.components.len();
    for i in 0..n
        invariant
            n == entity.components@.len(),
            out@ == join_dot(done + badges_of(entity.components@.take(i as int))),
            any == ((done + badges_of(entity.components@.take(i as int))).len() > 0),
            done == (if entity.prefab_source is Some {
                seq!["MATR"@]
            } else {
                Seq::<Seq<char>>::empty()
            }),
    {
        let ghost prev = done + badges_of(entity.components@.take(i as int));
        assert(entity.components@.take(i + 1).drop_last() == entity.components@.take(i as int));
        assert(entity.components@.take(i + 1).last() == entity.components@[i as int]);
        match component_badge_exec(entity.components[i]) {
            Some(b) => {
                if any {
                    out.append(" • ");
                }
                out.append(b);
                any = true;
                proof {
                    let next = done + badges_of(entity.components@.take(i + 1));
                    assert(next == prev.push(b@));
                    assert(next.drop_last() == prev);
                }
            },
            None => {
                assert(done + badges_of(entity.components@.take(i + 1)) == prev);
            },
        }
    }
    assert(entity.components@.take(n as int) == entity.components@);
    out
}

/// Whether any entity, children included, has a main camera.
pub open spec fn has_main_camera(s: Seq<EntityNode>) -> bool
    decreases s,
{
    s.len() > 0 && (has_main_camera(s.drop_last()) || s.last().components@.contains(
        ComponentKind::Camera2D { is_main: true },
    ) || has_main_camera(s.last().children@))
}

pub fn scene_has_main_camera(entities: &[EntityNode]) -> (r: bool)
    ensures
        r == has_main_camera(entities@),
    decreases entities@,
{
    for i in 0..entities.len()
        invariant
            !has_main_camera(entities@.take(i as int)),
    {
        assert(entities@.take(i + 1).drop_last() == entities@.take(i as int));
        assert(entities@.take(i + 1).last() == entities@[i as int]);
        let comps = &entities[i].components;
        let mut found = false;
        for j in 0..comps.len()
            invariant
                found == comps@.take(j as int).contains(ComponentKind::Camera2D { is_main: true }),
        {
            assert(comps@.take(j + 1) == comps@.take(j as int).push(comps@[j as int]));
            proof {
                lemma_contains_push(comps@.take(j as int), comps@[j as int], ComponentKind::Camera2D { is_main: true });
            }
            match comps[j] {
                ComponentKind::Camera2D { is_main } => {
                    if is_main {
                        found = true;
                    }
                },
                _ => {},
            }
        }
        assert(comps@.take(comps@.len() as int) == comps@);
        proof {
            assert(decreases_to!(entities@ => entities@[i as int]));
        }
        if found || scene_has_main_camera(entities[i].children.as_slice()) {
            proof {
                lemma_camera_prefix(entities@, i + 1);
            }
            return true;
        }
    }
    assert(entities@.take(entities@.len() as int) == entities@);
    false
}

proof fn lemma_camera_prefix(s: Seq<EntityNode>, i: int)
    requires
        0 <= i <= s.len(),
        has_main_camera(s.take(i)),
    ensures
        has_main_camera(s),
    decreases s.len() - i,
{
    if i < s.len() {
        assert(s.take(i + 1).drop_last() == s.take(i));
        lemma_camera_prefix(s, i + 1);
    } else {
        assert(s.take(i) == s);
    }
}

// ── input ────────────────────────────────────────────────────

/// The keys held and pressed in a frame, by name, as scripts see them.
#[derive(Debug, Clone)]
pub struct InputSnapshot {
    pub held: Vec<String>,
    pub pressed: Vec<String>,
}

/// Whether some name of the list equals `name` ignoring ASCII case.
pub open spec fn any_key(names: Seq<String>, name: Seq<char>) -> bool {
    exists|i: int| 0 <= i < names.len() && lower_seq(#[trigger] names[i]@) == lower_seq(name)
}

fn any_key_exec(names: &Vec<String>, name: &str) -> (r: bool)
    ensures
        r == any_key(names@, name@),
{
    let target = to_ascii_lower_chars(&chars_of(name));
    for i in 0..names.len()
        invariant
            target@ == lower_seq(name@),
            forall|j: int| 0 <= j < i ==> lower_seq(#[trigger] names@[j]@) != lower_seq(name@),
    {
        let k = to_ascii_lower_chars(&chars_of(names[i].as_str()));
        if chars_eq(&k, &target) {
            return true;
        }
    }
    false
}

impl InputSnapshot {
    pub fn key_held(&self, name: &str) -> (r: bool)
        ensures
            r == any_key(self.held@, name@),
    {
        any_key_exec(&self.held, name)
    }

    pub fn key_pressed(&self, name: &str) -> (r: bool)
        ensures
            r == any_key(self.pressed@, name@),
    {
        any_key_exec(&self.pressed, name)
    }

    /// The direction the player keys give: `A`/`D` move left/right and
    /// `W`/`S` up/down, each axis -1, 0 or 1 (opposite keys cancel).
    pub fn player_axis(&self) -> (r: (i8, i8))
        ensures
            (r.0 as int, r.1 as int) == key_axis(
                any_key(self.held@, "A"@),
                any_key(self.held@, "D"@),
                any_key(self.held@, "S"@),
                any_key(self.held@, "W"@),
            ),
    {
        axis_exec(self.key_held("A"), self.key_held("D"), self.key_held("S"), self.key_held("W"))
    }

    /// The direction the arrow keys give, each axis -1, 0 or 1.
    pub fn camera_axis(&self) -> (r: (i8, i8))
        ensures
            (r.0 as int, r.1 as int) == key_axis(
                any_key(self.held@, "Left"@),
                any_key(self.held@, "Right"@),
                any_key(self.held@, "Down"@),
                any_key(self.held@, "Up"@),
            ),
    {
        axis_exec(
            self.key_held("Left"),
            self.key_held("Right"),
            self.key_held("Down"),
            self.key_held("Up"),
        )
    }
}

/// One step right for `right`, one left for `left`, one up for `up`, one
/// down for `down`, added up.
pub open spec fn key_axis(left: bool, right: bool, down: bool, up: bool) -> (int, int) {
    (
        (if right { 1int } else { 0int }) - (if left { 1int } else { 0int }),
        (if up { 1int } else { 0int }) - (if down { 1int } else { 0int }),
    )
}

fn axis_exec(left: bool, right: bool, down: bool, up: bool) -> (r: (i8, i8))
    ensures
        (r.0 as int, r.1 as int) == key_axis(left, right, down, up),
{
    let mut x: i8 = 0;
    let mut y: i8 = 0;
    if left {
        x = x - 1;
    }
    if right {
        x = x + 1;
    }
    if up {
        y = y + 1;
    }
    if down {
        y = y - 1;
    }
    (x, y)
}

} // verus!
