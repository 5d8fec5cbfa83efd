//! Runtime bookkeeping that is not physics: the frame stages, the game
//! flow, destroy requests, collision layers, UI actions and where a saved
//! scene is looked for.
use vstd::prelude::*;
use crate::text::{
    chars_of, contains_chars, contains_seq, ends_with, ends_with_chars, lower_seq, replace_char, replace_char_chars,
    starts_with, starts_with_chars, string_of, to_ascii_lower_chars, trim, trim_chars,
};

verus! {

/// The stage the runtime last reached in a frame.
#[derive(Debug, Clone, Copy, PartialEq, Eq, Structural)]
pub enum RuntimeFrameStage {
    Idle,
    CaptureInput,
    ApplyPlayerInput,
    UpdateScriptsAndMovement,
    ApplyPhysics,
    ResolveCollisions,
    UpdateCamera,
    FinalizeFrame,
}

/// Where the game is in its flow.
#[derive(Debug, Clone, Copy, PartialEq, Eq, Structural)]
pub enum RuntimeGameFlow {
    Editing,
    Playing,
    Paused,
    GameOver,
    Loading,
}

/// The game's flow, score and loading label.
#[derive(Debug, Clone)]
pub struct RuntimeGameState {
    pub flow: RuntimeGameFlow,
    pub score: i32,
    pub loading_label: Option<String>,
}

impl RuntimeGameState {
    /// Editing, no score, no loading label.
    pub fn new() -> (r: Self)
        ensures
            r.flow == RuntimeGameFlow::Editing,
            r.score == 0,
            r.loading_label is None,
    {
        RuntimeGameState { flow: RuntimeGameFlow::Editing, score: 0, loading_label: None }
    }
}

/// A request to destroy an entity at the end of the frame.
#[derive(Debug, Clone)]
pub struct PendingDestroyRequest {
    pub entity_id: String,
}

pub open spec fn requested_ids(q: Seq<PendingDestroyRequest>) -> Seq<Seq<char>> {
    q.map_values(|r: PendingDestroyRequest| r.entity_id@)
}

/// Queues the destruction of an entity unless it is already queued.
pub fn queue_destroy(pending: &mut Vec<PendingDestroyRequest>, entity_id: String)
    ensures
        requested_ids(final(pending)@) == (if requested_ids(old(pending)@).contains(entity_id@) {
            requested_ids(old(pending)@)
        } else {
            requested_ids(old(pending)@).push(entity_id@)
        }),
{
    let mut i: usize = 0;
    while i < pending.len()
        invariant
            i <= pending@.len(),
            forall|j: int| 0 <= j < i ==> #[trigger] pending@[j].entity_id@ != entity_id@,
            pending@ == old(pending)@,
        decreases pending@.len() - i,
    {
        if pending[i].entity_id == entity_id {
            assert(requested_ids(pending@)[i as int] == entity_id@);
            return;
        }
        i += 1;
    }
    assert(!requested_ids(pending@).contains(entity_id@)) by {
        if requested_ids(pending@).contains(entity_id@) {
            let k = choose|k: int| 0 <= k < requested_ids(pending@).len() && requested_ids(pending@)[k] == entity_id@;
            assert(pending@[k].entity_id@ == entity_id@);
        }
    }
    let ghost before = pending@;
    pending.push(PendingDestroyRequest { entity_id });
    assert(requested_ids(pending@) =~= requested_ids(before).push(entity_id@));
}

/// Queues the destruction of the last spawned entity, if there is one;
/// says whether there was.
pub fn queue_destroy_last_spawned(pending: &mut Vec<PendingDestroyRequest>, last_spawned: &Option<String>) -> (r: bool)
    ensures
        r == last_spawned is Some,
        match last_spawned {
            Some(id) => requested_ids(final(pending)@) == (if requested_ids(old(pending)@).contains(id@) {
                requested_ids(old(pending)@)
            } else {
                requested_ids(old(pending)@).push(id@)
            }),
            None => final(pending)@ == old(pending)@,
        },
{
    match last_spawned {
        Some(id) => {
            queue_destroy(pending, id.clone());
            true
        },
        None => false,
    }
}

/// A destroy queue never holds the same entity twice.
pub proof fn law_destroy_queue_no_repeats(q: Seq<Seq<char>>, id: Seq<char>)
    requires
        q.no_duplicates(),
    ensures
        (if q.contains(id) {
            q
        } else {
            q.push(id)
        }).no_duplicates(),
{
    if !q.contains(id) {
        assert forall|i: int, j: int| 0 <= i < q.push(id).len() && 0 <= j < q.push(id).len() && i != j
            implies q.push(id)[i] != q.push(id)[j] by {
            if i < q.len() && j == q.len() {
                assert(q[i] != id);
            } else if j < q.len() && i == q.len() {
                assert(q[j] != id);
            }
        }
    }
}

/// The collision layer bits of a collider and the bits it collides with.
#[derive(Debug, Clone, Copy, PartialEq, Eq, Structural)]
pub struct ColliderLayers {
    pub layer: u8,
    pub mask: u8,
}

/// Two colliders interact when both are on layer 0 with mask 0, or when
/// either one's mask is 0 or shares a bit with the other's layer.
pub open spec fn spec_layers_interact(a: ColliderLayers, b: ColliderLayers) -> bool {
    ||| (a.layer == 0 && a.mask == 0 && b.layer == 0 && b.mask == 0)
    ||| (a.mask == 0 || (a.mask & b.layer) != 0)
    ||| (b.mask == 0 || (b.mask & a.layer) != 0)
}

pub fn layers_interact(a: &ColliderLayers, b: &ColliderLayers) -> (r: bool)
    ensures
        r == spec_layers_interact(*a, *b),
{
    if a.layer == 0 && a.mask == 0 && b.layer == 0 && b.mask == 0 {
        return true;
    }
    let a_hits_b = a.mask == 0 || (a.mask & b.layer) != 0;
    let b_hits_a = b.mask == 0 || (b.mask & a.layer) != 0;
    a_hits_b || b_hits_a
}

/// Whether two colliders interact does not depend on their order.
pub proof fn law_layers_symmetric(a: ColliderLayers, b: ColliderLayers)
    ensures
        spec_layers_interact(a, b) == spec_layers_interact(b, a),
{
}

/// What a click on a UI button asks of the runtime.
#[derive(Debug, Clone, PartialEq, Eq)]
pub enum UiAction {
    ChangeScene(String),
    CloseRuntime,
}

// ── audio by name ────────────────────────────────────────────

/// Whether a playing sound, by its key, answers to a name given by a
/// script: the name, trimmed and in ASCII lower case, is not empty and
/// occurs in the key in ASCII lower case.
pub open spec fn spec_audio_matches(key: Seq<char>, name: Seq<char>) -> bool {
    let q = lower_seq(trim(name));
    q.len() > 0 && contains_seq(lower_seq(key), q)
}

/// Whether the sound with key `key` is one that stopping or changing the
/// volume of `name` reaches.
pub fn audio_matches(key: &str, name: &str) -> (r: bool)
    ensures
        r == spec_audio_matches(key@, name@),
{
    let q = to_ascii_lower_chars(&trim_chars(&chars_of(name)));
    q.len() > 0 && contains_chars(&to_ascii_lower_chars(&chars_of(key)), &q)
}

// ── where a saved scene is looked for ───────────────────────

/// The places a scene named in a save file is looked for, in order, each
/// a path to join onto the project root (after `assets/scenes` when its
/// flag is set): the name as written when it is absolute, the name as
/// written and with `\` turned into `/`, both again under `assets/scenes`,
/// and, for a name without extension that does not end in `.scene`, the
/// name with `.scene.json` and with `.json` under `assets/scenes`. A blank
/// name is looked for nowhere.
pub open spec fn spec_saved_scene_candidates(saved_scene: Seq<char>, is_absolute: bool, has_extension: bool) -> Seq<
    (bool, Seq<char>),
> {
    let t = trim(saved_scene);
    let n = replace_char(t, '\\', '/');
    let base = seq![(false, t), (false, n), (true, t), (true, n)];
    let with_abs = if is_absolute {
        seq![(false, t)] + base
    } else {
        base
    };
    if t.len() == 0 {
        seq![]
    } else if !has_extension && !ends_with(t, ".scene"@) {
        with_abs + seq![(true, t + ".scene.json"@), (true, t + ".json"@)]
    } else {
        with_abs
    }
}

pub open spec fn candidates_view(v: Seq<(bool, String)>) -> Seq<(bool, Seq<char>)> {
    v.map_values(|c: (bool, String)| (c.0, c.1@))
}

/// The places to look for a scene named in a save file; `is_absolute` and
/// `has_extension` say whether the trimmed name, read as a path, is
/// absolute and has an extension.
pub fn saved_scene_candidates(saved_scene: &str, is_absolute: bool, has_extension: bool) -> (r: Vec<(bool, String)>)
    ensures
        candidates_view(r@) == spec_saved_scene_candidates(saved_scene@, is_absolute, has_extension),
{
    let t = trim_chars(&chars_of(saved_scene));
    let mut r: Vec<(bool, String)> = Vec::new();
    if t.len() == 0 {
        assert(candidates_view(r@) =~= seq![]);
        return r;
    }
    let n = replace_char_chars(&t, '\\', '/');
    if is_absolute {
        r.push((false, string_of(&t)));
    }
    r.push((false, string_of(&t)));
    r.push((false, string_of(&n)));
    r.push((true, string_of(&t)));
    r.push((true, string_of(&n)));
    proof {
        let base = seq![(false, t@), (false, n@), (true, t@), (true, n@)];
        if is_absolute {
            assert(candidates_view(r@) =~= seq![(false, t@)] + base);
        } else {
            assert(candidates_view(r@) =~= base);
        }
    }
    if !has_extension && !ends_with_chars(&t, &chars_of(".scene")) {
        let ghost before = candidates_view(r@);
        let mut a = string_of(&t);
        a.append(".scene.json");
        let mut b = string_of(&t);
        b.append(".json");
        r.push((true, a));
        r.push((true, b));
        assert(candidates_view(r@) =~= before + seq![(true, t@ + ".scene.json"@), (true, t@ + ".json"@)]);
    }
    r
}

// ── where a button's target scene is looked for ─────────────

/// Where a place to look for a scene is, before its path is joined on.
#[derive(Debug, Clone, Copy, PartialEq, Eq, Structural)]
pub enum ScenePlace {
    /// The path alone, which is absolute.
    Absolute,
    ProjectRoot,
    /// The folder of the scene being played.
    CurrentSceneDir,
    /// `assets/scenes` under the project root.
    ScenesDir,
}

pub open spec fn places_view(v: Seq<(ScenePlace, String)>) -> Seq<(ScenePlace, Seq<char>)> {
    v.map_values(|c: (ScenePlace, String)| (c.0, c.1@))
}

/// The places a UI button's target scene is looked for, in order: the
/// target is trimmed and `\` turned into `/`; an absolute target only as
/// it is; otherwise under the project root, beside the current scene (when
/// there is one), under `assets/scenes` unless it starts with `assets/`,
/// and, unless it ends with `.scene.json`, with that added under the
/// project root and under `assets/scenes`. A blank target is an error.
pub open spec fn spec_button_scene_candidates(target: Seq<char>, is_absolute: bool, has_current_dir: bool) -> Result<
    Seq<(ScenePlace, Seq<char>)>,
    Seq<char>,
> {
    let t = trim(target);
    let n = replace_char(t, '\\', '/');
    if t.len() == 0 {
        Err("UIButton sem target_scene configurado"@)
    } else if is_absolute {
        Ok(seq![(ScenePlace::Absolute, n)])
    } else {
        let a = seq![(ScenePlace::ProjectRoot, n)];
        let b = if has_current_dir {
            a.push((ScenePlace::CurrentSceneDir, n))
        } else {
            a
        };
        let c = if !starts_with(n, "assets/"@) {
            b.push((ScenePlace::ScenesDir, n))
        } else {
            b
        };
        if !ends_with(n, ".scene.json"@) {
            Ok(c.push((ScenePlace::ProjectRoot, n + ".scene.json"@)).push((ScenePlace::ScenesDir, n + ".scene.json"@)))
        } else {
            Ok(c)
        }
    }
}

/// The places to look for a button's target scene; `is_absolute` says
/// whether the cleaned target, read as a path, is absolute, and
/// `has_current_dir` whether the scene being played has a folder.
pub fn button_scene_candidates(target: &str, is_absolute: bool, has_current_dir: bool) -> (r: Result<
    Vec<(ScenePlace, String)>,
    String,
>)
    ensures
        match r {
            Ok(v) => spec_button_scene_candidates(target@, is_absolute, has_current_dir) == Ok::<
                Seq<(ScenePlace, Seq<char>)>,
                Seq<char>,
            >(places_view(v@)),
            Err(m) => spec_button_scene_candidates(target@, is_absolute, has_current_dir) == Err::<
                Seq<(ScenePlace, Seq<char>)>,
                Seq<char>,
            >(m@),
        },
{
    let t = trim_chars(&chars_of(target));
    if t.len() == 0 {
        return Err(String::from_str("UIButton sem target_scene configurado"));
    }
    let n = replace_char_chars(&t, '\\', '/');
    let mut r: Vec<(ScenePlace, String)> = Vec::new();
    if is_absolute {
        r.push((ScenePlace::Absolute, string_of(&n)));
        assert(places_view(r@) =~= seq![(ScenePlace::Absolute, n@)]);
        return Ok(r);
    }
    r.push((ScenePlace::ProjectRoot, string_of(&n)));
    let ghost a = seq![(ScenePlace::ProjectRoot, n@)];
    assert(places_view(r@) =~= a);
    if has_current_dir {
        let ghost before = places_view(r@);
        r.push((ScenePlace::CurrentSceneDir, string_of(&n)));
        assert(places_view(r@) =~= before.push((ScenePlace::CurrentSceneDir, n@)));
    }
    if !starts_with_chars(&n, &chars_of("assets/")) {
        let ghost before = places_view(r@);
        r.push((ScenePlace::ScenesDir, string_of(&n)));
        assert(places_view(r@) =~= before.push((ScenePlace::ScenesDir, n@)));
    }
    if !ends_with_chars(&n, &chars_of(".scene.json")) {
        let ghost before = places_view(r@);
        let mut with_ext = string_of(&n);
        with_ext.append(".scene.json");
        let mut with_ext2 = string_of(&n);
        with_ext2.append(".scene.json");
        r.push((ScenePlace::ProjectRoot, with_ext));
        r.push((ScenePlace::ScenesDir, with_ext2));
        assert(places_view(r@) =~= before.push((ScenePlace::ProjectRoot, n@ + ".scene.json"@)).push(
            (ScenePlace::ScenesDir, n@ + ".scene.json"@),
        ));
    }
    Ok(r)
}

/// The error of a button whose target scene was found nowhere.
pub fn button_scene_missing(target: &str) -> (r: String)
    ensures
        r@ == "Cena alvo não encontrada: "@ + replace_char(trim(target@), '\\', '/'),
{
    let t = trim_chars(&chars_of(target));
    let mut r = String::from_str("Cena alvo não encontrada: ");
    r.append(string_of(&replace_char_chars(&t, '\\', '/')).as_str());
    r
}

} // verus!
