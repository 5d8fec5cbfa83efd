//! The animator's state graph as the editor edits it: named states, each
//! with the clip it plays and the state that follows it, named clips with
//! their frames, and which state and clip are playing.
use vstd::prelude::*;
use crate::sorting::{insertion_sort, is_total_preorder, sorted_by};
use crate::store::KeyedStore;
use vstd::relations::injective_on;
use vstd::set_lib::{lemma_int_range, lemma_len_subset, lemma_map_size, set_int_range};
use crate::text::{
    decimal, decimal_chars, lemma_decimal_injective, lemma_lex_asymmetric, lemma_lex_irreflexive,
    lemma_lex_total, lemma_lex_transitive, lex_lt, lex_lt_exec, chars_of, string_of, string_views, trim,
    trim_chars,
};

verus! {

/// One state of the graph: the clip it plays, whether the clip repeats,
/// whether another state may cut in, and the state that follows it (empty
/// for none).
#[derive(Debug, Clone)]
pub struct AnimationState {
    pub clip: String,
    pub looped: bool,
    pub interruptible: bool,
    pub next_state: String,
}

/// The mathematical value of an [`AnimationState`].
pub struct StateModel {
    pub clip: Seq<char>,
    pub looped: bool,
    pub interruptible: bool,
    pub next_state: Seq<char>,
}

impl View for AnimationState {
    type V = StateModel;

    open spec fn view(&self) -> StateModel {
        StateModel {
            clip: self.clip@,
            looped: self.looped,
            interruptible: self.interruptible,
            next_state: self.next_state@,
        }
    }
}

/// The frames of a clip and its speed, kept as the bit pattern of the `f32`
/// frames per second.
#[derive(Debug, Clone)]
pub struct AnimationClip {
    pub frames: Vec<String>,
    pub fps_bits: u32,
}

/// The mathematical value of an [`AnimationClip`].
pub struct ClipModel {
    pub frames: Seq<Seq<char>>,
    pub fps_bits: u32,
}

impl View for AnimationClip {
    type V = ClipModel;

    open spec fn view(&self) -> ClipModel {
        ClipModel { frames: string_views(self.frames@), fps_bits: self.fps_bits }
    }
}

/// The bits of `8.0_f32`, the speed of a new clip.
pub const DEFAULT_FPS_BITS: u32 = 0x4100_0000u32;

pub open spec fn empty_clip() -> ClipModel {
    ClipModel { frames: seq![], fps_bits: DEFAULT_FPS_BITS }
}

impl AnimationClip {
    /// A clip without frames, at eight frames per second.
    pub fn new_empty() -> (r: Self)
        ensures
            r@ == empty_clip(),
    {
        let r = AnimationClip { frames: Vec::new(), fps_bits: DEFAULT_FPS_BITS };
        assert(r@.frames =~= Seq::<Seq<char>>::empty());
        r
    }
}

/// What the editor reads and changes of an entity's animator.
#[derive(Debug)]
pub struct Animator {
    pub states: KeyedStore<AnimationState>,
    pub clips: KeyedStore<AnimationClip>,
    /// The clip playing.
    pub current: String,
    pub current_state: String,
    pub default_state: String,
    pub queued_state: String,
    pub prev_clip: String,
    pub looped: bool,
    pub state_mode: bool,
}

/// The mathematical value of an [`Animator`].
pub struct AnimatorModel {
    pub states: Map<Seq<char>, StateModel>,
    pub clips: Map<Seq<char>, ClipModel>,
    pub current: Seq<char>,
    pub current_state: Seq<char>,
    pub default_state: Seq<char>,
    pub queued_state: Seq<char>,
    pub prev_clip: Seq<char>,
    pub looped: bool,
    pub state_mode: bool,
}

pub open spec fn state_models(m: Map<Seq<char>, AnimationState>) -> Map<Seq<char>, StateModel> {
    m.map_values(|s: AnimationState| s@)
}

pub open spec fn clip_models(m: Map<Seq<char>, AnimationClip>) -> Map<Seq<char>, ClipModel> {
    m.map_values(|c: AnimationClip| c@)
}

impl View for Animator {
    type V = AnimatorModel;

    open spec fn view(&self) -> AnimatorModel {
        AnimatorModel {
            states: state_models(self.states@),
            clips: clip_models(self.clips@),
            current: self.current@,
            current_state: self.current_state@,
            default_state: self.default_state@,
            queued_state: self.queued_state@,
            prev_clip: self.prev_clip@,
            looped: self.looped,
            state_mode: self.state_mode,
        }
    }
}

impl Animator {
    /// No state name and no clip name occurs twice.
    pub open spec fn wf(&self) -> bool {
        self.states.wf() && self.clips.wf()
    }
}

// ── listings ─────────────────────────────────────────────────

/// Text order on names (`String`'s `Ord`).
pub open spec fn name_order() -> spec_fn(String, String) -> bool {
    |a: String, b: String| !lex_lt(b@, a@)
}

proof fn lemma_name_order_total_preorder()
    ensures
        is_total_preorder(name_order()),
{
    let le = name_order();
    assert forall|a: String, b: String| #[trigger] le(a, b) || le(b, a) by {
        lemma_lex_total(a@, b@);
        if lex_lt(a@, b@) {
            lemma_lex_asymmetric(a@, b@);
        }
        if a@ == b@ {
            lemma_lex_irreflexive(a@);
        }
    }
    assert forall|a: String, b: String, c: String| #[trigger] le(a, b) && #[trigger] le(b, c) implies le(
        a,
        c,
    ) by {
        if lex_lt(c@, a@) {
            lemma_lex_total(b@, a@);
            lemma_lex_total(c@, b@);
            if !lex_lt(b@, a@) && b@ != a@ && c@ != b@ {
                lemma_lex_transitive(c@, a@, b@);
            }
        }
    }
}

/// The names held in a store, each once, in text order.
fn sorted_keys<V>(store: &KeyedStore<V>) -> (r: Vec<String>)
    requires
        store.wf(),
    ensures
        sorted_by(r@, name_order()),
        r@.len() == store@.dom().len(),
        forall|k: Seq<char>| store@.dom().contains(k) <==> #[trigger] string_views(r@).contains(k),
{
    let entries = store.entries();
    let mut keys: Vec<String> = Vec::new();
    for i in 0..entries.len()
        invariant
            keys@.len() == i,
            forall|j: int| 0 <= j < i ==> #[trigger] keys@[j]@ == entries@[j].0@,
    {
        keys.push(entries[i].0.clone());
    }
    proof {
        lemma_name_order_total_preorder();
    }
    let ghost input = keys@;
    let by_name = |a: &String, b: &String| -> (x: bool)
        ensures
            x == !lex_lt(b@, a@),
        { !lex_lt_exec(&chars_of(b.as_str()), &chars_of(a.as_str())) };
    let r = insertion_sort(keys, by_name, Ghost(name_order()));
    proof {
        broadcast use vstd::seq_lib::to_multiset_contains, vstd::seq_lib::group_to_multiset_ensures;

        assert(r@.len() == input.len()) by {
            assert(r@.to_multiset().len() == input.to_multiset().len());
        }
        assert forall|k: Seq<char>| store@.dom().contains(k) <==> #[trigger] string_views(r@).contains(k) by {
            if store@.dom().contains(k) {
                let j = choose|j: int| 0 <= j < entries@.len() && #[trigger] entries@[j].0@ == k;
                assert(input.to_multiset().count(input[j]) > 0);
                assert(r@.contains(input[j]));
                let p = choose|p: int| 0 <= p < r@.len() && r@[p] == input[j];
                assert(string_views(r@)[p] == k);
            }
            if string_views(r@).contains(k) {
                let p = choose|p: int| 0 <= p < r@.len() && #[trigger] string_views(r@)[p] == k;
                assert(r@.to_multiset().count(r@[p]) > 0);
                assert(input.contains(r@[p]));
                let j = choose|j: int| 0 <= j < input.len() && input[j] == r@[p];
                assert(entries@[j].0@ == k);
            }
        }
    }
    r
}

impl Animator {
    /// The state names in text order.
    pub fn sorted_state_names(&self) -> (r: Vec<String>)
        requires
            self.wf(),
        ensures
            sorted_by(r@, name_order()),
            r@.len() == self@.states.dom().len(),
            forall|k: Seq<char>| self@.states.dom().contains(k) <==> #[trigger] string_views(r@).contains(k),
    {
        assert(self@.states.dom() =~= self.states@.dom());
        sorted_keys(&self.states)
    }

    /// The clip names in text order.
    pub fn sorted_clip_names(&self) -> (r: Vec<String>)
        requires
            self.wf(),
        ensures
            sorted_by(r@, name_order()),
            r@.len() == self@.clips.dom().len(),
            forall|k: Seq<char>| self@.clips.dom().contains(k) <==> #[trigger] string_views(r@).contains(k),
    {
        assert(self@.clips.dom() =~= self.clips@.dom());
        sorted_keys(&self.clips)
    }
}

// ── names for new states ─────────────────────────────────────

/// `<base>_<i>`.
pub open spec fn numbered_state(base: Seq<char>, i: nat) -> Seq<char> {
    base + seq!['_'] + decimal(i)
}

proof fn lemma_numbered_injective(base: Seq<char>, a: nat, b: nat)
    requires
        numbered_state(base, a) == numbered_state(base, b),
    ensures
        a == b,
{
    let k = base.len() + 1int;
    assert(numbered_state(base, a).skip(k) =~= decimal(a));
    assert(numbered_state(base, b).skip(k) =~= decimal(b));
    lemma_decimal_injective(a, b);
}

/// A finite set of names holds at most as many of `<base>_1` .. `<base>_m`
/// as it has names.
proof fn lemma_taken_bound(names: Set<Seq<char>>, base: Seq<char>, m: nat)
    requires
        names.finite(),
        forall|j: nat| 1 <= j <= m ==> names.contains(#[trigger] numbered_state(base, j)),
    ensures
        m <= names.len(),
{
    let x = set_int_range(1, m + 1int);
    let f = |j: int| numbered_state(base, j as nat);
    lemma_int_range(1, m + 1int);
    assert(injective_on(f, x)) by {
        assert forall|a: int, b: int| x.contains(a) && x.contains(b) && #[trigger] f(a) == #[trigger] f(b) implies a
            == b by {
            lemma_numbered_injective(base, a as nat, b as nat);
        }
    }
    lemma_map_size(x, x.map(f), f);
    assert forall|k: Seq<char>| x.map(f).contains(k) implies names.contains(k) by {
        let j = choose|j: int| x.contains(j) && k == f(j);
        assert(names.contains(numbered_state(base, j as nat)));
    }
    lemma_len_subset(x.map(f), names);
}

/// `base` when no state has that name, else `<base>_<i>` for the least
/// `i >= 1` that no state has.
pub open spec fn is_unique_state_name(
    names: Set<Seq<char>>,
    base: Seq<char>,
    r: Seq<char>,
) -> bool {
    if !names.contains(base) {
        r == base
    } else {
        exists|i: nat|
            #![trigger numbered_state(base, i)]
            i >= 1 && r == numbered_state(base, i) && !names.contains(r) && forall|j: nat|
                1 <= j < i ==> names.contains(#[trigger] numbered_state(base, j))
    }
}

impl Animator {
    /// A name for a new state: `base` when it is free, else the first free
    /// `<base>_<i>`, counting from 1.
    pub fn unique_state_name(&self, base: &str) -> (r: String)
        requires
            self.wf(),
            self@.states.dom().len() < usize::MAX,
        ensures
            is_unique_state_name(self@.states.dom(), base@, r@),
    {
        let ghost names = self@.states.dom();
        assert(names =~= self.states@.dom());
        if !self.states.contains_key(base) {
            return String::from_str(base);
        }
        let n = self.states.len();
        let mut index: usize = 1;
        loop
            invariant
                self.wf(),
                names == self.states@.dom(),
                names.finite(),
                n == names.len(),
                n < usize::MAX,
                names.contains(base@),
                1 <= index <= n + 1,
                forall|j: nat| 1 <= j < index ==> names.contains(#[trigger] numbered_state(base@, j)),
            decreases n + 1 - index,
        {
            let mut candidate = String::from_str(base);
            candidate.append("_");
            candidate.append(string_of(&decimal_chars(index)).as_str());
            proof {
                reveal_strlit("_");
                assert(candidate@ =~= numbered_state(base@, index as nat));
            }
            if !self.states.contains_key(candidate.as_str()) {
                return candidate;
            }
            proof {
                lemma_taken_bound(names, base@, index as nat);
            }
            index += 1;
        }
    }

    /// The state to select when none is: the playing state, else the
    /// default one, else the first of `state_names`, else none.
    pub fn preferred_state_name(&self, state_names: &[String]) -> (r: String)
        ensures
            r@ == (if trim(self.current_state@).len() > 0 {
                self.current_state@
            } else if trim(self.default_state@).len() > 0 {
                self.default_state@
            } else if state_names@.len() > 0 {
                state_names@[0]@
            } else {
                Seq::<char>::empty()
            }),
    {
        if trim_chars(&chars_of(self.current_state.as_str())).len() > 0 {
            self.current_state.clone()
        } else if trim_chars(&chars_of(self.default_state.as_str())).len() > 0 {
            self.default_state.clone()
        } else if state_names.len() > 0 {
            state_names[0].clone()
        } else {
            String::new()
        }
    }
}

// ── editing states ───────────────────────────────────────────

proof fn lemma_states_insert(m: Map<Seq<char>, AnimationState>, k: Seq<char>, v: AnimationState)
    ensures
        state_models(m.insert(k, v)) == state_models(m).insert(k, v@),
{
    assert(state_models(m.insert(k, v)) =~= state_models(m).insert(k, v@));
}

proof fn lemma_states_remove(m: Map<Seq<char>, AnimationState>, k: Seq<char>)
    ensures
        state_models(m.remove(k)) == state_models(m).remove(k),
{
    assert(state_models(m.remove(k)) =~= state_models(m).remove(k));
}

proof fn lemma_clips_insert(m: Map<Seq<char>, AnimationClip>, k: Seq<char>, v: AnimationClip)
    ensures
        clip_models(m.insert(k, v)) == clip_models(m).insert(k, v@),
{
    assert(clip_models(m.insert(k, v)) =~= clip_models(m).insert(k, v@));
}

proof fn lemma_clips_remove(m: Map<Seq<char>, AnimationClip>, k: Seq<char>)
    ensures
        clip_models(m.remove(k)) == clip_models(m).remove(k),
{
    assert(clip_models(m.remove(k)) =~= clip_models(m).remove(k));
}

/// The clips with an empty clip added under `name` when none is there.
pub open spec fn with_clip(clips: Map<Seq<char>, ClipModel>, name: Seq<char>) -> Map<Seq<char>, ClipModel> {
    if clips.dom().contains(name) {
        clips
    } else {
        clips.insert(name, empty_clip())
    }
}

/// A new state that plays the clip of its own name, repeats, may be cut
/// into and is followed by none.
pub open spec fn fresh_state(name: Seq<char>) -> StateModel {
    StateModel { clip: name, looped: true, interruptible: true, next_state: seq![] }
}

/// The state made when a clip is bound to a state that does not exist.
pub open spec fn blank_state() -> StateModel {
    StateModel { clip: seq![], looped: false, interruptible: false, next_state: seq![] }
}

impl AnimationState {
    /// A state with no clip, not repeating, not interruptible, followed by
    /// none.
    pub fn blank() -> (r: Self)
        ensures
            r@ == blank_state(),
    {
        AnimationState {
            clip: String::new(),
            looped: false,
            interruptible: false,
            next_state: String::new(),
        }
    }

    fn fresh(name: &str) -> (r: Self)
        ensures
            r@ == fresh_state(name@),
    {
        AnimationState {
            clip: String::from_str(name),
            looped: true,
            interruptible: true,
            next_state: String::new(),
        }
    }
}

impl Animator {
    fn ensure_clip(&mut self, name: &str)
        requires
            old(self).wf(),
        ensures
            final(self).wf(),
            final(self)@ == (AnimatorModel { clips: with_clip(old(self)@.clips, name@), ..old(self)@ }),
    {
        assert(self@.clips.dom() =~= self.clips@.dom());
        if !self.clips.contains_key(name) {
            let ghost before = self.clips@;
            self.clips.insert(String::from_str(name), AnimationClip::new_empty());
            proof {
                lemma_clips_insert(before, name@, self.clips@[name@]);
            }
        }
    }

    fn put_state(&mut self, name: &str, state: AnimationState)
        requires
            old(self).wf(),
        ensures
            final(self).wf(),
            final(self)@ == (AnimatorModel {
                states: old(self)@.states.insert(name@, state@),
                ..old(self)@
            }),
    {
        let ghost before = self.states@;
        self.states.insert(String::from_str(name), state);
        proof {
            lemma_states_insert(before, name@, state);
        }
    }

    /// Adds a state named after "novo" (the first free of `novo`,
    /// `novo_1`, ...) playing a clip of its name, makes it the playing
    /// state, selects it and says so.
    pub fn create_state(&mut self) -> (r: AnimatorEdit)
        requires
            old(self).wf(),
            old(self)@.states.dom().len() < usize::MAX,
        ensures
            final(self).wf(),
            r.selected matches Some(name) && is_unique_state_name(old(self)@.states.dom(), "novo"@, name@)
                && final(self)@ == (AnimatorModel {
                states: old(self)@.states.insert(name@, fresh_state(name@)),
                clips: with_clip(old(self)@.clips, name@),
                current_state: name@,
                state_mode: true,
                ..old(self)@
            }) && r.status@ == "✅ Estado '"@ + name@ + "' criado."@,
    {
        let name = self.unique_state_name("novo");
        self.put_state(name.as_str(), AnimationState::fresh(name.as_str()));
        self.ensure_clip(name.as_str());
        self.current_state = name.clone();
        self.state_mode = true;
        let mut status = String::from_str("✅ Estado '");
        status.append(name.as_str());
        status.append("' criado.");
        AnimatorEdit { status, selected: Some(name) }
    }

    /// Adds the first state, `idle`, makes it both the playing and the
    /// default state, selects it and says so.
    pub fn create_first_state(&mut self) -> (r: AnimatorEdit)
        requires
            old(self).wf(),
        ensures
            final(self).wf(),
            final(self)@ == (AnimatorModel {
                states: old(self)@.states.insert("idle"@, fresh_state("idle"@)),
                clips: with_clip(old(self)@.clips, "idle"@),
                current_state: "idle"@,
                default_state: "idle"@,
                state_mode: true,
                ..old(self)@
            }),
            r.selected matches Some(name) && name@ == "idle"@,
            r.status@ == "✅ Primeiro estado criado."@,
    {
        self.put_state("idle", AnimationState::fresh("idle"));
        self.ensure_clip("idle");
        self.current_state = String::from_str("idle");
        self.default_state = String::from_str("idle");
        self.state_mode = true;
        AnimatorEdit { status: String::from_str("✅ Primeiro estado criado."), selected: Some(String::from_str("idle")) }
    }

    /// Makes `target` the playing state; when it exists, its clip plays
    /// and its repeat setting applies.
    pub fn play_state(&mut self, target: &str)
        requires
            old(self).wf(),
        ensures
            final(self).wf(),
            final(self)@ == (if old(self)@.states.dom().contains(target@) {
                AnimatorModel {
                    current_state: target@,
                    current: old(self)@.states[target@].clip,
                    looped: old(self)@.states[target@].looped,
                    ..old(self)@
                }
            } else {
                AnimatorModel { current_state: target@, ..old(self)@ }
            }),
    {
        self.current_state = String::from_str(target);
        match self.states.get(target) {
            Some(state) => {
                self.current = state.clip.clone();
                self.looped = state.looped;
            },
            None => {},
        }
    }

    /// Sets the state that follows `source` (empty for none), when
    /// `source` exists.
    pub fn set_next_state(&mut self, source: &str, target: &str)
        requires
            old(self).wf(),
        ensures
            final(self).wf(),
            final(self)@ == (if old(self)@.states.dom().contains(source@) {
                AnimatorModel {
                    states: old(self)@.states.insert(
                        source@,
                        StateModel { next_state: target@, ..old(self)@.states[source@] },
                    ),
                    ..old(self)@
                }
            } else {
                old(self)@
            }),
    {
        let ghost before = self.states@;
        match self.states.remove(source) {
            Some(mut state) => {
                proof {
                    lemma_states_remove(before, source@);
                }
                state.next_state = String::from_str(target);
                let ghost removed = self.states@;
                self.states.insert(String::from_str(source), state);
                proof {
                    lemma_states_insert(removed, source@, state);
                    assert(state_models(before).remove(source@).insert(source@, state@) =~= state_models(
                        before,
                    ).insert(source@, state@));
                }
            },
            None => {
                assert(self.states@ =~= before);
            },
        }
    }
}

// ── states from clips, clips of states ───────────────────────

/// The state a clip gets when states are made from clips: `attack` plays
/// once, may not be cut into and is followed by `idle`; any other clip
/// repeats, may be cut into and is followed by none.
pub open spec fn synced_state(name: Seq<char>) -> StateModel {
    if name == "attack"@ {
        StateModel { clip: name, looped: false, interruptible: false, next_state: "idle"@ }
    } else {
        fresh_state(name)
    }
}

/// The states with one added, from [`synced_state`], for each clip name
/// that no state has.
pub open spec fn states_synced(states: Map<Seq<char>, StateModel>, clips: Set<Seq<char>>) -> Map<
    Seq<char>,
    StateModel,
> {
    Map::new(
        |k: Seq<char>| states.dom().contains(k) || clips.contains(k),
        |k: Seq<char>|
            if states.dom().contains(k) {
                states[k]
            } else {
                synced_state(k)
            },
    )
}

fn synced(name: &String) -> (r: AnimationState)
    ensures
        r@ == synced_state(name@),
{
    if *name == String::from_str("attack") {
        AnimationState {
            clip: name.clone(),
            looped: false,
            interruptible: false,
            next_state: String::from_str("idle"),
        }
    } else {
        AnimationState::fresh(name.as_str())
    }
}

/// The state under `target` after `clip` is bound to it.
pub open spec fn bound_state(states: Map<Seq<char>, StateModel>, target: Seq<char>, clip: Seq<char>) -> StateModel {
    if states.dom().contains(target) {
        StateModel { clip: clip, ..states[target] }
    } else {
        StateModel { clip: clip, ..blank_state() }
    }
}

impl Animator {
    /// Gives every clip that no state is named after a state of its own
    /// (see [`synced_state`]) and turns state mode on.
    pub fn sync_states_from_clips(&mut self)
        requires
            old(self).wf(),
        ensures
            final(self).wf(),
            final(self)@ == (AnimatorModel {
                states: states_synced(old(self)@.states, old(self)@.clips.dom()),
                state_mode: true,
                ..old(self)@
            }),
    {
        let ghost s0 = self@.states;
        let ghost c0 = self@.clips;
        let entries = self.clips.entries();
        let ghost clip_keys = Set::new(|k: Seq<char>| exists|j: int| 0 <= j < entries@.len() && #[trigger] entries@[j].0@ == k);
        proof {
            let all = clip_keys;
            assert forall|k: Seq<char>| #[trigger] all.contains(k) == self.clips@.dom().contains(k) by {
                if self.clips@.dom().contains(k) {
                    let j = choose|j: int| 0 <= j < entries@.len() && #[trigger] entries@[j].0@ == k;
                    assert(all.contains(k));
                }
                if all.contains(k) {
                    let j = choose|j: int| 0 <= j < entries@.len() && #[trigger] entries@[j].0@ == k;
                    assert(self.clips@.dom().contains(entries@[j].0@));
                }
            }
            
        }
        assert(states_synced(s0, Set::empty()) =~= s0);
        for i in 0..entries.len()
            invariant
                self.states.wf(),
                self.clips.wf(),
                self@ == (AnimatorModel { states: self@.states, ..old(self)@ }),
                state_models(self.states@) == states_synced(
                    s0,
                    Set::new(|k: Seq<char>| exists|j: int| 0 <= j < i && #[trigger] entries@[j].0@ == k),
                ),
        {
            let name = &entries[i].0;
            let ghost before = self.states@;
            let ghost prefix = Set::new(|k: Seq<char>| exists|j: int| 0 <= j < i && #[trigger] entries@[j].0@ == k);
            let ghost next = Set::new(|k: Seq<char>| exists|j: int| 0 <= j < i + 1 && #[trigger] entries@[j].0@ == k);
            assert(next =~= prefix.insert(name@));
            if !self.states.contains_key(name.as_str()) {
                let state = synced(name);
                self.states.insert(name.clone(), state);
                proof {
                    lemma_states_insert(before, name@, state);
                    assert(!state_models(before).dom().contains(name@));
                    assert(!s0.dom().contains(name@));
                    assert(states_synced(s0, next) =~= states_synced(s0, prefix).insert(name@, state@));
                }
            } else {
                assert(states_synced(s0, next) =~= states_synced(s0, prefix));
            }
        }
        assert(clip_keys =~= c0.dom());
        self.state_mode = true;
    }

    /// Binds `clip` to the state `target` (making a blank state when there
    /// is none), makes sure the clip exists, and plays it.
    pub fn bind_clip(&mut self, target: &str, clip: &str)
        requires
            old(self).wf(),
        ensures
            final(self).wf(),
            final(self)@ == (AnimatorModel {
                clips: with_clip(old(self)@.clips, clip@),
                states: old(self)@.states.insert(target@, bound_state(old(self)@.states, target@, clip@)),
                current: clip@,
                ..old(self)@
            }),
    {
        self.ensure_clip(clip);
        let ghost before = self.states@;
        let mut state = match self.states.remove(target) {
            Some(s) => s,
            None => AnimationState::blank(),
        };
        proof {
            lemma_states_remove(before, target@);
        }
        state.clip = String::from_str(clip);
        let ghost removed = self.states@;
        self.states.insert(String::from_str(target), state);
        proof {
            lemma_states_insert(removed, target@, state);
            assert(state_models(before).remove(target@).insert(target@, state@) =~= state_models(
                before,
            ).insert(target@, state@));
        }
        self.current = String::from_str(clip);
    }
}

// ── frames ───────────────────────────────────────────────────

/// The clip under `name`, or an empty one.
pub open spec fn clip_or_empty(clips: Map<Seq<char>, ClipModel>, name: Seq<char>) -> ClipModel {
    if clips.dom().contains(name) {
        clips[name]
    } else {
        empty_clip()
    }
}

/// `existing` followed by each of `added` that is not yet in it.
pub open spec fn add_missing(existing: Seq<Seq<char>>, added: Seq<Seq<char>>) -> Seq<Seq<char>>
    decreases added.len(),
{
    if added.len() == 0 {
        existing
    } else {
        let e = add_missing(existing, added.drop_last());
        if e.contains(added.last()) {
            e
        } else {
            e.push(added.last())
        }
    }
}

/// The clip with its frame at `from` moved to `to`, when both are
/// positions of it.
pub open spec fn frame_moved(c: ClipModel, from: int, to: int) -> ClipModel {
    if 0 <= from < c.frames.len() && 0 <= to < c.frames.len() {
        ClipModel { frames: c.frames.remove(from).insert(to, c.frames[from]), ..c }
    } else {
        c
    }
}

/// The clip without its frame at `index`, when that is a position of it.
pub open spec fn frame_removed(c: ClipModel, index: int) -> ClipModel {
    if 0 <= index < c.frames.len() {
        ClipModel { frames: c.frames.remove(index), ..c }
    } else {
        c
    }
}

fn contains_text(v: &Vec<String>, s: &String) -> (r: bool)
    ensures
        r == string_views(v@).contains(s@),
{
    let mut i: usize = 0;
    while i < v.len()
        invariant
            i <= v.len(),
            forall|j: int| 0 <= j < i ==> #[trigger] v@[j]@ != s@,
        decreases v.len() - i,
    {
        if v[i] == *s {
            assert(string_views(v@)[i as int] == s@);
            return true;
        }
        i += 1;
    }
    assert forall|j: int| 0 <= j < string_views(v@).len() implies string_views(v@)[j] != s@ by {
        assert(string_views(v@)[j] == v@[j]@);
    }
    false
}

impl Animator {
    /// Takes the clip under `name` out of the store (an empty one when
    /// there is none).
    fn take_clip(&mut self, name: &str) -> (r: AnimationClip)
        requires
            old(self).wf(),
        ensures
            final(self).wf(),
            r@ == clip_or_empty(old(self)@.clips, name@),
            final(self)@ == (AnimatorModel { clips: old(self)@.clips.remove(name@), ..old(self)@ }),
    {
        let ghost before = self.clips@;
        let clip = match self.clips.remove(name) {
            Some(c) => c,
            None => AnimationClip::new_empty(),
        };
        proof {
            lemma_clips_remove(before, name@);
        }
        clip
    }

    fn put_clip(&mut self, name: &str, clip: AnimationClip)
        requires
            old(self).wf(),
        ensures
            final(self).wf(),
            final(self)@ == (AnimatorModel { clips: old(self)@.clips.insert(name@, clip@), ..old(self)@ }),
    {
        let ghost before = self.clips@;
        self.clips.insert(String::from_str(name), clip);
        proof {
            lemma_clips_insert(before, name@, clip);
        }
    }

    /// Adds to the clip `clip_name` (made when missing) each of `frames`
    /// it does not have yet, in order, and returns the message shown.
    pub fn append_frames(&mut self, clip_name: &str, frames: Vec<String>) -> (r: String)
        requires
            old(self).wf(),
        ensures
            final(self).wf(),
            frames@.len() == 0 ==> final(self)@ == old(self)@ && r@
                == "❌ Nenhum asset de imagem válido foi encontrado para adicionar."@,
            frames@.len() > 0 ==> final(self)@ == (AnimatorModel {
                clips: old(self)@.clips.insert(
                    clip_name@,
                    ClipModel {
                        frames: add_missing(
                            clip_or_empty(old(self)@.clips, clip_name@).frames,
                            string_views(frames@),
                        ),
                        ..clip_or_empty(old(self)@.clips, clip_name@)
                    },
                ),
                ..old(self)@
            }),
            frames@.len() == 1 ==> r@ == "✅ 1 frame adicionado ao clip '"@ + clip_name@ + "'."@,
            frames@.len() > 1 ==> r@ == "✅ "@ + decimal(frames@.len()) + " frames adicionados ao clip '"@
                + clip_name@ + "'."@,
    {
        if frames.len() == 0 {
            return String::from_str("❌ Nenhum asset de imagem válido foi encontrado para adicionar.");
        }
        let ghost old_model = self@;
        let mut clip = self.take_clip(clip_name);
        let ghost start = clip@;
        for i in 0..frames.len()
            invariant
                clip@ == (ClipModel {
                    frames: add_missing(start.frames, string_views(frames@.take(i as int))),
                    ..start
                }),
        {
            assert(string_views(frames@.take(i + 1)).drop_last() =~= string_views(frames@.take(i as int)));
            assert(string_views(frames@.take(i + 1)).last() == frames@[i as int]@);
            if !contains_text(&clip.frames, &frames[i]) {
                let ghost before = clip.frames@;
                clip.frames.push(frames[i].clone());
                assert(string_views(clip.frames@) =~= string_views(before).push(frames@[i as int]@));
            }
        }
        assert(frames@.take(frames@.len() as int) =~= frames@);
        self.put_clip(clip_name, clip);
        assert(self@.clips =~= old_model.clips.remove(clip_name@).insert(clip_name@, clip@));
        assert(old_model.clips.remove(clip_name@).insert(clip_name@, clip@) =~= old_model.clips.insert(clip_name@, clip@));
        let mut msg = if frames.len() == 1 {
            String::from_str("✅ 1 frame adicionado ao clip '")
        } else {
            let mut m = String::from_str("✅ ");
            m.append(string_of(&decimal_chars(frames.len())).as_str());
            m.append(" frames adicionados ao clip '");
            m
        };
        msg.append(clip_name);
        msg.append("'.");
        msg
    }

    /// Moves the frame at `from` of the clip `clip_name` to `to`, when both
    /// are positions of it; the clip is made when missing.
    pub fn move_frame(&mut self, clip_name: &str, from: usize, to: usize)
        requires
            old(self).wf(),
        ensures
            final(self).wf(),
            final(self)@ == (AnimatorModel {
                clips: old(self)@.clips.insert(
                    clip_name@,
                    frame_moved(clip_or_empty(old(self)@.clips, clip_name@), from as int, to as int),
                ),
                ..old(self)@
            }),
    {
        let ghost old_model = self@;
        let mut clip = self.take_clip(clip_name);
        let ghost c = clip@;
        if from < clip.frames.len() && to < clip.frames.len() {
            let ghost before = clip.frames@;
            let frame = clip.frames.remove(from);
            clip.frames.insert(to, frame);
            assert(string_views(clip.frames@) =~= string_views(before).remove(from as int).insert(
                to as int,
                string_views(before)[from as int],
            ));
        }
        self.put_clip(clip_name, clip);
        assert(old_model.clips.remove(clip_name@).insert(clip_name@, clip@) =~= old_model.clips.insert(clip_name@, clip@));
    }

    /// Removes the frame at `index` of the clip `clip_name`, when it is a
    /// position of it; the clip is made when missing.
    pub fn remove_frame(&mut self, clip_name: &str, index: usize)
        requires
            old(self).wf(),
        ensures
            final(self).wf(),
            final(self)@ == (AnimatorModel {
                clips: old(self)@.clips.insert(
                    clip_name@,
                    frame_removed(clip_or_empty(old(self)@.clips, clip_name@), index as int),
                ),
                ..old(self)@
            }),
    {
        let ghost old_model = self@;
        let mut clip = self.take_clip(clip_name);
        if index < clip.frames.len() {
            let ghost before = clip.frames@;
            clip.frames.remove(index);
            assert(string_views(clip.frames@) =~= string_views(before).remove(index as int));
        }
        self.put_clip(clip_name, clip);
        assert(old_model.clips.remove(clip_name@).insert(clip_name@, clip@) =~= old_model.clips.insert(clip_name@, clip@));
    }

    /// Empties the clip `clip_name` when it has frames, and returns the
    /// message shown.
    pub fn clear_frames(&mut self, clip_name: &str) -> (r: String)
        requires
            old(self).wf(),
        ensures
            final(self).wf(),
            ({
                let had = old(self)@.clips.dom().contains(clip_name@) && old(self)@.clips[clip_name@].frames.len() > 0;
                &&& had ==> final(self)@ == (AnimatorModel {
                    clips: old(self)@.clips.insert(
                        clip_name@,
                        ClipModel { frames: seq![], ..old(self)@.clips[clip_name@] },
                    ),
                    ..old(self)@
                })
                &&& had ==> r@ == "✅ Frames do clip '"@ + clip_name@ + "' foram limpos."@
                &&& !had ==> final(self)@ == old(self)@
                &&& !had ==> r@ == "ℹ O clip '"@ + clip_name@ + "' já está sem frames."@
            }),
    {
        let had = match self.clips.get(clip_name) {
            Some(c) => c.frames.len() > 0,
            None => false,
        };
        if had {
            let ghost old_model = self@;
            let mut clip = self.take_clip(clip_name);
            clip.frames = Vec::new();
            self.put_clip(clip_name, clip);
            assert(clip@.frames =~= Seq::<Seq<char>>::empty());
            assert(old_model.clips.remove(clip_name@).insert(clip_name@, clip@) =~= old_model.clips.insert(clip_name@, clip@));
            let mut msg = String::from_str("✅ Frames do clip '");
            msg.append(clip_name);
            msg.append("' foram limpos.");
            msg
        } else {
            let mut msg = String::from_str("ℹ O clip '");
            msg.append(clip_name);
            msg.append("' já está sem frames.");
            msg
        }
    }
}

// ── deleting a state ─────────────────────────────────────────

/// The state with its link to `name` cut.
pub open spec fn unlinked(s: StateModel, name: Seq<char>) -> StateModel {
    if s.next_state == name {
        StateModel { next_state: seq![], ..s }
    } else {
        s
    }
}

/// The states without `name`, none of them still followed by it.
pub open spec fn states_without(states: Map<Seq<char>, StateModel>, name: Seq<char>) -> Map<Seq<char>, StateModel> {
    states.remove(name).map_values(|s: StateModel| unlinked(s, name))
}

/// The clip of the state `name`, or none when the name is empty or no
/// state has it.
pub open spec fn clip_of(states: Map<Seq<char>, StateModel>, name: Seq<char>) -> Seq<char> {
    if name.len() > 0 && states.dom().contains(name) {
        states[name].clip
    } else {
        seq![]
    }
}

/// Whether some state plays `clip`.
pub open spec fn clip_used(states: Map<Seq<char>, StateModel>, clip: Seq<char>) -> bool {
    exists|k: Seq<char>| states.dom().contains(k) && #[trigger] states[k].clip == clip
}

/// `pick` is a state of `states`, or empty when there are none: the state
/// that a deletion falls back to, which the store picks.
pub open spec fn is_pick(states: Map<Seq<char>, StateModel>, pick: Seq<char>) -> bool {
    if states.dom() == Set::<Seq<char>>::empty() {
        pick == Seq::<char>::empty()
    } else {
        states.dom().contains(pick)
    }
}

/// The animator after the state `name` is deleted, `pick` being the state
/// it falls back to: links to it are cut; the playing state moves to the
/// default state (when that still exists) or else to `pick`; a default
/// state that was `name` becomes `pick`; a queued `name` is dropped; the
/// deleted state's clip is deleted when no other state plays it, and a
/// playing or previous clip that was it is replaced or cleared; with no
/// state left, nothing plays; with no clip playing, the playing state's
/// clip plays.
pub open spec fn spec_delete(a: AnimatorModel, name: Seq<char>, pick: Seq<char>) -> AnimatorModel {
    let states = states_without(a.states, name);
    let rc = a.states[name].clip;
    let cs1 = if a.current_state == name {
        if a.default_state.len() > 0 && states.dom().contains(a.default_state) {
            a.default_state
        } else {
            pick
        }
    } else {
        a.current_state
    };
    let ds1 = if a.default_state == name {
        pick
    } else {
        a.default_state
    };
    let drop_clip = rc.len() > 0 && !clip_used(states, rc);
    let cur1 = if drop_clip && a.current == rc {
        clip_of(states, cs1)
    } else {
        a.current
    };
    let empty = states.dom() == Set::<Seq<char>>::empty();
    AnimatorModel {
        states: states,
        clips: if drop_clip {
            a.clips.remove(rc)
        } else {
            a.clips
        },
        current: if empty {
            seq![]
        } else if cur1.len() == 0 {
            clip_of(states, cs1)
        } else {
            cur1
        },
        current_state: if empty {
            seq![]
        } else {
            cs1
        },
        default_state: if empty {
            seq![]
        } else {
            ds1
        },
        queued_state: if a.queued_state == name {
            seq![]
        } else {
            a.queued_state
        },
        prev_clip: if drop_clip && a.prev_clip == rc {
            seq![]
        } else {
            a.prev_clip
        },
        looped: a.looped,
        state_mode: a.state_mode,
    }
}

pub open spec fn not_found_text(name: Seq<char>) -> Seq<char> {
    "Estado '"@ + name + "' não encontrado."@
}

fn not_found_message(name: &str) -> (r: String)
    ensures
        r@ == not_found_text(name@),
{
    let mut m = String::from_str("Estado '");
    m.append(name);
    m.append("' não encontrado.");
    m
}

impl Animator {
    /// Whether some state plays `clip`.
    fn clip_in_use(&self, clip: &String) -> (r: bool)
        requires
            self.wf(),
        ensures
            r == clip_used(self@.states, clip@),
    {
        let entries = self.states.entries();
        let mut i: usize = 0;
        while i < entries.len()
            invariant
                i <= entries@.len(),
                self.wf(),
                forall|j: int| 0 <= j < entries@.len() ==> #[trigger] self.states@.dom().contains(entries@[j].0@)
                    && self.states@[entries@[j].0@] == entries@[j].1,
                forall|j: int| 0 <= j < i ==> #[trigger] entries@[j].1.clip@ != clip@,
            decreases entries@.len() - i,
        {
            if entries[i].1.clip == *clip {
                assert(self.states@.dom().contains(entries@[i as int].0@));
                assert(self@.states[entries@[i as int].0@].clip == clip@);
                return true;
            }
            i += 1;
        }
        assert forall|k: Seq<char>| self@.states.dom().contains(k) implies #[trigger] self@.states[k].clip != clip@ by {
            let j = choose|j: int| 0 <= j < entries@.len() && #[trigger] entries@[j].0@ == k;
        }
        false
    }

    /// The clip of the state `name`, or none.
    fn clip_of_state(&self, name: &String) -> (r: String)
        requires
            self.wf(),
        ensures
            r@ == clip_of(self@.states, name@),
    {
        if name.as_str().is_empty() {
            return String::new();
        }
        match self.states.get(name.as_str()) {
            Some(s) => s.clip.clone(),
            None => String::new(),
        }
    }

    /// Deletes the state `name` (see [`spec_delete`]) and returns the clip
    /// it played; fails, changing nothing, when no state has that name.
    pub fn remove_state(&mut self, name: &str) -> (r: Result<String, String>)
        requires
            old(self).wf(),
        ensures
            final(self).wf(),
            !old(self)@.states.dom().contains(name@) ==> final(self)@ == old(self)@ && (r matches Err(e)
                && e@ == not_found_text(name@)),
            old(self)@.states.dom().contains(name@) ==> (r matches Ok(c) && c@ == old(self)@.states[name@].clip)
                && exists|pick: Seq<char>|
                #![trigger is_pick(states_without(old(self)@.states, name@), pick)]
                is_pick(states_without(old(self)@.states, name@), pick) && final(self)@ == spec_delete(
                    old(self)@,
                    name@,
                    pick,
                ),
    {
        let ghost a = self@;
        assert(a.states.dom() =~= self.states@.dom());
        if !self.states.contains_key(name) {
            return Err(not_found_message(name));
        }
        let ghost before = self.states@;
        let removed = self.states.remove(name).unwrap();
        proof {
            lemma_states_remove(before, name@);
        }
        let removed_clip = removed.clip;
        let key = String::from_str(name);
        let ghost removed_map = self.states@;
        let unlink = |s: &AnimationState| -> (r: AnimationState)
            ensures
                r@ == unlinked(s@, key@),
            {
                AnimationState {
                    clip: s.clip.clone(),
                    looped: s.looped,
                    interruptible: s.interruptible,
                    next_state: if s.next_state == key {
                        String::new()
                    } else {
                        s.next_state.clone()
                    },
                }
            };
        self.states.update_values(
            unlink,
            Ghost(|x: AnimationState, y: AnimationState| y@ == unlinked(x@, name@)),
        );
        let ghost states1 = states_without(a.states, name@);
        assert(self@.states =~= states1);
        let pick = match self.states.any_key() {
            Some(k) => k,
            None => String::new(),
        };
        proof {
            assert(self@.states.dom() =~= self.states@.dom());
            assert(is_pick(states1, pick@));
        }
        if self.current_state == key {
            self.current_state = if !self.default_state.as_str().is_empty() && self.states.contains_key(
                self.default_state.as_str(),
            ) {
                self.default_state.clone()
            } else {
                pick.clone()
            };
        }
        if self.default_state == key {
            self.default_state = pick.clone();
        }
        if self.queued_state == key {
            self.queued_state = String::new();
        }
        let drop_clip = !removed_clip.as_str().is_empty() && !self.clip_in_use(&removed_clip);
        if drop_clip {
            let ghost clips_before = self.clips@;
            self.clips.remove(removed_clip.as_str());
            proof {
                lemma_clips_remove(clips_before, removed_clip@);
            }
            if self.current == removed_clip {
                self.current = self.clip_of_state(&self.current_state);
            }
            if self.prev_clip == removed_clip {
                self.prev_clip = String::new();
            }
        }
        if self.states.is_empty() {
            assert(self@.states.dom() =~= Set::<Seq<char>>::empty());
            self.current_state = String::new();
            self.default_state = String::new();
            self.current = String::new();
        } else {
            assert(self@.states.dom() != Set::<Seq<char>>::empty()) by {
                assert(self@.states.dom() =~= self.states@.dom());
                if self.states@.dom() == Set::<Seq<char>>::empty() {
                    assert(self.states@ =~= Map::<Seq<char>, AnimationState>::empty());
                }
            }
            if self.current.as_str().is_empty() {
                self.current = self.clip_of_state(&self.current_state);
            }
        }
        assert(self@ == spec_delete(a, name@, pick@));
        Ok(removed_clip)
    }
}

// ── renaming a state ─────────────────────────────────────────

/// Whether a state's clip goes with its name: it has none, or it is the
/// clip named after the state.
pub open spec fn clip_follows_name(s: StateModel, name: Seq<char>) -> bool {
    trim(s.clip).len() == 0 || s.clip == name
}

/// The state with its references to `old_name` moved to `new_name`: the
/// state that follows it, and its clip when clips are renamed too.
pub open spec fn renamed_refs(s: StateModel, old_name: Seq<char>, new_name: Seq<char>, rename_clip: bool) -> StateModel {
    StateModel {
        clip: if rename_clip && s.clip == old_name {
            new_name
        } else {
            s.clip
        },
        next_state: if s.next_state == old_name {
            new_name
        } else {
            s.next_state
        },
        ..s
    }
}

pub open spec fn moved_name(x: Seq<char>, old_name: Seq<char>, new_name: Seq<char>) -> Seq<char> {
    if x == old_name {
        new_name
    } else {
        x
    }
}

/// The animator after the state `old_name` is renamed `new_name`: the
/// state moves to the new name and every link to it follows; when its
/// clip goes with its name (see [`clip_follows_name`]) the clip is renamed
/// too (made when missing), and so are the states, playing and previous
/// clip that used it; the playing, default and queued states follow.
pub open spec fn spec_rename(a: AnimatorModel, old_name: Seq<char>, new_name: Seq<char>) -> AnimatorModel {
    let s = a.states[old_name];
    let rc = clip_follows_name(s, old_name);
    let moved = if rc {
        StateModel { clip: new_name, ..s }
    } else {
        s
    };
    AnimatorModel {
        states: a.states.remove(old_name).insert(new_name, moved).map_values(
            |x: StateModel| renamed_refs(x, old_name, new_name, rc),
        ),
        clips: if !rc {
            a.clips
        } else if a.clips.dom().contains(old_name) {
            a.clips.remove(old_name).insert(new_name, a.clips[old_name])
        } else {
            with_clip(a.clips, new_name)
        },
        current: if rc {
            moved_name(a.current, old_name, new_name)
        } else {
            a.current
        },
        prev_clip: if rc {
            moved_name(a.prev_clip, old_name, new_name)
        } else {
            a.prev_clip
        },
        current_state: moved_name(a.current_state, old_name, new_name),
        default_state: moved_name(a.default_state, old_name, new_name),
        queued_state: moved_name(a.queued_state, old_name, new_name),
        looped: a.looped,
        state_mode: a.state_mode,
    }
}

pub open spec fn name_taken_text(name: Seq<char>) -> Seq<char> {
    "Já existe um estado chamado '"@ + name + "'."@
}

fn moved_string(x: &String, old_name: &String, new_name: &String) -> (r: String)
    ensures
        r@ == moved_name(x@, old_name@, new_name@),
{
    if *x == *old_name {
        new_name.clone()
    } else {
        x.clone()
    }
}

impl Animator {
    /// Renames the state `old_name` to `new_name` (see [`spec_rename`]);
    /// fails, changing nothing, when a state already has the new name or
    /// none has the old one.
    pub fn rename_state(&mut self, old_name: &str, new_name: &str) -> (r: Result<(), String>)
        requires
            old(self).wf(),
        ensures
            final(self).wf(),
            old(self)@.states.dom().contains(new_name@) ==> final(self)@ == old(self)@ && (r matches Err(e)
                && e@ == name_taken_text(new_name@)),
            !old(self)@.states.dom().contains(new_name@) && !old(self)@.states.dom().contains(old_name@)
                ==> final(self)@ == old(self)@ && (r matches Err(e) && e@ == not_found_text(old_name@)),
            !old(self)@.states.dom().contains(new_name@) && old(self)@.states.dom().contains(old_name@)
                ==> r is Ok && final(self)@ == spec_rename(old(self)@, old_name@, new_name@),
    {
        let ghost a = self@;
        assert(a.states.dom() =~= self.states@.dom());
        if self.states.contains_key(new_name) {
            let mut m = String::from_str("Já existe um estado chamado '");
            m.append(new_name);
            m.append("'.");
            return Err(m);
        }
        if !self.states.contains_key(old_name) {
            return Err(not_found_message(old_name));
        }
        let old_key = String::from_str(old_name);
        let new_key = String::from_str(new_name);
        let ghost before = self.states@;
        let mut state = self.states.remove(old_name).unwrap();
        proof {
            lemma_states_remove(before, old_name@);
        }
        let rename_clip = trim_chars(&chars_of(state.clip.as_str())).len() == 0 || state.clip == old_key;
        if rename_clip {
            state.clip = new_key.clone();
        }
        let ghost removed = self.states@;
        self.states.insert(new_key.clone(), state);
        proof {
            lemma_states_insert(removed, new_name@, state);
        }
        let ghost moved_map = self@.states;
        let follow = |s: &AnimationState| -> (r: AnimationState)
            ensures
                r@ == renamed_refs(s@, old_key@, new_key@, rename_clip),
            {
                AnimationState {
                    clip: if rename_clip && s.clip == old_key {
                        new_key.clone()
                    } else {
                        s.clip.clone()
                    },
                    looped: s.looped,
                    interruptible: s.interruptible,
                    next_state: moved_string(&s.next_state, &old_key, &new_key),
                }
            };
        self.states.update_values(
            follow,
            Ghost(|x: AnimationState, y: AnimationState| y@ == renamed_refs(x@, old_name@, new_name@, rename_clip)),
        );
        assert(self@.states =~= moved_map.map_values(
            |x: StateModel| renamed_refs(x, old_name@, new_name@, rename_clip),
        ));
        if rename_clip {
            let ghost clips_before = self.clips@;
            match self.clips.remove(old_name) {
                Some(c) => {
                    proof {
                        lemma_clips_remove(clips_before, old_name@);
                    }
                    let ghost clips_removed = self.clips@;
                    self.clips.insert(new_key.clone(), c);
                    proof {
                        lemma_clips_insert(clips_removed, new_name@, c);
                    }
                },
                None => {
                    assert(self.clips@ =~= clips_before);
                    self.ensure_clip(new_name);
                },
            }
            self.current = moved_string(&self.current, &old_key, &new_key);
            self.prev_clip = moved_string(&self.prev_clip, &old_key, &new_key);
        }
        self.current_state = moved_string(&self.current_state, &old_key, &new_key);
        self.default_state = moved_string(&self.default_state, &old_key, &new_key);
        self.queued_state = moved_string(&self.queued_state, &old_key, &new_key);
        assert(self@ == spec_rename(a, old_name@, new_name@));
        Ok(())
    }
}

// ── the editor's state row ───────────────────────────────────

/// What an edit of the animator shows: the status line, and the state to
/// select when the selection changes.
#[derive(Debug)]
pub struct AnimatorEdit {
    pub status: String,
    pub selected: Option<String>,
}

/// `first` is the least state name in text order, or empty when there is
/// no state.
pub open spec fn is_first_name(names: Set<Seq<char>>, first: Seq<char>) -> bool {
    if names == Set::<Seq<char>>::empty() {
        first == Seq::<char>::empty()
    } else {
        names.contains(first) && forall|k: Seq<char>| #[trigger] names.contains(k) ==> !lex_lt(k, first)
    }
}

impl Animator {
    /// The least state name in text order, or none.
    fn first_state_name(&self) -> (r: String)
        requires
            self.wf(),
        ensures
            is_first_name(self@.states.dom(), r@),
    {
        let names = self.sorted_state_names();
        if names.len() == 0 {
            assert(self@.states.dom() =~= Set::<Seq<char>>::empty()) by {
                if exists|k: Seq<char>| self@.states.dom().contains(k) {
                    let k = choose|k: Seq<char>| self@.states.dom().contains(k);
                    assert(string_views(names@).contains(k));
                }
            }
            String::new()
        } else {
            proof {
                assert(string_views(names@)[0] == names@[0]@);
                assert(string_views(names@).contains(names@[0]@));
                assert(self@.states.dom().contains(names@[0]@));
                assert forall|k: Seq<char>| #[trigger] self@.states.dom().contains(k) implies !lex_lt(k, names@[0]@) by {
                    assert(string_views(names@).contains(k));
                    let j = choose|j: int| 0 <= j < string_views(names@).len() && string_views(names@)[j] == k;
                    assert(names@[j]@ == k);
                    if j > 0 {
                        assert((name_order())(names@[0], names@[j]));
                    } else {
                        lemma_lex_irreflexive(k);
                    }
                }
            }
            names[0].clone()
        }
    }

    /// Deletes the state named by `state_name` (without surrounding white
    /// space), as the delete button does, and says so; the first remaining
    /// state in text order is selected.
    pub fn delete_state(&mut self, state_name: &str) -> (r: AnimatorEdit)
        requires
            old(self).wf(),
        ensures
            final(self).wf(),
            trim(state_name@).len() == 0 ==> final(self)@ == old(self)@ && r.selected is None && r.status@
                == "❌ Nenhum estado selecionado para deletar."@,
            trim(state_name@).len() > 0 && !old(self)@.states.dom().contains(trim(state_name@)) ==> final(self)@
                == old(self)@ && r.selected is None && r.status@ == "❌ "@ + not_found_text(trim(state_name@)),
            trim(state_name@).len() > 0 && old(self)@.states.dom().contains(trim(state_name@)) ==> (exists|pick: Seq<char>|
                #![trigger is_pick(states_without(old(self)@.states, trim(state_name@)), pick)]
                is_pick(states_without(old(self)@.states, trim(state_name@)), pick) && final(self)@
                    == spec_delete(old(self)@, trim(state_name@), pick)) && (r.selected matches Some(first)
                && is_first_name(final(self)@.states.dom(), first@)) && r.status@ == (if final(self)@.states.dom()
                == Set::<Seq<char>>::empty() {
                "✅ Estado '"@ + trim(state_name@) + "' removido. O Animator ficou sem estados."@
            } else {
                "✅ Estado '"@ + trim(state_name@) + "' removido com sucesso."@
            }),
    {
        let name = string_of(&trim_chars(&chars_of(state_name)));
        if name.as_str().is_empty() {
            return AnimatorEdit {
                status: String::from_str("❌ Nenhum estado selecionado para deletar."),
                selected: None,
            };
        }
        match self.remove_state(name.as_str()) {
            Ok(_) => {
                let first = self.first_state_name();
                let mut status = String::from_str("✅ Estado '");
                status.append(name.as_str());
                assert(self@.states.dom() =~= self.states@.dom());
                if self.states.is_empty() {
                    assert(self.states@.dom() =~= Set::<Seq<char>>::empty());
                    status.append("' removido. O Animator ficou sem estados.");
                } else {
                    assert(self.states@.dom() != Set::<Seq<char>>::empty()) by {
                        if self.states@.dom() == Set::<Seq<char>>::empty() {
                            assert(self.states@ =~= Map::<Seq<char>, AnimationState>::empty());
                        }
                    }
                    status.append("' removido com sucesso.");
                }
                AnimatorEdit { status, selected: Some(first) }
            },
            Err(e) => {
                let mut status = String::from_str("❌ ");
                status.append(e.as_str());
                AnimatorEdit { status, selected: None }
            },
        }
    }

    /// Renames the state `old_name` to what `rename_buffer` holds (without
    /// surrounding white space), as the rename row does, and says so; on
    /// success the renamed state is selected.
    pub fn rename_selected_state(&mut self, old_name: &str, rename_buffer: &str) -> (r: AnimatorEdit)
        requires
            old(self).wf(),
        ensures
            final(self).wf(),
            ({
                let new_name = trim(rename_buffer@);
                &&& new_name.len() == 0 ==> final(self)@ == old(self)@ && r.selected is None && r.status@
                    == "❌ Digite um nome válido para o estado."@
                &&& new_name.len() > 0 && new_name == old_name@ ==> final(self)@ == old(self)@ && r.selected is None
                    && r.status@ == "ℹ O estado já está com esse nome."@
                &&& new_name.len() > 0 && new_name != old_name@ && old(self)@.states.dom().contains(new_name)
                    ==> final(self)@ == old(self)@ && r.selected is None && r.status@ == "❌ "@ + name_taken_text(
                    new_name,
                )
                &&& new_name.len() > 0 && new_name != old_name@ && !old(self)@.states.dom().contains(new_name)
                    && !old(self)@.states.dom().contains(old_name@) ==> final(self)@ == old(self)@ && r.selected is None
                    && r.status@ == "❌ "@ + not_found_text(old_name@)
                &&& new_name.len() > 0 && new_name != old_name@ && !old(self)@.states.dom().contains(new_name)
                    && old(self)@.states.dom().contains(old_name@) ==> final(self)@ == spec_rename(
                    old(self)@,
                    old_name@,
                    new_name,
                ) && (r.selected matches Some(sel) && sel@ == new_name) && r.status@ == "✅ Estado '"@ + old_name@
                    + "' renomeado para '"@ + new_name + "'."@
            }),
    {
        let new_name = string_of(&trim_chars(&chars_of(rename_buffer)));
        if new_name.as_str().is_empty() {
            return AnimatorEdit {
                status: String::from_str("❌ Digite um nome válido para o estado."),
                selected: None,
            };
        }
        if new_name == String::from_str(old_name) {
            return AnimatorEdit { status: String::from_str("ℹ O estado já está com esse nome."), selected: None };
        }
        match self.rename_state(old_name, new_name.as_str()) {
            Ok(()) => {
                let mut status = String::from_str("✅ Estado '");
                status.append(old_name);
                status.append("' renomeado para '");
                status.append(new_name.as_str());
                status.append("'.");
                AnimatorEdit { status, selected: Some(new_name) }
            },
            Err(e) => {
                let mut status = String::from_str("❌ ");
                status.append(e.as_str());
                AnimatorEdit { status, selected: None }
            },
        }
    }
}

// ── laws ─────────────────────────────────────────────────────

/// The name given to a new state is never one a state already has.
pub proof fn law_unique_state_name_is_free(names: Set<Seq<char>>, base: Seq<char>, r: Seq<char>)
    requires
        is_unique_state_name(names, base, r),
    ensures
        !names.contains(r),
{
}

/// Deleting a state leaves nothing pointing at it: it is gone from the
/// states (and only it), no state is followed by it, and it is neither
/// the playing, the default nor the queued state.
pub proof fn law_delete_leaves_no_reference(a: AnimatorModel, name: Seq<char>, pick: Seq<char>)
    requires
        a.states.dom().contains(name),
        name.len() > 0,
        is_pick(states_without(a.states, name), pick),
    ensures
        ({
            let b = spec_delete(a, name, pick);
            &&& b.states.dom() == a.states.dom().remove(name)
            &&& forall|k: Seq<char>| #[trigger] b.states.dom().contains(k) ==> b.states[k].next_state != name
            &&& b.current_state != name
            &&& b.default_state != name
            &&& b.queued_state != name
        }),
{
    let b = spec_delete(a, name, pick);
    assert(b.states.dom() =~= a.states.dom().remove(name));
}

/// Renaming a state moves every reference to it: the state set loses the
/// old name and gains the new one, no state is followed by the old name,
/// the playing, default and queued states no longer name it, and the
/// renamed state keeps its settings.
pub proof fn law_rename_moves_references(a: AnimatorModel, old_name: Seq<char>, new_name: Seq<char>)
    requires
        a.states.dom().contains(old_name),
        !a.states.dom().contains(new_name),
    ensures
        ({
            let b = spec_rename(a, old_name, new_name);
            &&& b.states.dom() == a.states.dom().remove(old_name).insert(new_name)
            &&& forall|k: Seq<char>| #[trigger] b.states.dom().contains(k) ==> b.states[k].next_state != old_name
            &&& b.current_state != old_name
            &&& b.default_state != old_name
            &&& b.queued_state != old_name
            &&& b.states[new_name].looped == a.states[old_name].looped
            &&& b.states[new_name].interruptible == a.states[old_name].interruptible
            &&& b.states[new_name].next_state == moved_name(a.states[old_name].next_state, old_name, new_name)
        }),
{
    let b = spec_rename(a, old_name, new_name);
    assert(b.states.dom() =~= a.states.dom().remove(old_name).insert(new_name));
}


/// Deleting the playing state falls back to the default state when there
/// is one that survives the deletion; otherwise to a state that remains
/// (none when no state remains).
pub proof fn law_delete_playing_falls_back_to_default(a: AnimatorModel, name: Seq<char>, pick: Seq<char>)
    requires
        a.states.dom().contains(name),
        a.current_state == name,
        is_pick(states_without(a.states, name), pick),
    ensures
        ({
            let b = spec_delete(a, name, pick);
            &&& a.default_state.len() > 0 && a.default_state != name && a.states.dom().contains(a.default_state)
                ==> b.current_state == a.default_state
            &&& b.current_state.len() > 0 ==> b.states.dom().contains(b.current_state)
        }),
{
    let b = spec_delete(a, name, pick);
    let states1 = states_without(a.states, name);
    assert(b.states == states1);
    if a.default_state.len() > 0 && a.default_state != name && a.states.dom().contains(a.default_state) {
        assert(states1.dom().contains(a.default_state));
        assert(states1.dom() != Set::<Seq<char>>::empty());
    }
}

} // verus!
