//! The editor's session: which entities are selected, what deleting or
//! renaming them asks, the undo and redo history of the scene, the open
//! scene tabs and their names.
use vstd::prelude::*;
use crate::assets::{file_stem_chars, file_stem_of};
use crate::editor::DeleteTarget;
use crate::hierarchy::{find_entity, find_in, EntityNode};
use crate::text::{
    chars_eq, chars_of, decimal, decimal_chars, lower_seq, replace_char, replace_char_chars, string_of, sub_chars,
    to_ascii_lower_chars, opt_view, string_views,
};

verus! {

// ── selection ────────────────────────────────────────────────

/// The entities selected in the editor: the primary one, and all of them
/// in the order they were selected.
#[derive(Debug, Clone)]
pub struct EntitySelection {
    pub selected_entity_id: Option<String>,
    pub selected_entity_ids: Vec<String>,
}

impl View for EntitySelection {
    type V = (Option<Seq<char>>, Seq<Seq<char>>);

    open spec fn view(&self) -> (Option<Seq<char>>, Seq<Seq<char>>) {
        (opt_view(self.selected_entity_id), string_views(self.selected_entity_ids@))
    }
}

/// The first position of `x` in `v`, or -1.
pub open spec fn first_pos(v: Seq<Seq<char>>, x: Seq<char>) -> int
    decreases v.len(),
{
    if v.len() == 0 {
        -1
    } else {
        let p = first_pos(v.drop_last(), x);
        if p >= 0 {
            p
        } else if v.last() == x {
            v.len() - 1
        } else {
            -1
        }
    }
}

pub proof fn lemma_first_pos(v: Seq<Seq<char>>, x: Seq<char>)
    ensures
        -1 <= first_pos(v, x) < v.len(),
        first_pos(v, x) >= 0 ==> v[first_pos(v, x)] == x,
        forall|i: int| 0 <= i < v.len() && (first_pos(v, x) < 0 || i < first_pos(v, x)) ==> v[i] != x,
        (first_pos(v, x) >= 0) == v.contains(x),
    decreases v.len(),
{
    if v.len() > 0 {
        let d = v.drop_last();
        lemma_first_pos(d, x);
        if v.contains(x) {
            let k = choose|k: int| 0 <= k < v.len() && v[k] == x;
            if k < v.len() - 1 {
                assert(d[k] == x);
            }
        }
        if first_pos(v, x) >= 0 {
            assert(v[first_pos(v, x)] == x);
        }
        assert forall|i: int| 0 <= i < v.len() && (first_pos(v, x) < 0 || i < first_pos(v, x)) implies v[i] != x by {
            if i < v.len() - 1 {
                assert(v[i] == d[i]);
            }
        }
    }
}

/// Selecting an entity that is not selected adds it and makes it the
/// primary one; selecting a selected one takes it out, and when it was the
/// primary one the last selected becomes primary (none when none is left).
pub open spec fn spec_toggle(s: (Option<Seq<char>>, Seq<Seq<char>>), id: Seq<char>) -> (
    Option<Seq<char>>,
    Seq<Seq<char>>,
) {
    let p = first_pos(s.1, id);
    if p >= 0 {
        let ids = s.1.remove(p);
        let primary = if s.0 == Some(id) {
            if ids.len() > 0 {
                Some(ids.last())
            } else {
                None
            }
        } else {
            s.0
        };
        (primary, ids)
    } else {
        (Some(id), s.1.push(id))
    }
}

impl EntitySelection {
    /// Nothing selected.
    pub fn new() -> (r: Self)
        ensures
            r@ == (None::<Seq<char>>, Seq::<Seq<char>>::empty()),
    {
        let r = EntitySelection { selected_entity_id: None, selected_entity_ids: Vec::new() };
        assert(r@.1 =~= Seq::<Seq<char>>::empty());
        r
    }

    pub fn is_entity_selected(&self, id: &str) -> (r: bool)
        ensures
            r == self@.1.contains(id@),
    {
        let v = &self.selected_entity_ids;
        let ghost views = string_views(v@);
        assert(self@.1 == views);
        for i in 0..v.len()
            invariant
                views == string_views(v@),
                self@.1 == views,
                forall|k: int| 0 <= k < i ==> #[trigger] views[k] != id@,
        {
            if chars_eq(&chars_of(v[i].as_str()), &chars_of(id)) {
                assert(views[i as int] == v@[i as int]@);
                assert(views[i as int] == id@);
                assert(views.contains(id@));
                assert(self@.1 == views);
                return true;
            }
            assert(views[i as int] == v@[i as int]@);
        }
        assert(!views.contains(id@));
        false
    }

    /// Only `id` selected (nothing when `None`), and it is the primary one.
    pub fn select_single_entity(&mut self, id: Option<String>)
        ensures
            final(self)@ == (opt_view(id), match id {
                Some(x) => seq![x@],
                None => Seq::<Seq<char>>::empty(),
            }),
    {
        let mut ids: Vec<String> = Vec::new();
        match &id {
            Some(x) => ids.push(String::from_str(x.as_str())),
            None => {},
        }
        self.selected_entity_ids = ids;
        self.selected_entity_id = id;
        assert(self@.1 =~= (match id {
            Some(x) => seq![x@],
            None => Seq::<Seq<char>>::empty(),
        }));
    }

    pub fn clear_entity_selection(&mut self)
        ensures
            final(self)@ == (None::<Seq<char>>, Seq::<Seq<char>>::empty()),
    {
        self.selected_entity_id = None;
        self.selected_entity_ids.clear();
        assert(self@.1 =~= Seq::<Seq<char>>::empty());
    }

    /// Selects `id` if it is not selected, else takes it out (see
    /// [`spec_toggle`]).
    pub fn toggle_entity_selection(&mut self, id: String)
        ensures
            final(self)@ == spec_toggle(old(self)@, id@),
    {
        let ghost old_ids = string_views(self.selected_entity_ids@);
        let n = self.selected_entity_ids.len();
        let mut pos: usize = n;
        let mut i: usize = 0;
        while i < n && pos == n
            invariant
                n == self.selected_entity_ids.len(),
                old_ids == string_views(self.selected_entity_ids@),
                i <= n,
                pos == n ==> first_pos(old_ids.take(i as int), id@) < 0,
                pos < n ==> old_ids[pos as int] == id@ && first_pos(old_ids.take(pos as int), id@) < 0,
                pos <= n,
            decreases n - i,
        {
            assert(old_ids.take(i + 1).drop_last() == old_ids.take(i as int));
            assert(old_ids[i as int] == self.selected_entity_ids@[i as int]@);
            if chars_eq(&chars_of(self.selected_entity_ids[i].as_str()), &chars_of(id.as_str())) {
                pos = i;
            }
            i += 1;
        }
        proof {
            if pos == n {
                assert(old_ids.take(n as int) == old_ids);
            } else {
                lemma_first_pos_prefix(old_ids, id@, pos as int);
            }
        }
        if pos < n {
            self.selected_entity_ids.remove(pos);
            let ghost ids = string_views(self.selected_entity_ids@);
            assert(ids =~= old_ids.remove(pos as int));
            let is_primary = match &self.selected_entity_id {
                Some(p) => chars_eq(&chars_of(p.as_str()), &chars_of(id.as_str())),
                None => false,
            };
            if is_primary {
                let len = self.selected_entity_ids.len();
                if len > 0 {
                    self.selected_entity_id = Some(String::from_str(self.selected_entity_ids[len - 1].as_str()));
                } else {
                    self.selected_entity_id = None;
                }
            }
        } else {
            let ghost before = self.selected_entity_ids@;
            self.selected_entity_ids.push(String::from_str(id.as_str()));
            assert(string_views(self.selected_entity_ids@) =~= old_ids.push(id@));
            self.selected_entity_id = Some(id);
        }
    }
}

proof fn lemma_first_pos_prefix(v: Seq<Seq<char>>, x: Seq<char>, k: int)
    requires
        0 <= k < v.len(),
        v[k] == x,
        first_pos(v.take(k), x) < 0,
    ensures
        first_pos(v, x) == k,
    decreases v.len() - k,
{
    if v.len() - 1 == k {
        assert(v.drop_last() =~= v.take(k));
    } else {
        assert(v.drop_last().take(k) =~= v.take(k));
        lemma_first_pos_prefix(v.drop_last(), x, k);
    }
}

/// Selecting an unselected entity and then selecting it again leaves the
/// same entities selected as before.
pub proof fn law_toggle_twice_restores_selection(s: (Option<Seq<char>>, Seq<Seq<char>>), id: Seq<char>)
    requires
        !s.1.contains(id),
    ensures
        spec_toggle(spec_toggle(s, id), id).1 == s.1,
{
    lemma_first_pos(s.1, id);
    let t = spec_toggle(s, id);
    assert(t.1 == s.1.push(id));
    assert(first_pos(t.1.take(s.1.len() as int), id) < 0) by {
        assert(t.1.take(s.1.len() as int) =~= s.1);
    }
    lemma_first_pos_prefix(t.1, id, s.1.len() as int);
    assert(t.1.remove(s.1.len() as int) =~= s.1);
}

/// A selection without repetitions stays without repetitions, and the
/// toggled entity is selected afterwards exactly when it was not before.
pub proof fn law_toggle_keeps_selection_unique(s: (Option<Seq<char>>, Seq<Seq<char>>), id: Seq<char>)
    requires
        s.1.no_duplicates(),
    ensures
        spec_toggle(s, id).1.no_duplicates(),
        spec_toggle(s, id).1.contains(id) == !s.1.contains(id),
{
    lemma_first_pos(s.1, id);
    let p = first_pos(s.1, id);
    let r = spec_toggle(s, id).1;
    if p >= 0 {
        assert forall|i: int, j: int| 0 <= i < r.len() && 0 <= j < r.len() && i != j implies r[i] != r[j] by {
            let oi = if i < p { i } else { i + 1 };
            let oj = if j < p { j } else { j + 1 };
            assert(r[i] == s.1[oi]);
            assert(r[j] == s.1[oj]);
        }
        if r.contains(id) {
            let k = choose|k: int| 0 <= k < r.len() && r[k] == id;
            let ok = if k < p { k } else { k + 1 };
            assert(s.1[ok] == id);
        }
    } else {
        assert forall|i: int, j: int| 0 <= i < r.len() && 0 <= j < r.len() && i != j implies r[i] != r[j] by {
            if i < s.1.len() && j < s.1.len() {
            } else if i < s.1.len() {
                assert(r[i] == s.1[i]);
            } else if j < s.1.len() {
                assert(r[j] == s.1[j]);
            }
        }
        assert(r[s.1.len() as int] == id);
    }
}

// ── undo and redo ────────────────────────────────────────────

/// How many snapshots the undo history keeps.
pub const UNDO_LIMIT: usize = 64;

/// The scene snapshots that undo and redo go back and forth between, the
/// most recent last.
#[derive(Debug, Clone)]
pub struct SceneHistory<S> {
    pub undo_stack: Vec<S>,
    pub redo_stack: Vec<S>,
}

/// The undo stack after a new snapshot: pushed, and the oldest dropped
/// when that makes more than [`UNDO_LIMIT`].
pub open spec fn pushed_undo<S>(undo: Seq<S>, snapshot: S) -> Seq<S> {
    let p = undo.push(snapshot);
    if p.len() > UNDO_LIMIT {
        p.remove(0)
    } else {
        p
    }
}

impl<S> SceneHistory<S> {
    pub fn new() -> (r: Self)
        ensures
            r.undo_stack@ == Seq::<S>::empty(),
            r.redo_stack@ == Seq::<S>::empty(),
    {
        SceneHistory { undo_stack: Vec::new(), redo_stack: Vec::new() }
    }

    /// Remembers the scene before a change; what could be redone is
    /// forgotten.
    pub fn push_undo_state(&mut self, snapshot: S)
        ensures
            final(self).undo_stack@ == pushed_undo(old(self).undo_stack@, snapshot),
            final(self).redo_stack@ == Seq::<S>::empty(),
    {
        self.undo_stack.push(snapshot);
        if self.undo_stack.len() > UNDO_LIMIT {
            self.undo_stack.remove(0);
        }
        self.redo_stack.clear();
    }

    /// Goes back one change: the last snapshot comes out (`Ok`) and the
    /// current scene can be redone. With nothing to undo the current scene
    /// comes back (`Err`) and nothing changes.
    pub fn undo_scene(&mut self, current: S) -> (r: Result<S, S>)
        ensures
            (r, final(self).undo_stack@, final(self).redo_stack@) == spec_undo(
                old(self).undo_stack@,
                old(self).redo_stack@,
                current,
            ),
    {
        match self.undo_stack.pop() {
            Some(previous) => {
                self.redo_stack.push(current);
                Ok(previous)
            },
            None => Err(current),
        }
    }

    /// Goes forward one undone change: the snapshot comes out (`Ok`) and
    /// the current scene can be undone again. With nothing to redo the
    /// current scene comes back (`Err`) and nothing changes.
    pub fn redo_scene(&mut self, current: S) -> (r: Result<S, S>)
        ensures
            (r, final(self).undo_stack@, final(self).redo_stack@) == spec_redo(
                old(self).undo_stack@,
                old(self).redo_stack@,
                current,
            ),
    {
        match self.redo_stack.pop() {
            Some(next) => {
                self.undo_stack.push(current);
                Ok(next)
            },
            None => Err(current),
        }
    }
}

/// The scene being edited, its undo history, the entity selection and the
/// status line: what undo and redo change together in the editor.
#[derive(Debug)]
pub struct SceneEditor<S> {
    pub scene: S,
    pub history: SceneHistory<S>,
    pub selection: EntitySelection,
    pub status_msg: String,
}

impl<S> SceneEditor<S> {
    /// Undo in the editor: with a snapshot to go back to, it becomes the
    /// scene, the scene it replaces can be redone, the selection is
    /// cleared and the status says so; with none, only the status changes.
    pub fn undo_scene(&mut self)
        ensures
            ({
                let (out, undo, redo) = spec_undo(
                    old(self).history.undo_stack@,
                    old(self).history.redo_stack@,
                    old(self).scene,
                );
                &&& final(self).history.undo_stack@ == undo
                &&& final(self).history.redo_stack@ == redo
                &&& out is Ok ==> final(self).scene == out->Ok_0 && final(self).selection@ == (
                    None::<Seq<char>>,
                    Seq::<Seq<char>>::empty(),
                ) && final(self).status_msg@ == "↶ Desfazer aplicado."@
                &&& out is Err ==> final(self).scene == old(self).scene && final(self).selection@
                    == old(self).selection@ && final(self).status_msg@ == "Nada para desfazer."@
            }),
    {
        match self.history.undo_stack.pop() {
            Some(previous) => {
                let mut replaced = previous;
                std::mem::swap(&mut self.scene, &mut replaced);
                self.history.redo_stack.push(replaced);
                self.selection.clear_entity_selection();
                self.status_msg = String::from_str("↶ Desfazer aplicado.");
            },
            None => {
                self.status_msg = String::from_str("Nada para desfazer.");
            },
        }
    }

    /// Redo in the editor: with an undone change to go forward to, it
    /// becomes the scene, the scene it replaces can be undone again, the
    /// selection is cleared and the status says so; with none, only the
    /// status changes.
    pub fn redo_scene(&mut self)
        ensures
            ({
                let (out, undo, redo) = spec_redo(
                    old(self).history.undo_stack@,
                    old(self).history.redo_stack@,
                    old(self).scene,
                );
                &&& final(self).history.undo_stack@ == undo
                &&& final(self).history.redo_stack@ == redo
                &&& out is Ok ==> final(self).scene == out->Ok_0 && final(self).selection@ == (
                    None::<Seq<char>>,
                    Seq::<Seq<char>>::empty(),
                ) && final(self).status_msg@ == "↷ Refazer aplicado."@
                &&& out is Err ==> final(self).scene == old(self).scene && final(self).selection@
                    == old(self).selection@ && final(self).status_msg@ == "Nada para refazer."@
            }),
    {
        match self.history.redo_stack.pop() {
            Some(next) => {
                let mut replaced = next;
                std::mem::swap(&mut self.scene, &mut replaced);
                self.history.undo_stack.push(replaced);
                self.selection.clear_entity_selection();
                self.status_msg = String::from_str("↷ Refazer aplicado.");
            },
            None => {
                self.status_msg = String::from_str("Nada para refazer.");
            },
        }
    }
}

/// Undo from stacks `undo` and `redo` with scene `current`: what comes
/// out, and the two stacks after.
pub open spec fn spec_undo<S>(undo: Seq<S>, redo: Seq<S>, current: S) -> (Result<S, S>, Seq<S>, Seq<S>) {
    if undo.len() == 0 {
        (Err(current), undo, redo)
    } else {
        (Ok(undo.last()), undo.drop_last(), redo.push(current))
    }
}

/// Redo from stacks `undo` and `redo` with scene `current`.
pub open spec fn spec_redo<S>(undo: Seq<S>, redo: Seq<S>, current: S) -> (Result<S, S>, Seq<S>, Seq<S>) {
    if redo.len() == 0 {
        (Err(current), undo, redo)
    } else {
        (Ok(redo.last()), undo.push(current), redo.drop_last())
    }
}

/// Undo and then redo give back the scene that was current, with both
/// stacks as they were; redo and then undo likewise.
pub proof fn law_undo_then_redo_restores<S>(undo: Seq<S>, redo: Seq<S>, current: S)
    ensures
        undo.len() > 0 ==> ({
            let u = spec_undo(undo, redo, current);
            u.0 is Ok && spec_redo(u.1, u.2, u.0->Ok_0) == (Ok::<S, S>(current), undo, redo)
        }),
        redo.len() > 0 ==> ({
            let r = spec_redo(undo, redo, current);
            r.0 is Ok && spec_undo(r.1, r.2, r.0->Ok_0) == (Ok::<S, S>(current), undo, redo)
        }),
{
    if undo.len() > 0 {
        assert(undo.drop_last().push(undo.last()) =~= undo);
        assert(redo.push(current).drop_last() =~= redo);
    }
    if redo.len() > 0 {
        assert(redo.drop_last().push(redo.last()) =~= redo);
        assert(undo.push(current).drop_last() =~= undo);
    }
}

/// After a snapshot is remembered, undo gives that snapshot back; and
/// a history of at most [`UNDO_LIMIT`] snapshots stays within that limit.
pub proof fn law_push_then_undo<S>(undo: Seq<S>, snapshot: S, current: S)
    ensures
        spec_undo(pushed_undo(undo, snapshot), Seq::<S>::empty(), current).0 == Ok::<S, S>(snapshot),
        pushed_undo(undo, snapshot).len() <= if undo.len() < UNDO_LIMIT {
            UNDO_LIMIT as int
        } else {
            undo.len() as int
        },
{
    let p = undo.push(snapshot);
    if p.len() > UNDO_LIMIT {
        assert(p.remove(0).last() == p.last());
    }
}

// ── scene tabs ───────────────────────────────────────────────

/// The open scene documents and which one is active.
#[derive(Debug, Clone)]
pub struct SceneTabs<D> {
    pub open_scenes: Vec<D>,
    pub active_scene_index: usize,
}

impl<D> SceneTabs<D> {
    /// Opens `doc` in a new last tab and makes it the active one (a new
    /// scene, or a scene file not open yet).
    pub fn push_scene_tab(&mut self, doc: D)
        requires
            old(self).open_scenes.len() < usize::MAX,
        ensures
            final(self).open_scenes@ == old(self).open_scenes@.push(doc),
            final(self).active_scene_index == old(self).open_scenes.len(),
    {
        self.open_scenes.push(doc);
        self.active_scene_index = self.open_scenes.len() - 1;
    }

    /// Stores `doc`, the scene being edited, in the active tab, when there
    /// is one.
    pub fn sync_active_scene_document(&mut self, doc: D)
        ensures
            final(self).active_scene_index == old(self).active_scene_index,
            final(self).open_scenes@ == if old(self).active_scene_index < old(self).open_scenes.len() {
                old(self).open_scenes@.update(old(self).active_scene_index as int, doc)
            } else {
                old(self).open_scenes@
            },
    {
        if self.active_scene_index < self.open_scenes.len() {
            self.open_scenes.set(self.active_scene_index, doc);
        }
    }

    /// Makes tab `index` the active one; `false`, with nothing changed,
    /// when there is no such tab.
    pub fn activate_scene_tab(&mut self, index: usize) -> (r: bool)
        ensures
            r == (index < old(self).open_scenes.len()),
            final(self).open_scenes@ == old(self).open_scenes@,
            final(self).active_scene_index == if r {
                index
            } else {
                old(self).active_scene_index
            },
    {
        if index >= self.open_scenes.len() {
            return false;
        }
        self.active_scene_index = index;
        true
    }

    /// Closes tab `index`, unless it is the last tab or there is no such
    /// tab (then `false` and nothing changes). The active index stays,
    /// moved back onto the last tab when it is now past the end, so an
    /// active tab that was open stays on an open tab.
    pub fn close_scene_tab(&mut self, index: usize) -> (r: bool)
        ensures
            r == (old(self).open_scenes.len() > 1 && index < old(self).open_scenes.len()),
            !r ==> final(self).open_scenes@ == old(self).open_scenes@ && final(self).active_scene_index
                == old(self).active_scene_index,
            old(self).active_scene_index < old(self).open_scenes.len() ==> final(self).active_scene_index
                < final(self).open_scenes.len(),
            r ==> {
                &&& final(self).open_scenes@ == old(self).open_scenes@.remove(index as int)
                &&& final(self).active_scene_index == if old(self).active_scene_index
                    < final(self).open_scenes.len() {
                    old(self).active_scene_index as int
                } else {
                    final(self).open_scenes.len() - 1
                }
            },
    {
        if self.open_scenes.len() <= 1 || index >= self.open_scenes.len() {
            return false;
        }
        self.open_scenes.remove(index);
        let last = self.open_scenes.len() - 1;
        if self.active_scene_index > last {
            self.active_scene_index = last;
        }
        true
    }
}

// ── the editor with its tabs ─────────────────────────────────

/// An open scene: the scene and the file it was read from or saved to.
#[derive(Debug)]
pub struct OpenSceneDocument<S> {
    pub scene: S,
    pub file_path: Option<String>,
}

/// The open documents as they stand: the active tab holds the scene being
/// edited.
pub open spec fn live_documents<S>(docs: Seq<OpenSceneDocument<S>>, active: int, scene: S) -> Seq<
    OpenSceneDocument<S>,
> {
    if 0 <= active < docs.len() {
        docs.update(active, OpenSceneDocument { scene: scene, file_path: docs[active].file_path })
    } else {
        docs
    }
}

/// The scene editor with its tabs. The scene of the active tab is the one
/// being edited, `editor.scene`; the active tab's entry in the list keeps
/// a scene only until that tab is left.
#[derive(Debug)]
pub struct SceneWorkspace<S> {
    pub editor: SceneEditor<S>,
    pub tabs: SceneTabs<OpenSceneDocument<S>>,
}

impl<S> SceneWorkspace<S> {
    /// The open documents, the active one with the scene being edited.
    pub open spec fn documents(&self) -> Seq<OpenSceneDocument<S>> {
        live_documents(self.tabs.open_scenes@, self.tabs.active_scene_index as int, self.editor.scene)
    }

    /// Puts the edited scene into tab `i` and takes the scene that tab held
    /// into the editor.
    fn exchange_scene(&mut self, i: usize)
        requires
            i < old(self).tabs.open_scenes.len(),
        ensures
            final(self).tabs.open_scenes@ == old(self).tabs.open_scenes@.update(
                i as int,
                OpenSceneDocument {
                    scene: old(self).editor.scene,
                    file_path: old(self).tabs.open_scenes@[i as int].file_path,
                },
            ),
            final(self).editor.scene == old(self).tabs.open_scenes@[i as int].scene,
            final(self).tabs.active_scene_index == old(self).tabs.active_scene_index,
            final(self).editor.history == old(self).editor.history,
            final(self).editor.selection == old(self).editor.selection,
            final(self).editor.status_msg == old(self).editor.status_msg,
    {
        let mut doc = self.tabs.open_scenes.remove(i);
        std::mem::swap(&mut doc.scene, &mut self.editor.scene);
        self.tabs.open_scenes.insert(i, doc);
        assert(self.tabs.open_scenes@ =~= old(self).tabs.open_scenes@.update(
            i as int,
            OpenSceneDocument {
                scene: old(self).editor.scene,
                file_path: old(self).tabs.open_scenes@[i as int].file_path,
            },
        ));
    }

    /// Switches to tab `index`: the edited scene is kept in its tab, the
    /// scene of tab `index` is edited, the selection is cleared and the
    /// status names the scene (`scene_name` tells its name). `false`, with
    /// nothing changed, when there is no such tab.
    pub fn activate_scene_tab<F: Fn(&S) -> String>(&mut self, index: usize, scene_name: F) -> (r: bool)
        requires
            forall|s: &S| #[trigger] scene_name.requires((s,)),
        ensures
            r == (index < old(self).tabs.open_scenes.len()),
            final(self).documents() == old(self).documents(),
            final(self).editor.history == old(self).editor.history,
            !r ==> final(self).tabs.active_scene_index == old(self).tabs.active_scene_index
                && final(self).editor.scene == old(self).editor.scene && final(self).editor.selection
                == old(self).editor.selection && final(self).editor.status_msg == old(self).editor.status_msg,
            r ==> final(self).tabs.active_scene_index == index && final(self).editor.scene
                == old(self).documents()[index as int].scene && final(self).editor.selection@ == (
                None::<Seq<char>>,
                Seq::<Seq<char>>::empty(),
            ) && exists|name: String|
                #![trigger scene_name.ensures((&final(self).editor.scene,), name)]
                scene_name.ensures((&final(self).editor.scene,), name) && final(self).editor.status_msg@
                    == "Cena ativa: "@ + name@,
    {
        if index >= self.tabs.open_scenes.len() {
            return false;
        }
        let ghost live = self.documents();
        let active = self.tabs.active_scene_index;
        if active < self.tabs.open_scenes.len() {
            self.exchange_scene(active);
        }
        assert(self.tabs.open_scenes@ == live);
        self.tabs.active_scene_index = index;
        self.exchange_scene(index);
        assert(self.documents() =~= live);
        self.editor.selection.clear_entity_selection();
        let name = scene_name(&self.editor.scene);
        let mut status = String::from_str("Cena ativa: ");
        status.append(name.as_str());
        self.editor.status_msg = status;
        true
    }

    /// Closes tab `index`, unless it is the last tab or there is no such
    /// tab (then `false` and nothing changes): the edited scene is kept in
    /// its tab, the tab goes, the active index stays (moved back onto the
    /// last tab when it is past the end), the scene of the tab now active
    /// is edited and the selection is cleared.
    pub fn close_scene_tab(&mut self, index: usize) -> (r: bool)
        ensures
            r == (old(self).tabs.open_scenes.len() > 1 && index < old(self).tabs.open_scenes.len()),
            final(self).editor.history == old(self).editor.history,
            final(self).editor.status_msg == old(self).editor.status_msg,
            !r ==> final(self).documents() == old(self).documents() && final(self).tabs.active_scene_index
                == old(self).tabs.active_scene_index && final(self).editor.scene == old(self).editor.scene
                && final(self).editor.selection == old(self).editor.selection,
            r ==> ({
                let docs = old(self).documents().remove(index as int);
                let next = if old(self).tabs.active_scene_index < docs.len() {
                    old(self).tabs.active_scene_index as int
                } else {
                    docs.len() - 1
                };
                &&& final(self).documents() == docs
                &&& final(self).tabs.active_scene_index == next
                &&& final(self).editor.scene == docs[next].scene
                &&& final(self).editor.selection@ == (None::<Seq<char>>, Seq::<Seq<char>>::empty())
            }),
    {
        let len = self.tabs.open_scenes.len();
        if len <= 1 || index >= len {
            return false;
        }
        let ghost live = self.documents();
        let active = self.tabs.active_scene_index;
        if active < len {
            self.exchange_scene(active);
        }
        assert(self.tabs.open_scenes@ == live);
        self.tabs.open_scenes.remove(index);
        let last = self.tabs.open_scenes.len() - 1;
        let next = if active > last {
            last
        } else {
            active
        };
        self.tabs.active_scene_index = next;
        let ghost docs = self.tabs.open_scenes@;
        self.exchange_scene(next);
        assert(self.documents() =~= docs);
        self.editor.selection.clear_entity_selection();
        true
    }
}

/// Every non-overlapping `.scene` removed from `s`, left to right.
pub open spec fn without_scene_marker(s: Seq<char>) -> Seq<char>
    decreases s.len(),
{
    if s.len() < 6 {
        s
    } else if s.take(6) == ".scene"@ {
        without_scene_marker(s.skip(6))
    } else {
        seq![s[0]] + without_scene_marker(s.skip(1))
    }
}

/// The name of a scene tab: the stem of its file name with `.scene`
/// removed, or the scene's own name when that is empty or the tab has no
/// file.
pub open spec fn spec_tab_name(file_name: Option<Seq<char>>, scene_name: Seq<char>) -> Seq<char> {
    match file_name {
        Some(f) => match file_stem_of(f) {
            Some(stem) => if without_scene_marker(stem).len() > 0 {
                without_scene_marker(stem)
            } else {
                scene_name
            },
            None => scene_name,
        },
        None => scene_name,
    }
}

fn without_scene_marker_chars(s: &Vec<char>) -> (r: Vec<char>)
    ensures
        r@ == without_scene_marker(s@),
{
    proof {
        reveal_strlit(".scene");
    }
    let marker = chars_of(".scene");
    let mut out: Vec<char> = Vec::new();
    let mut i: usize = 0;
    assert(s@.skip(0) =~= s@);
    while i < s.len()
        invariant
            i <= s.len(),
            marker@ == ".scene"@,
            out@ + without_scene_marker(s@.skip(i as int)) == without_scene_marker(s@),
        decreases s.len() - i,
    {
        let ghost rest = s@.skip(i as int);
        if s.len() - i >= 6 && chars_eq(&sub_chars(s, i, i + 6), &marker) {
            assert(rest.take(6) =~= s@.subrange(i as int, i + 6));
            assert(rest.skip(6) =~= s@.skip(i + 6));
            i += 6;
        } else {
            if s.len() - i >= 6 {
                assert(rest.take(6) =~= s@.subrange(i as int, i + 6));
                assert(rest.skip(1) =~= s@.skip(i + 1));
                assert(out@.push(s[i as int]) + without_scene_marker(s@.skip(i + 1)) =~= out@ + (seq![rest[0]]
                    + without_scene_marker(rest.skip(1))));
                out.push(s[i]);
                i += 1;
            } else {
                assert(without_scene_marker(rest) == rest);
                let tail = sub_chars(s, i, s.len());
                assert(tail@ =~= rest);
                let mut j: usize = 0;
                while j < tail.len()
                    invariant
                        j <= tail.len(),
                        out@ + tail@.skip(j as int) == without_scene_marker(s@),
                    decreases tail.len() - j,
                {
                    assert(tail@.skip(j as int) =~= seq![tail@[j as int]] + tail@.skip(j + 1));
                    out.push(tail[j]);
                    j += 1;
                }
                assert(tail@.skip(j as int) =~= Seq::<char>::empty());
                assert(out@ =~= without_scene_marker(s@));
                return out;
            }
        }
    }
    assert(s@.skip(i as int) =~= Seq::<char>::empty());
    assert(out@ =~= without_scene_marker(s@));
    out
}

/// The name a scene tab shows, from its file name, if it has a file.
pub fn scene_tab_name(file_name: Option<&str>, scene_name: &str) -> (r: String)
    ensures
        r@ == spec_tab_name(
            match file_name {
                Some(f) => Some(f@),
                None => None,
            },
            scene_name@,
        ),
{
    match file_name {
        Some(f) => match file_stem_chars(&chars_of(f)) {
            Some(stem) => {
                let name = without_scene_marker_chars(&stem);
                if name.len() > 0 {
                    string_of(&name)
                } else {
                    String::from_str(scene_name)
                }
            },
            None => String::from_str(scene_name),
        },
        None => String::from_str(scene_name),
    }
}

/// A path compared as the editor compares scene paths: `\` as `/`, ASCII
/// letters in lower case.
pub open spec fn path_key(p: Seq<char>) -> Seq<char> {
    lower_seq(replace_char(p, '\\', '/'))
}

pub open spec fn tab_has_path(tab_path: Option<String>, path: Seq<char>) -> bool {
    tab_path matches Some(p) && path_key(p@) == path_key(path)
}

/// The first open tab whose file is `path` (see [`path_key`]), if any.
pub fn find_tab_by_path(tab_paths: &[Option<String>], path: &str) -> (r: Option<usize>)
    ensures
        match r {
            Some(k) => k < tab_paths@.len() && tab_has_path(tab_paths@[k as int], path@) && forall|j: int|
                0 <= j < k ==> !tab_has_path(#[trigger] tab_paths@[j], path@),
            None => forall|j: int| 0 <= j < tab_paths@.len() ==> !tab_has_path(#[trigger] tab_paths@[j], path@),
        },
{
    let key = to_ascii_lower_chars(&replace_char_chars(&chars_of(path), '\\', '/'));
    for i in 0..tab_paths.len()
        invariant
            key@ == path_key(path@),
            forall|j: int| 0 <= j < i ==> !tab_has_path(#[trigger] tab_paths@[j], path@),
    {
        match &tab_paths[i] {
            Some(p) => {
                let k = to_ascii_lower_chars(&replace_char_chars(&chars_of(p.as_str()), '\\', '/'));
                if chars_eq(&k, &key) {
                    return Some(i);
                }
            },
            None => {},
        }
    }
    None
}

// ── delete and rename requests ───────────────────────────────

/// The mathematical value of a [`DeleteTarget`]: the entity ids or the
/// asset path, and the label the confirmation shows.
pub enum DeleteModel {
    Entities(Seq<Seq<char>>, Seq<char>),
    Asset(Seq<char>, Seq<char>),
}

pub open spec fn delete_view(t: DeleteTarget) -> DeleteModel {
    match t {
        DeleteTarget::Entities { ids, label } => DeleteModel::Entities(string_views(ids@), label@),
        DeleteTarget::Asset { path, label } => DeleteModel::Asset(path@, label@),
    }
}

/// The name of the entity with the given id, `Entidade` when none has it.
pub open spec fn entity_name_or_default(entities: Seq<EntityNode>, id: Seq<char>) -> Seq<char> {
    match find_in(entities, id) {
        Some(e) => e.name@,
        None => "Entidade"@,
    }
}

pub open spec fn entity_label(name: Seq<char>) -> Seq<char> {
    "a entidade '"@ + name + "'"@
}

/// What a delete request asks to confirm: the selected entities (one is
/// named, several are counted), else the primary entity, else the
/// selected asset (named by its file name, `asset` when it has none);
/// with nothing selected, the message saying so.
pub open spec fn spec_delete_request(
    selection: (Option<Seq<char>>, Seq<Seq<char>>),
    entities: Seq<EntityNode>,
    asset: Option<(Seq<char>, Option<Seq<char>>)>,
) -> Result<DeleteModel, Seq<char>> {
    let ids = selection.1;
    if ids.len() > 0 {
        let label = if ids.len() == 1 {
            entity_label(entity_name_or_default(entities, ids[0]))
        } else {
            decimal(ids.len()) + " entidades selecionadas"@
        };
        Ok(DeleteModel::Entities(ids, label))
    } else {
        match selection.0 {
            Some(id) => Ok(DeleteModel::Entities(seq![id], entity_label(entity_name_or_default(entities, id)))),
            None => match asset {
                Some((path, file_name)) => Ok(
                    DeleteModel::Asset(
                        path,
                        match file_name {
                            Some(f) => f,
                            None => "asset"@,
                        },
                    ),
                ),
                None => Err("Nada selecionado para deletar."@),
            },
        }
    }
}

fn entity_name_exec(entities: &[EntityNode], id: &str) -> (r: String)
    ensures
        r@ == entity_name_or_default(entities@, id@),
{
    match find_entity(entities, id) {
        Some(e) => String::from_str(e.name.as_str()),
        None => String::from_str("Entidade"),
    }
}

fn entity_label_exec(name: &String) -> (r: String)
    ensures
        r@ == entity_label(name@),
{
    let mut s = String::from_str("a entidade '");
    s.append(name.as_str());
    s.append("'");
    s
}

/// What deleting asks to confirm, given the selection, the scene's
/// entities and the selected asset (its path and file name), if any.
pub fn delete_request(selection: &EntitySelection, entities: &[EntityNode], asset: Option<(&str, Option<&str>)>) -> (r:
    Result<DeleteTarget, String>)
    ensures
        match r {
            Ok(t) => spec_delete_request(
                selection@,
                entities@,
                match asset {
                    Some((p, f)) => Some(
                        (
                            p@,
                            match f {
                                Some(x) => Some(x@),
                                None => None,
                            },
                        ),
                    ),
                    None => None,
                },
            ) == Ok::<DeleteModel, Seq<char>>(delete_view(t)),
            Err(m) => spec_delete_request(
                selection@,
                entities@,
                match asset {
                    Some((p, f)) => Some(
                        (
                            p@,
                            match f {
                                Some(x) => Some(x@),
                                None => None,
                            },
                        ),
                    ),
                    None => None,
                },
            ) == Err::<DeleteModel, Seq<char>>(m@),
        },
{
    let ids = &selection.selected_entity_ids;
    if ids.len() > 0 {
        let mut copied: Vec<String> = Vec::new();
        for i in 0..ids.len()
            invariant
                copied@.len() == i,
                string_views(copied@) == string_views(ids@).take(i as int),
        {
            let ghost before = copied@;
            let item = String::from_str(ids[i].as_str());
            copied.push(item);
            assert(copied@ == before.push(item));
            assert(string_views(copied@) =~= string_views(ids@).take(i + 1)) by {
                assert forall|k: int| 0 <= k < i + 1 implies #[trigger] string_views(copied@)[k] == string_views(ids@).take(
                    i + 1,
                )[k] by {
                    if k < i {
                        assert(copied@[k] == before[k]);
                        assert(string_views(before)[k] == string_views(ids@).take(i as int)[k]);
                    }
                }
            }
        }
        assert(string_views(ids@).take(ids.len() as int) =~= string_views(ids@));
        let label = if ids.len() == 1 {
            entity_label_exec(&entity_name_exec(entities, ids[0].as_str()))
        } else {
            let mut l = string_of(&decimal_chars(ids.len()));
            l.append(" entidades selecionadas");
            l
        };
        return Ok(DeleteTarget::Entities { ids: copied, label });
    }
    match &selection.selected_entity_id {
        Some(id) => {
            let label = entity_label_exec(&entity_name_exec(entities, id.as_str()));
            let mut one: Vec<String> = Vec::new();
            one.push(String::from_str(id.as_str()));
            assert(string_views(one@) =~= seq![id@]);
            Ok(DeleteTarget::Entities { ids: one, label })
        },
        None => match asset {
            Some((path, file_name)) => {
                let label = match file_name {
                    Some(f) => String::from_str(f),
                    None => String::from_str("asset"),
                };
                Ok(DeleteTarget::Asset { path: String::from_str(path), label })
            },
            None => Err(String::from_str("Nada selecionado para deletar.")),
        },
    }
}

/// What renaming the primary entity starts from: its id and current name
/// (`Entidade` when no entity has the id); nothing without a primary one.
pub fn rename_entity_request(selection: &EntitySelection, entities: &[EntityNode]) -> (r: Option<(String, String)>)
    ensures
        match selection@.0 {
            Some(id) => r matches Some((i, n)) && i@ == id && n@ == entity_name_or_default(entities@, id),
            None => r is None,
        },
{
    match &selection.selected_entity_id {
        Some(id) => Some((String::from_str(id.as_str()), entity_name_exec(entities, id.as_str()))),
        None => None,
    }
}

} // verus!
