//! What the runtime remembers while a game runs: the persistent save data,
//! the session's temporary values, each script's temporary values, and the
//! game's flow, score and loading label. Starting, continuing and stopping
//! a game decide which of them survive.
use vstd::prelude::*;
use crate::runtime::{RuntimeGameFlow, RuntimeGameState};
use crate::save::{
    lookup, new_script_state, scope_remove, scope_set, scoped_lookup, scopes_view, script_state_wf, state_remove,
    state_set, SaveData, SaveValue, ScriptState,
};
use crate::store::KeyedStore;
use crate::text::{chars_of, opt_view, replace_char, replace_char_chars, string_of, trim, trim_chars};

verus! {

/// The runtime's memory of a game.
#[derive(Debug)]
pub struct RuntimeMemory {
    pub save_data: SaveData,
    pub session_state: KeyedStore<SaveValue>,
    pub script_state: ScriptState,
    pub game_state: RuntimeGameState,
}

impl RuntimeMemory {
    pub open spec fn wf(&self) -> bool {
        &&& self.save_data.wf()
        &&& self.session_state.wf()
        &&& script_state_wf(self.script_state)
    }

    /// Nothing remembered; editing.
    pub fn new() -> (r: Self)
        ensures
            r.wf(),
            r.save_data.entries@ == Map::<Seq<char>, SaveValue>::empty(),
            r.save_data.current_scene is None,
            r.session_state@ == Map::<Seq<char>, SaveValue>::empty(),
            scopes_view(r.script_state) == Map::<Seq<char>, Map<Seq<char>, SaveValue>>::empty(),
            r.game_state.flow == RuntimeGameFlow::Editing,
            r.game_state.score == 0,
            r.game_state.loading_label is None,
    {
        RuntimeMemory {
            save_data: SaveData::new(),
            session_state: KeyedStore::new(),
            script_state: new_script_state(),
            game_state: RuntimeGameState::new(),
        }
    }

    /// Forgets the session's temporary values.
    pub fn clear_session_state(&mut self)
        requires
            old(self).wf(),
        ensures
            final(self).wf(),
            final(self).session_state@ == Map::<Seq<char>, SaveValue>::empty(),
            final(self).save_data == old(self).save_data,
            final(self).script_state == old(self).script_state,
            final(self).game_state == old(self).game_state,
    {
        self.session_state.clear();
    }

    /// Forgets every script's temporary values.
    pub fn clear_script_state(&mut self)
        requires
            old(self).wf(),
        ensures
            final(self).wf(),
            scopes_view(final(self).script_state) == Map::<Seq<char>, Map<Seq<char>, SaveValue>>::empty(),
            final(self).save_data == old(self).save_data,
            final(self).session_state == old(self).session_state,
            final(self).game_state == old(self).game_state,
    {
        self.script_state.clear();
        assert(scopes_view(self.script_state) =~= Map::<Seq<char>, Map<Seq<char>, SaveValue>>::empty());
    }

    /// Starts a new game session: the temporary values, the score and the
    /// loading label are cleared; the save data is not touched.
    pub fn start_new_game_session(&mut self)
        requires
            old(self).wf(),
        ensures
            final(self).wf(),
            final(self).save_data == old(self).save_data,
            final(self).session_state@ == Map::<Seq<char>, SaveValue>::empty(),
            scopes_view(final(self).script_state) == Map::<Seq<char>, Map<Seq<char>, SaveValue>>::empty(),
            final(self).game_state.score == 0,
            final(self).game_state.loading_label is None,
            final(self).game_state.flow == old(self).game_state.flow,
    {
        self.clear_session_state();
        self.clear_script_state();
        self.game_state.score = 0;
        self.game_state.loading_label = None;
    }

    /// Continues a saved game: the save data becomes the one read from the
    /// save file; the session's and the scripts' temporary values are
    /// cleared.
    pub fn continue_with_save(&mut self, data: SaveData)
        requires
            old(self).wf(),
            data.wf(),
        ensures
            final(self).wf(),
            final(self).save_data == data,
            final(self).session_state@ == Map::<Seq<char>, SaveValue>::empty(),
            scopes_view(final(self).script_state) == Map::<Seq<char>, Map<Seq<char>, SaveValue>>::empty(),
            final(self).game_state == old(self).game_state,
    {
        self.save_data = data;
        self.clear_session_state();
        self.clear_script_state();
    }

    /// Takes the save data read from the save file; nothing else changes.
    pub fn load_save(&mut self, data: SaveData)
        requires
            old(self).wf(),
            data.wf(),
        ensures
            final(self).wf(),
            final(self).save_data == data,
            final(self).session_state == old(self).session_state,
            final(self).script_state == old(self).script_state,
            final(self).game_state == old(self).game_state,
    {
        self.save_data = data;
    }

    /// Forgets the save data, as when the save file is deleted.
    pub fn reset_save(&mut self)
        requires
            old(self).wf(),
        ensures
            final(self).wf(),
            final(self).save_data.entries@ == Map::<Seq<char>, SaveValue>::empty(),
            final(self).save_data.current_scene is None,
            final(self).save_data.version == 1,
            final(self).session_state == old(self).session_state,
            final(self).script_state == old(self).script_state,
            final(self).game_state == old(self).game_state,
    {
        self.save_data = SaveData::new();
    }

    /// Records, before saving, the scene the game is in: its path relative
    /// to the project (with `\` turned into `/`) when it came from a file,
    /// else its name when a scene is playing; otherwise nothing changes.
    pub fn record_scene_for_save(&mut self, relative_path: Option<&str>, scene_name: Option<&str>)
        requires
            old(self).wf(),
        ensures
            final(self).wf(),
            final(self).save_data.entries == old(self).save_data.entries,
            final(self).save_data.version == old(self).save_data.version,
            opt_view(final(self).save_data.current_scene) == match (relative_path, scene_name) {
                (Some(p), _) => Some(replace_char(p@, '\\', '/')),
                (None, Some(n)) => Some(n@),
                (None, None) => opt_view(old(self).save_data.current_scene),
            },
            final(self).session_state == old(self).session_state,
            final(self).script_state == old(self).script_state,
            final(self).game_state == old(self).game_state,
    {
        match (relative_path, scene_name) {
            (Some(p), _) => {
                self.save_data.current_scene = Some(string_of(&replace_char_chars(&chars_of(p), '\\', '/')));
            },
            (None, Some(n)) => {
                self.save_data.current_scene = Some(String::from_str(n));
            },
            (None, None) => {},
        }
    }

    /// Stops the game: the temporary values are cleared and the game state
    /// is back to editing with no score; the save data stays.
    pub fn stop(&mut self)
        requires
            old(self).wf(),
        ensures
            final(self).wf(),
            final(self).save_data == old(self).save_data,
            final(self).session_state@ == Map::<Seq<char>, SaveValue>::empty(),
            scopes_view(final(self).script_state) == Map::<Seq<char>, Map<Seq<char>, SaveValue>>::empty(),
            final(self).game_state.flow == RuntimeGameFlow::Editing,
            final(self).game_state.score == 0,
            final(self).game_state.loading_label is None,
    {
        self.game_state = RuntimeGameState::new();
        self.clear_session_state();
        self.clear_script_state();
    }

    /// Marks the game as loading another scene, shown by `label`.
    pub fn queue_scene_change(&mut self, label: String)
        ensures
            final(self).game_state.flow == RuntimeGameFlow::Loading,
            final(self).game_state.loading_label == Some(label),
            final(self).game_state.score == old(self).game_state.score,
            final(self).save_data == old(self).save_data,
            final(self).session_state == old(self).session_state,
            final(self).script_state == old(self).script_state,
    {
        self.game_state.flow = RuntimeGameFlow::Loading;
        self.game_state.loading_label = Some(label);
    }

    /// Marks the game as loading a scene held in memory: shown by `label`
    /// when it holds more than white space, else by the scene's name.
    pub fn queue_scene_change_snapshot(&mut self, label: Option<String>, scene_name: &str)
        ensures
            final(self).game_state.flow == RuntimeGameFlow::Loading,
            final(self).game_state.loading_label matches Some(l) && l@ == (match label {
                Some(x) => if trim(x@).len() > 0 {
                    x@
                } else {
                    scene_name@
                },
                None => scene_name@,
            }),
            final(self).game_state.score == old(self).game_state.score,
            final(self).save_data == old(self).save_data,
            final(self).session_state == old(self).session_state,
            final(self).script_state == old(self).script_state,
    {
        let shown = match label {
            Some(x) => if trim_chars(&chars_of(x.as_str())).len() > 0 {
                x
            } else {
                String::from_str(scene_name)
            },
            None => String::from_str(scene_name),
        };
        self.game_state.flow = RuntimeGameFlow::Loading;
        self.game_state.loading_label = Some(shown);
    }

    pub fn session_get(&self, key: &str) -> (r: Option<&SaveValue>)
        requires
            self.wf(),
        ensures
            r == (if self.session_state@.dom().contains(key@) {
                Some(&self.session_state@[key@])
            } else {
                None
            }),
    {
        self.session_state.get(key)
    }

    pub fn session_set(&mut self, key: &str, value: SaveValue)
        requires
            old(self).wf(),
        ensures
            final(self).wf(),
            final(self).session_state@ == old(self).session_state@.insert(key@, value),
            final(self).save_data == old(self).save_data,
            final(self).script_state == old(self).script_state,
    {
        self.session_state.insert(String::from_str(key), value);
    }

    pub fn session_has(&self, key: &str) -> (r: bool)
        requires
            self.wf(),
        ensures
            r == self.session_state@.dom().contains(key@),
    {
        self.session_state.contains_key(key)
    }

    pub fn session_remove(&mut self, key: &str) -> (r: Option<SaveValue>)
        requires
            old(self).wf(),
        ensures
            final(self).wf(),
            final(self).session_state@ == old(self).session_state@.remove(key@),
            r == lookup(old(self).session_state@, key@),
            final(self).save_data == old(self).save_data,
            final(self).script_state == old(self).script_state,
    {
        self.session_state.remove(key)
    }

    /// Forgets the temporary values of one script scope.
    pub fn clear_script_state_for_entity(&mut self, entity_id: &str)
        requires
            old(self).wf(),
        ensures
            final(self).wf(),
            scopes_view(final(self).script_state) == scopes_view(old(self).script_state).remove(entity_id@),
            final(self).save_data == old(self).save_data,
            final(self).session_state == old(self).session_state,
    {
        let ghost before = scopes_view(self.script_state);
        let _ = self.script_state.remove(entity_id);
        assert(scopes_view(self.script_state) =~= before.remove(entity_id@));
    }

    pub fn script_get(&self, entity_id: &str, key: &str) -> (r: Option<&SaveValue>)
        requires
            self.wf(),
        ensures
            match r {
                Some(v) => scoped_lookup(scopes_view(self.script_state), entity_id@, key@) == Some(*v),
                None => scoped_lookup(scopes_view(self.script_state), entity_id@, key@) is None,
            },
    {
        match self.script_state.get(entity_id) {
            Some(inner) => inner.get(key),
            None => None,
        }
    }

    pub fn script_set(&mut self, entity_id: &str, key: &str, value: SaveValue)
        requires
            old(self).wf(),
        ensures
            final(self).wf(),
            scopes_view(final(self).script_state) == scope_set(scopes_view(old(self).script_state), entity_id@, key@, value),
            final(self).save_data == old(self).save_data,
            final(self).session_state == old(self).session_state,
    {
        state_set(&mut self.script_state, entity_id, String::from_str(key), value);
    }

    pub fn script_has(&self, entity_id: &str, key: &str) -> (r: bool)
        requires
            self.wf(),
        ensures
            r == scoped_lookup(scopes_view(self.script_state), entity_id@, key@) is Some,
    {
        match self.script_state.get(entity_id) {
            Some(inner) => inner.contains_key(key),
            None => false,
        }
    }

    /// Takes out a script's value; a scope left empty is dropped.
    pub fn script_remove(&mut self, entity_id: &str, key: &str) -> (r: Option<SaveValue>)
        requires
            old(self).wf(),
        ensures
            final(self).wf(),
            r == scoped_lookup(scopes_view(old(self).script_state), entity_id@, key@),
            scopes_view(final(self).script_state) == scope_remove(scopes_view(old(self).script_state), entity_id@, key@),
            final(self).save_data == old(self).save_data,
            final(self).session_state == old(self).session_state,
    {
        let k = String::from_str(key);
        state_remove(&mut self.script_state, entity_id, &k)
    }
}

} // verus!
