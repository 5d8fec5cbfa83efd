//! Which scene the runtime plays and which change of scene waits for the
//! next frame. A scene is any value `S`; reading one from a file is left
//! to the caller, which hands over a loader.
use vstd::prelude::*;

verus! {

/// A change of scene waiting to be applied: a scene file to load, or a
/// scene given as it is (with the file it came from, if any).
#[derive(Debug, Clone)]
pub enum PendingSceneChange<S> {
    Path(String),
    Snapshot { scene: S, source_path: Option<String> },
}

/// The scene being played, the file it came from and the change waiting
/// to be applied.
#[derive(Debug, Clone)]
pub struct SceneManager<S> {
    pub current_scene: Option<S>,
    pub current_path: Option<String>,
    pub pending_scene_change: Option<PendingSceneChange<S>>,
}

impl<S> SceneManager<S> {
    /// No scene, no file, nothing waiting.
    pub fn new() -> (r: Self)
        ensures
            r.current_scene is None,
            r.current_path is None,
            r.pending_scene_change is None,
    {
        SceneManager { current_scene: None, current_path: None, pending_scene_change: None }
    }

    /// Plays the scene open in the editor, which comes from no file, and
    /// drops any waiting change.
    pub fn set_editor_scene(&mut self, scene: S)
        ensures
            final(self).current_scene == Some(scene),
            final(self).current_path is None,
            final(self).pending_scene_change is None,
    {
        self.current_scene = Some(scene);
        self.current_path = None;
        self.pending_scene_change = None;
    }

    /// Forgets the scene, its file and any waiting change.
    pub fn clear_runtime_scene(&mut self)
        ensures
            final(self).current_scene is None,
            final(self).current_path is None,
            final(self).pending_scene_change is None,
    {
        self.current_scene = None;
        self.current_path = None;
        self.pending_scene_change = None;
    }

    /// Plays `scene`, read from the file `path`, and drops any waiting
    /// change.
    pub fn finish_load(&mut self, scene: S, path: String)
        ensures
            final(self).current_scene == Some(scene),
            final(self).current_path == Some(path),
            final(self).pending_scene_change is None,
    {
        self.current_scene = Some(scene);
        self.current_path = Some(path);
        self.pending_scene_change = None;
    }

    /// Asks for the scene file `path` to be loaded next; a change asked for
    /// earlier is replaced.
    pub fn change_scene(&mut self, path: String)
        ensures
            final(self).pending_scene_change == Some(PendingSceneChange::<S>::Path(path)),
            final(self).current_scene == old(self).current_scene,
            final(self).current_path == old(self).current_path,
    {
        self.pending_scene_change = Some(PendingSceneChange::Path(path));
    }

    /// Asks for `scene` to be played next, as coming from `source_path`.
    pub fn change_scene_snapshot(&mut self, scene: S, source_path: Option<String>)
        ensures
            final(self).pending_scene_change == Some(PendingSceneChange::Snapshot { scene, source_path }),
            final(self).current_scene == old(self).current_scene,
            final(self).current_path == old(self).current_path,
    {
        self.pending_scene_change = Some(PendingSceneChange::Snapshot { scene, source_path });
    }

    /// Applies the waiting change, if any: a given scene is played at once;
    /// a scene file is read with `load`, and played when that succeeds.
    /// Returns whether a change was applied; a failed load is reported and
    /// the change is dropped, the playing scene kept.
    pub fn apply_pending_change<F: FnOnce(&String) -> Result<S, String>>(&mut self, load: F) -> (r: Result<bool, String>)
        requires
            forall|p: &String| #[trigger] load.requires((p,)),
        ensures
            final(self).pending_scene_change is None,
            match old(self).pending_scene_change {
                None => r == Ok::<bool, String>(false) && final(self).current_scene == old(self).current_scene
                    && final(self).current_path == old(self).current_path,
                Some(PendingSceneChange::Snapshot { scene, source_path }) => r == Ok::<bool, String>(true)
                    && final(self).current_scene == Some(scene) && final(self).current_path == source_path,
                Some(PendingSceneChange::Path(p)) => match r {
                    Ok(applied) => applied && exists|s: S|
                        #![trigger load.ensures((&p,), Ok::<S, String>(s))]
                        load.ensures((&p,), Ok::<S, String>(s)) && final(self).current_scene == Some(s)
                            && final(self).current_path == Some(p),
                    Err(e) => load.ensures((&p,), Err::<S, String>(e)) && final(self).current_scene == old(
                        self,
                    ).current_scene && final(self).current_path == old(self).current_path,
                },
            },
    {
        let change = self.pending_scene_change.take();
        match change {
            None => Ok(false),
            Some(PendingSceneChange::Snapshot { scene, source_path }) => {
                self.current_scene = Some(scene);
                self.current_path = source_path;
                Ok(true)
            },
            Some(PendingSceneChange::Path(path)) => {
                match load(&path) {
                    Ok(scene) => {
                        self.finish_load(scene, path);
                        Ok(true)
                    },
                    Err(e) => Err(e),
                }
            },
        }
    }

    /// Reads the scene file being played again with `load`; fails when the
    /// playing scene came from no file, or when `load` fails (then nothing
    /// changes).
    pub fn reload_scene<F: FnOnce(&String) -> Result<S, String>>(&mut self, load: F) -> (r: Result<(), String>)
        requires
            forall|p: &String| #[trigger] load.requires((p,)),
        ensures
            match old(self).current_path {
                None => *final(self) == *old(self) && (r matches Err(e) && e@
                    == "Cena atual não veio de arquivo salvo"@),
                Some(p) => match r {
                    Ok(_) => exists|s: S|
                        #![trigger load.ensures((&p,), Ok::<S, String>(s))]
                        load.ensures((&p,), Ok::<S, String>(s)) && final(self).current_scene == Some(s)
                            && final(self).current_path == Some(p) && final(self).pending_scene_change is None,
                    Err(e) => load.ensures((&p,), Err::<S, String>(e)) && *final(self) == *old(self),
                },
            },
    {
        let path = match &self.current_path {
            Some(p) => p.clone(),
            None => {
                return Err(String::from_str("Cena atual não veio de arquivo salvo"));
            },
        };
        match load(&path) {
            Ok(scene) => {
                self.finish_load(scene, path);
                Ok(())
            },
            Err(e) => Err(e),
        }
    }
}

} // verus!
