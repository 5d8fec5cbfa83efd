use rs2br_engine::animator::{AnimationClip, AnimationState, Animator, DEFAULT_FPS_BITS};
use rs2br_engine::store::KeyedStore;

fn empty_animator() -> Animator {
    Animator {
        states: KeyedStore::new(),
        clips: KeyedStore::new(),
        current: String::new(),
        current_state: String::new(),
        default_state: String::new(),
        queued_state: String::new(),
        prev_clip: String::new(),
        looped: false,
        state_mode: false,
    }
}

fn state(clip: &str, next: &str) -> AnimationState {
    AnimationState {
        clip: clip.to_string(),
        looped: true,
        interruptible: true,
        next_state: next.to_string(),
    }
}

fn clip(frames: &[&str]) -> AnimationClip {
    AnimationClip {
        frames: frames.iter().map(|f| f.to_string()).collect(),
        fps_bits: 12.0f32.to_bits(),
    }
}

/// idle -> run -> idle, with clips of the same names, `run` playing.
fn idle_run_animator() -> Animator {
    let mut a = empty_animator();
    a.states.insert("idle".to_string(), state("idle", "run"));
    a.states.insert("run".to_string(), state("run", "idle"));
    a.clips.insert("idle".to_string(), clip(&["idle_0.png"]));
    a.clips.insert("run".to_string(), clip(&["run_0.png", "run_1.png"]));
    a.current = "run".to_string();
    a.current_state = "run".to_string();
    a.default_state = "idle".to_string();
    a.queued_state = "run".to_string();
    a.prev_clip = "run".to_string();
    a
}

#[test]
fn default_clip_speed_is_eight_fps() {
    assert_eq!(f32::from_bits(DEFAULT_FPS_BITS), 8.0);
    let c = AnimationClip::new_empty();
    assert!(c.frames.is_empty());
    assert_eq!(c.fps_bits, DEFAULT_FPS_BITS);
}

#[test]
fn first_state_is_idle_and_new_states_are_numbered() {
    let mut a = empty_animator();
    let edit = a.create_first_state();
    assert_eq!(edit.status, "✅ Primeiro estado criado.");
    assert_eq!(edit.selected.as_deref(), Some("idle"));
    assert_eq!(a.current_state, "idle");
    assert_eq!(a.default_state, "idle");
    assert!(a.state_mode);
    assert_eq!(a.states.get("idle").unwrap().clip, "idle");
    assert_eq!(a.clips.get("idle").unwrap().fps_bits, DEFAULT_FPS_BITS);

    let edit = a.create_state();
    assert_eq!(edit.selected.as_deref(), Some("novo"));
    assert_eq!(edit.status, "✅ Estado 'novo' criado.");
    assert_eq!(a.create_state().selected.as_deref(), Some("novo_1"));
    assert_eq!(a.create_state().selected.as_deref(), Some("novo_2"));
    assert_eq!(a.current_state, "novo_2");
    let s = a.states.get("novo_1").unwrap();
    assert_eq!(s.clip, "novo_1");
    assert!(s.looped && s.interruptible);
    assert!(s.next_state.is_empty());
    assert!(a.clips.contains_key("novo_2"));
    assert_eq!(a.unique_state_name("novo"), "novo_3");
    assert_eq!(a.unique_state_name("jump"), "jump");
}

#[test]
fn state_names_are_listed_in_text_order() {
    let mut a = idle_run_animator();
    a.states.insert("attack".to_string(), state("attack", ""));
    assert_eq!(a.sorted_state_names(), vec!["attack", "idle", "run"]);
    assert_eq!(a.sorted_clip_names(), vec!["idle", "run"]);
}

#[test]
fn preferred_state_goes_playing_then_default_then_first() {
    let mut a = idle_run_animator();
    let names = vec!["idle".to_string(), "run".to_string()];
    assert_eq!(a.preferred_state_name(&names), "run");
    a.current_state = "  ".to_string();
    assert_eq!(a.preferred_state_name(&names), "idle");
    a.default_state = String::new();
    assert_eq!(a.preferred_state_name(&names), "idle");
    assert_eq!(a.preferred_state_name(&[]), "");
}

#[test]
fn playing_a_state_plays_its_clip() {
    let mut a = idle_run_animator();
    a.states.insert("jump".to_string(), AnimationState { looped: false, ..state("jump_clip", "") });
    a.looped = true;
    a.play_state("jump");
    assert_eq!(a.current_state, "jump");
    assert_eq!(a.current, "jump_clip");
    assert!(!a.looped);
    a.play_state("missing");
    assert_eq!(a.current_state, "missing");
    assert_eq!(a.current, "jump_clip");
}

#[test]
fn links_between_states_are_set_and_cleared() {
    let mut a = idle_run_animator();
    a.set_next_state("idle", "");
    assert_eq!(a.states.get("idle").unwrap().next_state, "");
    a.set_next_state("idle", "run");
    assert_eq!(a.states.get("idle").unwrap().next_state, "run");
    a.set_next_state("missing", "run");
    assert!(!a.states.contains_key("missing"));
}

#[test]
fn states_are_made_from_clips() {
    let mut a = empty_animator();
    a.clips.insert("attack".to_string(), clip(&[]));
    a.clips.insert("walk".to_string(), clip(&[]));
    a.states.insert("walk".to_string(), state("walk_custom", ""));
    a.sync_states_from_clips();
    assert!(a.state_mode);
    let attack = a.states.get("attack").unwrap();
    assert_eq!(attack.clip, "attack");
    assert!(!attack.looped && !attack.interruptible);
    assert_eq!(attack.next_state, "idle");
    assert_eq!(a.states.get("walk").unwrap().clip, "walk_custom");
    assert_eq!(a.states.len(), 2);
}

#[test]
fn binding_a_clip_makes_the_clip_and_the_state() {
    let mut a = idle_run_animator();
    a.bind_clip("idle", "blink");
    assert_eq!(a.states.get("idle").unwrap().clip, "blink");
    assert_eq!(a.states.get("idle").unwrap().next_state, "run");
    assert!(a.clips.contains_key("blink"));
    assert_eq!(a.current, "blink");
    a.bind_clip("fall", "run");
    let fall = a.states.get("fall").unwrap();
    assert_eq!(fall.clip, "run");
    assert!(!fall.looped && !fall.interruptible);
    assert_eq!(a.clips.get("run").unwrap().frames.len(), 2);
}

#[test]
fn appended_frames_skip_those_already_there() {
    let mut a = idle_run_animator();
    let msg = a.append_frames("run", vec!["run_1.png".to_string(), "run_2.png".to_string(), "run_2.png".to_string()]);
    assert_eq!(msg, "✅ 3 frames adicionados ao clip 'run'.");
    assert_eq!(a.clips.get("run").unwrap().frames, vec!["run_0.png", "run_1.png", "run_2.png"]);
    let msg = a.append_frames("new", vec!["a.png".to_string()]);
    assert_eq!(msg, "✅ 1 frame adicionado ao clip 'new'.");
    assert_eq!(a.clips.get("new").unwrap().fps_bits, DEFAULT_FPS_BITS);
    let msg = a.append_frames("run", vec![]);
    assert_eq!(msg, "❌ Nenhum asset de imagem válido foi encontrado para adicionar.");
}

#[test]
fn frames_are_moved_removed_and_cleared() {
    let mut a = idle_run_animator();
    a.append_frames("run", vec!["run_2.png".to_string()]);
    a.move_frame("run", 0, 2);
    assert_eq!(a.clips.get("run").unwrap().frames, vec!["run_1.png", "run_2.png", "run_0.png"]);
    a.move_frame("run", 0, 7);
    assert_eq!(a.clips.get("run").unwrap().frames, vec!["run_1.png", "run_2.png", "run_0.png"]);
    a.remove_frame("run", 1);
    assert_eq!(a.clips.get("run").unwrap().frames, vec!["run_1.png", "run_0.png"]);
    a.remove_frame("run", 5);
    assert_eq!(a.clips.get("run").unwrap().frames.len(), 2);
    assert_eq!(a.clear_frames("run"), "✅ Frames do clip 'run' foram limpos.");
    assert!(a.clips.get("run").unwrap().frames.is_empty());
    assert_eq!(a.clips.get("run").unwrap().fps_bits, 12.0f32.to_bits());
    assert_eq!(a.clear_frames("run"), "ℹ O clip 'run' já está sem frames.");
    assert_eq!(a.clear_frames("ghost"), "ℹ O clip 'ghost' já está sem frames.");
    assert!(!a.clips.contains_key("ghost"));
}

#[test]
fn deleting_a_state_cuts_links_and_drops_its_unused_clip() {
    let mut a = idle_run_animator();
    let edit = a.delete_state("  run ");
    assert_eq!(edit.status, "✅ Estado 'run' removido com sucesso.");
    assert_eq!(edit.selected.as_deref(), Some("idle"));
    assert!(!a.states.contains_key("run"));
    assert_eq!(a.states.get("idle").unwrap().next_state, "");
    assert!(!a.clips.contains_key("run"));
    assert_eq!(a.current_state, "idle");
    assert_eq!(a.current, "idle");
    assert_eq!(a.queued_state, "");
    assert_eq!(a.prev_clip, "");
    assert_eq!(a.default_state, "idle");
}

#[test]
fn deleting_a_state_keeps_a_clip_another_state_plays() {
    let mut a = idle_run_animator();
    a.states.insert("sprint".to_string(), state("run", ""));
    let edit = a.delete_state("run");
    assert_eq!(edit.status, "✅ Estado 'run' removido com sucesso.");
    assert!(a.clips.contains_key("run"));
    assert_eq!(a.current, "run");
    assert_eq!(a.prev_clip, "run");
}

#[test]
fn deleting_the_last_state_clears_what_plays() {
    let mut a = empty_animator();
    a.create_first_state();
    let edit = a.delete_state("idle");
    assert_eq!(edit.status, "✅ Estado 'idle' removido. O Animator ficou sem estados.");
    assert_eq!(edit.selected.as_deref(), Some(""));
    assert!(a.current_state.is_empty());
    assert!(a.default_state.is_empty());
    assert!(a.current.is_empty());
    assert!(!a.clips.contains_key("idle"));
}

#[test]
fn deleting_needs_an_existing_state() {
    let mut a = idle_run_animator();
    let edit = a.delete_state("   ");
    assert_eq!(edit.status, "❌ Nenhum estado selecionado para deletar.");
    assert!(edit.selected.is_none());
    let edit = a.delete_state("jump");
    assert_eq!(edit.status, "❌ Estado 'jump' não encontrado.");
    assert!(edit.selected.is_none());
    assert_eq!(a.states.len(), 2);
}

#[test]
fn renaming_a_state_moves_its_clip_and_every_link() {
    let mut a = idle_run_animator();
    let edit = a.rename_selected_state("run", "  sprint ");
    assert_eq!(edit.status, "✅ Estado 'run' renomeado para 'sprint'.");
    assert_eq!(edit.selected.as_deref(), Some("sprint"));
    assert!(!a.states.contains_key("run"));
    let sprint = a.states.get("sprint").unwrap();
    assert_eq!(sprint.clip, "sprint");
    assert_eq!(sprint.next_state, "idle");
    assert_eq!(a.states.get("idle").unwrap().next_state, "sprint");
    assert_eq!(a.clips.get("sprint").unwrap().frames, vec!["run_0.png", "run_1.png"]);
    assert!(!a.clips.contains_key("run"));
    assert_eq!(a.current, "sprint");
    assert_eq!(a.current_state, "sprint");
    assert_eq!(a.queued_state, "sprint");
    assert_eq!(a.prev_clip, "sprint");
    assert_eq!(a.default_state, "idle");
}

#[test]
fn renaming_keeps_a_clip_named_otherwise() {
    let mut a = idle_run_animator();
    a.states.insert("jump".to_string(), state("air", "idle"));
    let edit = a.rename_selected_state("jump", "hop");
    assert_eq!(edit.status, "✅ Estado 'jump' renomeado para 'hop'.");
    assert_eq!(a.states.get("hop").unwrap().clip, "air");
    assert!(!a.clips.contains_key("hop"));
}

#[test]
fn renaming_is_refused_when_it_cannot_be_done() {
    let mut a = idle_run_animator();
    assert_eq!(a.rename_selected_state("run", "   ").status, "❌ Digite um nome válido para o estado.");
    assert_eq!(a.rename_selected_state("run", "run").status, "ℹ O estado já está com esse nome.");
    let edit = a.rename_selected_state("run", "idle");
    assert_eq!(edit.status, "❌ Já existe um estado chamado 'idle'.");
    assert!(edit.selected.is_none());
    assert_eq!(a.rename_selected_state("jump", "hop").status, "❌ Estado 'jump' não encontrado.");
    assert!(a.states.contains_key("run"));
    assert_eq!(a.states.len(), 2);
}
