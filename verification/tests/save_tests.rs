use rs2br_engine::save::{
    apply_event_ops, apply_save_ops, apply_session_ops, apply_state_ops, new_script_state,
    EventOp, RuntimeEvent, SaveData, SaveOp, SaveValue, SessionOp, StateOp,
};
use rs2br_engine::store::KeyedStore;

#[test]
fn set_get_round_trip() {
    let mut data = SaveData::new();
    data.set("score", SaveValue::Int(42_i32 as i64));
    data.set("nome", SaveValue::Text("Player".to_string()));
    data.set("ativo", SaveValue::Bool(true));
    data.set("x_pos", SaveValue::Float((3.14_f32 as f64).to_bits()));

    assert_eq!(data.get_int("score"), Some(42));
    assert_eq!(data.get_text("nome"), Some("Player"));
    assert_eq!(data.get_bool("ativo"), Some(true));
    let bits = data.get("x_pos").and_then(|v| v.as_float()).unwrap();
    assert!((f64::from_bits(bits) - 3.14).abs() < 0.01);
}

#[test]
fn remove_entry() {
    let mut data = SaveData::new();
    data.set("key", SaveValue::Text("valor".to_string()));
    assert!(data.has("key"));
    assert!(data.remove("key"));
    assert!(!data.has("key"));
}

#[test]
fn new_save_data_is_empty_version_one() {
    let data = SaveData::new();
    assert_eq!(data.version, 1);
    assert!(data.current_scene.is_none());
    assert!(data.entries.is_empty());
    assert!(!data.has("x"));
}

#[test]
fn later_write_replaces_earlier_one() {
    let mut data = SaveData::new();
    data.set_int("vidas", 3);
    data.set_int("vidas", 2);
    data.set_text("fase", "b".to_string());
    data.set_bool("chefe", false);
    data.set_float("t", 0);
    assert_eq!(data.get_int("vidas"), Some(2));
    assert_eq!(data.get_text("vidas"), None);
    assert_eq!(data.get_text("fase"), Some("b"));
    assert_eq!(data.get_bool("chefe"), Some(false));
    assert_eq!(data.entries.entries().len(), 4);
    assert!(!data.remove("nada"));
}

#[test]
fn save_ops_apply_in_order() {
    let mut data = SaveData::new();
    let ops = vec![
        SaveOp::SetValue("score".to_string(), SaveValue::Int(99)),
        SaveOp::SetValue("tmp".to_string(), SaveValue::Bool(true)),
        SaveOp::Remove("tmp".to_string()),
    ];
    apply_save_ops(&mut data, &ops);
    assert_eq!(data.get_int("score"), Some(99));
    assert!(!data.has("tmp"));
}

#[test]
fn session_ops_apply_in_order() {
    let mut session: KeyedStore<SaveValue> = KeyedStore::new();
    apply_session_ops(
        &mut session,
        &[
            SessionOp::SetValue("a".to_string(), SaveValue::Int(1)),
            SessionOp::Clear,
            SessionOp::SetValue("b".to_string(), SaveValue::Int(2)),
        ],
    );
    assert!(!session.contains_key("a"));
    assert_eq!(session.get("b").and_then(|v| v.as_int()), Some(2));
    apply_session_ops(&mut session, &[SessionOp::Remove("b".to_string())]);
    assert!(session.is_empty());
}

#[test]
fn state_ops_keep_scopes_non_empty() {
    let mut state = new_script_state();
    apply_state_ops(
        &mut state,
        "e1::a.lua",
        &[
            StateOp::SetValue("hp".to_string(), SaveValue::Int(10)),
            StateOp::SetValue("nome".to_string(), SaveValue::Text("x".to_string())),
        ],
    );
    apply_state_ops(&mut state, "e2::b.lua", &[StateOp::SetValue("k".to_string(), SaveValue::Bool(true))]);
    assert_eq!(state.get("e1::a.lua").and_then(|s| s.get("hp")).and_then(|v| v.as_int()), Some(10));
    apply_state_ops(&mut state, "e1::a.lua", &[StateOp::Remove("hp".to_string())]);
    assert!(state.contains_key("e1::a.lua"));
    apply_state_ops(&mut state, "e1::a.lua", &[StateOp::Remove("nome".to_string())]);
    assert!(!state.contains_key("e1::a.lua"));
    assert!(state.contains_key("e2::b.lua"));
    apply_state_ops(&mut state, "e2::b.lua", &[StateOp::Clear]);
    assert!(state.is_empty());
}

#[test]
fn events_are_appended_in_order() {
    let mut pending = vec![RuntimeEvent { name: "antes".to_string(), data: None }];
    apply_event_ops(
        &mut pending,
        &[
            EventOp::Emit { name: "morreu".to_string(), data: Some(SaveValue::Int(3)) },
            EventOp::Emit { name: "fim".to_string(), data: None },
        ],
    );
    let names: Vec<&str> = pending.iter().map(|e| e.name.as_str()).collect();
    assert_eq!(names, vec!["antes", "morreu", "fim"]);
    assert_eq!(pending[1].data.as_ref().and_then(|v| v.as_int()), Some(3));
}
