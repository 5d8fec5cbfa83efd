//! Game state kept by key: persistent save data, session state, per-script
//! state, and the operations that scripts queue against them.
use vstd::prelude::*;
use crate::store::KeyedStore;

verus! {

/// A value a game can keep under a key. A decimal number is held as the
/// bit pattern of its IEEE-754 double (`f64::to_bits`), so two values are
/// equal (`==`) when their bits are.
#[derive(Debug, Clone, PartialEq)]
pub enum SaveValue {
    Bool(bool),
    Int(i64),
    Float(u64),
    Text(String),
}

impl SaveValue {
    /// An identical value.
    pub fn duplicate(&self) -> (r: SaveValue)
        ensures
            r == *self,
    {
        match self {
            SaveValue::Bool(b) => SaveValue::Bool(*b),
            SaveValue::Int(i) => SaveValue::Int(*i),
            SaveValue::Float(f) => SaveValue::Float(*f),
            SaveValue::Text(t) => SaveValue::Text(t.clone()),
        }
    }

    pub fn as_bool(&self) -> (r: Option<bool>)
        ensures
            r == (match *self {
                SaveValue::Bool(b) => Some(b),
                _ => None,
            }),
    {
        match self {
            SaveValue::Bool(b) => Some(*b),
            _ => None,
        }
    }

    pub fn as_int(&self) -> (r: Option<i64>)
        ensures
            r == (match *self {
                SaveValue::Int(i) => Some(i),
                _ => None,
            }),
    {
        match self {
            SaveValue::Int(i) => Some(*i),
            _ => None,
        }
    }

    /// The bit pattern of a decimal number.
    pub fn as_float(&self) -> (r: Option<u64>)
        ensures
            r == (match *self {
                SaveValue::Float(f) => Some(f),
                _ => None,
            }),
    {
        match self {
            SaveValue::Float(f) => Some(*f),
            _ => None,
        }
    }

    pub fn as_text(&self) -> (r: Option<&str>)
        ensures
            match *self {
                SaveValue::Text(t) => r is Some && r->0@ == t@,
                _ => r is None,
            },
    {
        match self {
            SaveValue::Text(t) => Some(t.as_str()),
            _ => None,
        }
    }
}

/// The value under `key` in `m`, if there is one.
pub open spec fn lookup(m: Map<Seq<char>, SaveValue>, key: Seq<char>) -> Option<SaveValue> {
    if m.dom().contains(key) {
        Some(m[key])
    } else {
        None
    }
}

/// Persistent game data: values by key, the scene the game was saved in,
/// and the format version.
#[derive(Debug)]
pub struct SaveData {
    pub entries: KeyedStore<SaveValue>,
    pub current_scene: Option<String>,
    pub version: u32,
}

impl SaveData {
    pub open spec fn wf(&self) -> bool {
        self.entries.wf()
    }

    /// Empty data of version 1.
    pub fn new() -> (r: Self)
        ensures
            r.wf(),
            r.entries@ == Map::<Seq<char>, SaveValue>::empty(),
            r.current_scene is None,
            r.version == 1,
    {
        SaveData { entries: KeyedStore::new(), current_scene: None, version: 1 }
    }

    pub fn get(&self, key: &str) -> (r: Option<&SaveValue>)
        requires
            self.wf(),
        ensures
            r == (if self.entries@.dom().contains(key@) {
                Some(&self.entries@[key@])
            } else {
                None
            }),
    {
        self.entries.get(key)
    }

    pub fn get_bool(&self, key: &str) -> (r: Option<bool>)
        requires
            self.wf(),
        ensures
            r == (match lookup(self.entries@, key@) {
                Some(SaveValue::Bool(b)) => Some(b),
                _ => None,
            }),
    {
        match self.entries.get(key) {
            Some(v) => v.as_bool(),
            None => None,
        }
    }

    pub fn get_int(&self, key: &str) -> (r: Option<i64>)
        requires
            self.wf(),
        ensures
            r == (match lookup(self.entries@, key@) {
                Some(SaveValue::Int(i)) => Some(i),
                _ => None,
            }),
    {
        match self.entries.get(key) {
            Some(v) => v.as_int(),
            None => None,
        }
    }

    pub fn get_text(&self, key: &str) -> (r: Option<&str>)
        requires
            self.wf(),
        ensures
            match lookup(self.entries@, key@) {
                Some(SaveValue::Text(t)) => r is Some && r->0@ == t@,
                _ => r is None,
            },
    {
        match self.entries.get(key) {
            Some(v) => v.as_text(),
            None => None,
        }
    }

    /// Stores `value` under `key`.
    pub fn set(&mut self, key: &str, value: SaveValue)
        requires
            old(self).wf(),
        ensures
            final(self).wf(),
            final(self).entries@ == old(self).entries@.insert(key@, value),
            final(self).current_scene == old(self).current_scene,
            final(self).version == old(self).version,
            final(self).version == old(self).version,
    {
        self.entries.insert(String::from_str(key), value);
    }

    pub fn set_text(&mut self, key: &str, value: String)
        requires
            old(self).wf(),
        ensures
            final(self).wf(),
            final(self).entries@ == old(self).entries@.insert(key@, SaveValue::Text(value)),
            final(self).current_scene == old(self).current_scene,
            final(self).version == old(self).version,
            final(self).version == old(self).version,
    {
        self.set(key, SaveValue::Text(value));
    }

    /// Stores a decimal number given by its bit pattern.
    pub fn set_float(&mut self, key: &str, bits: u64)
        requires
            old(self).wf(),
        ensures
            final(self).wf(),
            final(self).entries@ == old(self).entries@.insert(key@, SaveValue::Float(bits)),
            final(self).current_scene == old(self).current_scene,
            final(self).version == old(self).version,
            final(self).version == old(self).version,
    {
        self.set(key, SaveValue::Float(bits));
    }

    pub fn set_int(&mut self, key: &str, value: i64)
        requires
            old(self).wf(),
        ensures
            final(self).wf(),
            final(self).entries@ == old(self).entries@.insert(key@, SaveValue::Int(value)),
            final(self).current_scene == old(self).current_scene,
            final(self).version == old(self).version,
            final(self).version == old(self).version,
    {
        self.set(key, SaveValue::Int(value));
    }

    pub fn set_bool(&mut self, key: &str, value: bool)
        requires
            old(self).wf(),
        ensures
            final(self).wf(),
            final(self).entries@ == old(self).entries@.insert(key@, SaveValue::Bool(value)),
            final(self).current_scene == old(self).current_scene,
            final(self).version == old(self).version,
            final(self).version == old(self).version,
    {
        self.set(key, SaveValue::Bool(value));
    }

    /// Removes the value under `key`; says whether there was one.
    pub fn remove(&mut self, key: &str) -> (r: bool)
        requires
            old(self).wf(),
        ensures
            final(self).wf(),
            final(self).entries@ == old(self).entries@.remove(key@),
            final(self).current_scene == old(self).current_scene,
            final(self).version == old(self).version,
            r == old(self).entries@.dom().contains(key@),
            final(self).current_scene == old(self).current_scene,
            final(self).version == old(self).version,
            final(self).version == old(self).version,
    {
        self.entries.remove(key).is_some()
    }

    pub fn has(&self, key: &str) -> (r: bool)
        requires
            self.wf(),
        ensures
            r == self.entries@.dom().contains(key@),
    {
        self.entries.contains_key(key)
    }
}

// ── operations queued by scripts ─────────────────────────────

/// A change a script asks of the persistent save data.
#[derive(Debug)]
pub enum SaveOp {
    SetValue(String, SaveValue),
    Remove(String),
}

/// A change a script asks of the session state.
#[derive(Debug)]
pub enum SessionOp {
    SetValue(String, SaveValue),
    Remove(String),
    Clear,
}

/// A change a script asks of its own state.
#[derive(Debug)]
pub enum StateOp {
    SetValue(String, SaveValue),
    Remove(String),
    Clear,
}

/// An event a script emits, with optional data.
#[derive(Debug)]
pub enum EventOp {
    Emit { name: String, data: Option<SaveValue> },
}

/// An emitted event waiting to be handled.
#[derive(Debug)]
pub struct RuntimeEvent {
    pub name: String,
    pub data: Option<SaveValue>,
}

pub open spec fn save_step(m: Map<Seq<char>, SaveValue>, op: SaveOp) -> Map<Seq<char>, SaveValue> {
    match op {
        SaveOp::SetValue(k, v) => m.insert(k@, v),
        SaveOp::Remove(k) => m.remove(k@),
    }
}

/// The save data after the operations, applied in order.
pub open spec fn save_after(m: Map<Seq<char>, SaveValue>, ops: Seq<SaveOp>) -> Map<
    Seq<char>,
    SaveValue,
>
    decreases ops.len(),
{
    if ops.len() == 0 {
        m
    } else {
        save_step(save_after(m, ops.drop_last()), ops.last())
    }
}

pub open spec fn session_step(m: Map<Seq<char>, SaveValue>, op: SessionOp) -> Map<
    Seq<char>,
    SaveValue,
> {
    match op {
        SessionOp::SetValue(k, v) => m.insert(k@, v),
        SessionOp::Remove(k) => m.remove(k@),
        SessionOp::Clear => Map::empty(),
    }
}

/// The session state after the operations, applied in order.
pub open spec fn session_after(m: Map<Seq<char>, SaveValue>, ops: Seq<SessionOp>) -> Map<
    Seq<char>,
    SaveValue,
>
    decreases ops.len(),
{
    if ops.len() == 0 {
        m
    } else {
        session_step(session_after(m, ops.drop_last()), ops.last())
    }
}

/// Applies the save operations in order.
pub fn apply_save_ops(save_data: &mut SaveData, ops: &[SaveOp])
    requires
        old(save_data).wf(),
    ensures
        final(save_data).wf(),
        final(save_data).entries@ == save_after(old(save_data).entries@, ops@),
        final(save_data).current_scene == old(save_data).current_scene,
        final(save_data).version == old(save_data).version,
        final(save_data).version == old(save_data).version,
{
    for i in 0..ops.len()
        invariant
            save_data.wf(),
            save_data.entries@ == save_after(old(save_data).entries@, ops@.take(i as int)),
            save_data.current_scene == old(save_data).current_scene,
            save_data.version == old(save_data).version,
    {
        assert(ops@.take(i + 1).drop_last() == ops@.take(i as int));
        match &ops[i] {
            SaveOp::SetValue(key, val) => save_data.set(key.as_str(), val.duplicate()),
            SaveOp::Remove(key) => {
                save_data.remove(key.as_str());
            },
        }
    }
    assert(ops@.take(ops@.len() as int) == ops@);
}

/// Applies the session operations in order.
pub fn apply_session_ops(session_data: &mut KeyedStore<SaveValue>, ops: &[SessionOp])
    requires
        old(session_data).wf(),
    ensures
        final(session_data).wf(),
        final(session_data)@ == session_after(old(session_data)@, ops@),
{
    for i in 0..ops.len()
        invariant
            session_data.wf(),
            session_data@ == session_after(old(session_data)@, ops@.take(i as int)),
    {
        assert(ops@.take(i + 1).drop_last() == ops@.take(i as int));
        match &ops[i] {
            SessionOp::SetValue(key, val) => session_data.insert(key.clone(), val.duplicate()),
            SessionOp::Remove(key) => {
                session_data.remove(key.as_str());
            },
            SessionOp::Clear => session_data.clear(),
        }
    }
    assert(ops@.take(ops@.len() as int) == ops@);
}

/// The events emitted by the operations, in order.
pub open spec fn emitted(ops: Seq<EventOp>) -> Seq<(Seq<char>, Option<SaveValue>)> {
    ops.map_values(
        |op: EventOp|
            match op {
                EventOp::Emit { name, data } => (name@, data),
            },
    )
}

pub open spec fn events_view(events: Seq<RuntimeEvent>) -> Seq<(Seq<char>, Option<SaveValue>)> {
    events.map_values(|e: RuntimeEvent| (e.name@, e.data))
}

fn duplicate_option(v: &Option<SaveValue>) -> (r: Option<SaveValue>)
    ensures
        r == *v,
{
    match v {
        Some(x) => Some(x.duplicate()),
        None => None,
    }
}

/// Appends the emitted events, in order, to the pending ones.
pub fn apply_event_ops(pending_runtime_events: &mut Vec<RuntimeEvent>, ops: &[EventOp])
    ensures
        events_view(final(pending_runtime_events)@) == events_view(old(pending_runtime_events)@)
            + emitted(ops@),
{
    for i in 0..ops.len()
        invariant
            events_view(pending_runtime_events@) == events_view(old(pending_runtime_events)@)
                + emitted(ops@.take(i as int)),
    {
        let ghost before = pending_runtime_events@;
        match &ops[i] {
            EventOp::Emit { name, data } => {
                pending_runtime_events.push(
                    RuntimeEvent { name: name.clone(), data: duplicate_option(data) },
                );
            },
        }
        proof {
            assert(ops@.take(i + 1) == ops@.take(i as int).push(ops@[i as int]));
            assert(emitted(ops@.take(i + 1)) =~= emitted(ops@.take(i as int)).push(
                emitted(seq![ops@[i as int]])[0],
            ));
            assert(events_view(pending_runtime_events@) =~= events_view(before).push(
                events_view(pending_runtime_events@).last(),
            ));
        }
    }
    assert(ops@.take(ops@.len() as int) == ops@);
}

// ── per-script state ─────────────────────────────────────────

/// State kept per script scope (entity and script), each scope a store of
/// values. A scope with no value left is dropped.
pub type ScriptState = KeyedStore<KeyedStore<SaveValue>>;

/// The per-script state as a map from scope to the scope's values.
pub open spec fn scopes_view(s: ScriptState) -> Map<Seq<char>, Map<Seq<char>, SaveValue>> {
    s@.map_values(|inner: KeyedStore<SaveValue>| inner@)
}

/// Every scope is well formed and holds at least one value.
pub open spec fn script_state_wf(s: ScriptState) -> bool {
    &&& s.wf()
    &&& forall|k: Seq<char>| #[trigger] s@.dom().contains(k) ==> s@[k].wf() && s@[k]@
        != Map::<Seq<char>, SaveValue>::empty()
}

/// The per-script state with `key` set to `v` in scope `scope` (the scope
/// made when it is missing).
pub open spec fn scope_set(
    m: Map<Seq<char>, Map<Seq<char>, SaveValue>>,
    scope: Seq<char>,
    key: Seq<char>,
    v: SaveValue,
) -> Map<Seq<char>, Map<Seq<char>, SaveValue>> {
    let inner = if m.dom().contains(scope) {
        m[scope]
    } else {
        Map::empty()
    };
    m.insert(scope, inner.insert(key, v))
}

/// The per-script state with `key` removed from scope `scope`, the scope
/// dropped when nothing is left in it.
pub open spec fn scope_remove(
    m: Map<Seq<char>, Map<Seq<char>, SaveValue>>,
    scope: Seq<char>,
    key: Seq<char>,
) -> Map<Seq<char>, Map<Seq<char>, SaveValue>> {
    if m.dom().contains(scope) {
        let inner = m[scope].remove(key);
        if inner == Map::<Seq<char>, SaveValue>::empty() {
            m.remove(scope)
        } else {
            m.insert(scope, inner)
        }
    } else {
        m
    }
}

pub open spec fn state_step(
    m: Map<Seq<char>, Map<Seq<char>, SaveValue>>,
    scope: Seq<char>,
    op: StateOp,
) -> Map<Seq<char>, Map<Seq<char>, SaveValue>> {
    match op {
        StateOp::SetValue(k, v) => scope_set(m, scope, k@, v),
        StateOp::Remove(k) => scope_remove(m, scope, k@),
        StateOp::Clear => m.remove(scope),
    }
}

/// The per-script state after the operations of one scope, applied in order.
pub open spec fn state_after(
    m: Map<Seq<char>, Map<Seq<char>, SaveValue>>,
    scope: Seq<char>,
    ops: Seq<StateOp>,
) -> Map<Seq<char>, Map<Seq<char>, SaveValue>>
    decreases ops.len(),
{
    if ops.len() == 0 {
        m
    } else {
        state_step(state_after(m, scope, ops.drop_last()), scope, ops.last())
    }
}

/// An empty per-script state.
pub fn new_script_state() -> (r: ScriptState)
    ensures
        script_state_wf(r),
        scopes_view(r) == Map::<Seq<char>, Map<Seq<char>, SaveValue>>::empty(),
{
    let r: ScriptState = KeyedStore::new();
    assert(scopes_view(r) =~= Map::<Seq<char>, Map<Seq<char>, SaveValue>>::empty());
    r
}

pub(crate) fn state_set(script_state: &mut ScriptState, scope: &str, key: String, value: SaveValue)
    requires
        script_state_wf(*old(script_state)),
    ensures
        script_state_wf(*final(script_state)),
        scopes_view(*final(script_state)) == state_step(
            scopes_view(*old(script_state)),
            scope@,
            StateOp::SetValue(key, value),
        ),
{
    let ghost old_view = scopes_view(*script_state);
    let ghost old_state = *script_state;
    let mut inner = match script_state.remove(scope) {
        Some(inner) => inner,
        None => KeyedStore::new(),
    };
    assert(inner.wf());
    inner.insert(key, value);
    assert(inner@.dom().contains(key@));
    assert(!Map::<Seq<char>, SaveValue>::empty().dom().contains(key@));
    let ghost new_inner = inner;
    script_state.insert(String::from_str(scope), inner);
    proof {
        assert forall|k: Seq<char>| #[trigger] script_state@.dom().contains(k) implies script_state@[
            k
        ].wf() && script_state@[k]@ != Map::<Seq<char>, SaveValue>::empty() by {
            if k != scope@ {
                assert(old_state@.dom().contains(k));
            } else {
                assert(script_state@[k] == new_inner);
            }
        }
        let expected = state_step(old_view, scope@, StateOp::SetValue(key, value));
        assert(scopes_view(*script_state) =~= expected);
    }
}

/// The value a scope holds under a key, if any.
pub open spec fn scoped_lookup(
    m: Map<Seq<char>, Map<Seq<char>, SaveValue>>,
    scope: Seq<char>,
    key: Seq<char>,
) -> Option<SaveValue> {
    if m.dom().contains(scope) {
        lookup(m[scope], key)
    } else {
        None
    }
}

pub(crate) fn state_remove(script_state: &mut ScriptState, scope: &str, key: &String) -> (r: Option<SaveValue>)
    requires
        script_state_wf(*old(script_state)),
    ensures
        script_state_wf(*final(script_state)),
        r == scoped_lookup(scopes_view(*old(script_state)), scope@, key@),
        scopes_view(*final(script_state)) == state_step(
            scopes_view(*old(script_state)),
            scope@,
            StateOp::Remove(*key),
        ),
{
    let ghost old_view = scopes_view(*script_state);
    match script_state.remove(scope) {
        Some(mut inner) => {
            let removed = inner.remove(key.as_str());
            if inner.is_empty() {
                assert(scopes_view(*script_state) =~= state_step(
                    old_view,
                    scope@,
                    StateOp::Remove(*key),
                ));
            } else {
                script_state.insert(String::from_str(scope), inner);
                assert(scopes_view(*script_state) =~= state_step(
                    old_view,
                    scope@,
                    StateOp::Remove(*key),
                ));
            }
            removed
        },
        None => {
            assert(scopes_view(*script_state) =~= old_view);
            None
        },
    }
}

/// Applies the state operations of one script scope, in order.
pub fn apply_state_ops(script_state: &mut ScriptState, script_scope_key: &str, ops: &[StateOp])
    requires
        script_state_wf(*old(script_state)),
    ensures
        script_state_wf(*final(script_state)),
        scopes_view(*final(script_state)) == state_after(
            scopes_view(*old(script_state)),
            script_scope_key@,
            ops@,
        ),
{
    for i in 0..ops.len()
        invariant
            script_state_wf(*script_state),
            scopes_view(*script_state) == state_after(
                scopes_view(*old(script_state)),
                script_scope_key@,
                ops@.take(i as int),
            ),
    {
        assert(ops@.take(i + 1).drop_last() == ops@.take(i as int));
        match &ops[i] {
            StateOp::SetValue(key, value) => {
                state_set(script_state, script_scope_key, key.clone(), value.duplicate());
            },
            StateOp::Remove(key) => {
                let _ = state_remove(script_state, script_scope_key, key);
            },
            StateOp::Clear => {
                let ghost before = scopes_view(*script_state);
                script_state.remove(script_scope_key);
                assert(scopes_view(*script_state) =~= before.remove(script_scope_key@));
            },
        }
    }
    assert(ops@.take(ops@.len() as int) == ops@);
}

// ── laws ─────────────────────────────────────────────────────

/// A value stored under a key is what a later read of that key gives back,
/// and storing under one key leaves every other key as it was.
pub proof fn law_set_then_get(m: Map<Seq<char>, SaveValue>, key: Seq<char>, other: Seq<char>, value: SaveValue)
    requires
        other != key,
    ensures
        lookup(m.insert(key, value), key) == Some(value),
        lookup(m.insert(key, value), other) == lookup(m, other),
{
}

/// After a removal the key holds nothing, and the other keys are unchanged.
pub proof fn law_remove_then_absent(m: Map<Seq<char>, SaveValue>, key: Seq<char>, other: Seq<char>)
    requires
        other != key,
    ensures
        lookup(m.remove(key), key) is None,
        lookup(m.remove(key), other) == lookup(m, other),
{
}

/// A save operation list ending in a write of a key reads back that value.
pub proof fn law_save_ops_last_write_wins(m: Map<Seq<char>, SaveValue>, ops: Seq<SaveOp>, key: String, value: SaveValue)
    ensures
        lookup(save_after(m, ops.push(SaveOp::SetValue(key, value))), key@) == Some(value),
{
    assert(ops.push(SaveOp::SetValue(key, value)).drop_last() == ops);
}

/// Clearing the session forgets every key, whatever came before.
pub proof fn law_session_clear_empties(m: Map<Seq<char>, SaveValue>, ops: Seq<SessionOp>)
    ensures
        session_after(m, ops.push(SessionOp::Clear)) == Map::<Seq<char>, SaveValue>::empty(),
{
    assert(ops.push(SessionOp::Clear).drop_last() == ops);
}

/// A script's write is visible in its own scope and changes no other scope.
pub proof fn law_state_set_then_get(
    m: Map<Seq<char>, Map<Seq<char>, SaveValue>>,
    scope: Seq<char>,
    other_scope: Seq<char>,
    key: String,
    value: SaveValue,
)
    requires
        other_scope != scope,
    ensures
        state_step(m, scope, StateOp::SetValue(key, value)).dom().contains(scope),
        lookup(state_step(m, scope, StateOp::SetValue(key, value))[scope], key@) == Some(value),
        state_step(m, scope, StateOp::SetValue(key, value)).dom().contains(other_scope) == m.dom().contains(other_scope),
        m.dom().contains(other_scope) ==> state_step(m, scope, StateOp::SetValue(key, value))[other_scope] == m[other_scope],
{
}

/// Clearing a script's state drops its whole scope and keeps every other
/// scope.
pub proof fn law_state_clear_drops_scope(
    m: Map<Seq<char>, Map<Seq<char>, SaveValue>>,
    scope: Seq<char>,
    other_scope: Seq<char>,
)
    requires
        other_scope != scope,
    ensures
        !state_step(m, scope, StateOp::Clear).dom().contains(scope),
        state_step(m, scope, StateOp::Clear).dom().contains(other_scope) == m.dom().contains(other_scope),
        m.dom().contains(other_scope) ==> state_step(m, scope, StateOp::Clear)[other_scope] == m[other_scope],
{
}

/// No scope is ever left empty: after removing a key, the scope either
/// still holds a value or is gone.
pub proof fn law_state_remove_prunes(
    m: Map<Seq<char>, Map<Seq<char>, SaveValue>>,
    scope: Seq<char>,
    key: String,
)
    ensures
        state_step(m, scope, StateOp::Remove(key)).dom().contains(scope) ==> state_step(
            m,
            scope,
            StateOp::Remove(key),
        )[scope] != Map::<Seq<char>, SaveValue>::empty(),
        state_step(m, scope, StateOp::Remove(key)).dom().contains(scope) ==> !state_step(
            m,
            scope,
            StateOp::Remove(key),
        )[scope].dom().contains(key@),
{
}

} // verus!
