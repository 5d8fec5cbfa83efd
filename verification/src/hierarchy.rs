//! The entity hierarchy of a scene as the editor and the runtime read it:
//! identities, names, which components an entity has, and its children.
use vstd::prelude::*;
use crate::text::{chars_eq, chars_of};

verus! {

/// Which component an entity carries, with the flags the editor reads.
#[derive(Debug, Clone, Copy, PartialEq, Eq, Structural)]
pub enum ComponentKind {
    Transform,
    Sprite,
    Camera2D { is_main: bool },
    RigidBody2D { grounded: bool },
    Velocity,
    BoxCollider { is_trigger: bool },
    Script,
    LuaScript,
    Audio,
    Animator,
    TextLabel,
    UIButton,
}

/// The name the inspector shows for a component.
pub open spec fn component_label(k: ComponentKind) -> Seq<char> {
    match k {
        ComponentKind::Transform => "Transform"@,
        ComponentKind::Sprite => "Sprite"@,
        ComponentKind::Camera2D { .. } => "Camera 2D"@,
        ComponentKind::RigidBody2D { .. } => "RigidBody 2D"@,
        ComponentKind::Velocity => "Velocity"@,
        ComponentKind::BoxCollider { .. } => "Box Collider"@,
        ComponentKind::Script => "Script RS2"@,
        ComponentKind::LuaScript => "Script Lua"@,
        ComponentKind::Audio => "Audio"@,
        ComponentKind::Animator => "Animator"@,
        ComponentKind::TextLabel => "Text Label"@,
        ComponentKind::UIButton => "UI Button"@,
    }
}

impl ComponentKind {
    pub fn display_name(&self) -> (r: &'static str)
        ensures
            r@ == component_label(*self),
    {
        match self {
            ComponentKind::Transform => "Transform",
            ComponentKind::Sprite => "Sprite",
            ComponentKind::Camera2D { .. } => "Camera 2D",
            ComponentKind::RigidBody2D { .. } => "RigidBody 2D",
            ComponentKind::Velocity => "Velocity",
            ComponentKind::BoxCollider { .. } => "Box Collider",
            ComponentKind::Script => "Script RS2",
            ComponentKind::LuaScript => "Script Lua",
            ComponentKind::Audio => "Audio",
            ComponentKind::Animator => "Animator",
            ComponentKind::TextLabel => "Text Label",
            ComponentKind::UIButton => "UI Button",
        }
    }
}

/// An entity of a scene: its id, name, the prefab it came from, its
/// components in order, and its children.
#[derive(Debug)]
pub struct EntityNode {
    pub id: String,
    pub name: String,
    pub prefab_source: Option<String>,
    pub components: Vec<ComponentKind>,
    pub children: Vec<EntityNode>,
}

/// A component with its ground contact set to `grounded` when it is a
/// rigid body; any other component as it is.
pub open spec fn grounded_as(k: ComponentKind, grounded: bool) -> ComponentKind {
    match k {
        ComponentKind::RigidBody2D { .. } => ComponentKind::RigidBody2D { grounded },
        _ => k,
    }
}

/// Marks every rigid body of the entity as touching the ground or not;
/// nothing else of it changes.
pub fn set_grounded(entity: &mut EntityNode, grounded: bool)
    ensures
        final(entity).components@ == old(entity).components@.map_values(
            |k: ComponentKind| grounded_as(k, grounded),
        ),
        final(entity).id == old(entity).id,
        final(entity).name == old(entity).name,
        final(entity).prefab_source == old(entity).prefab_source,
        final(entity).children == old(entity).children,
{
    let n = entity.components.len();
    let mut i: usize = 0;
    while i < n
        invariant
            i <= n,
            n == entity.components@.len(),
            n == old(entity).components@.len(),
            forall|j: int| 0 <= j < i ==> #[trigger] entity.components@[j] == grounded_as(old(entity).components@[j], grounded),
            forall|j: int| i <= j < n ==> #[trigger] entity.components@[j] == old(entity).components@[j],
            entity.id == old(entity).id,
            entity.name == old(entity).name,
            entity.prefab_source == old(entity).prefab_source,
            entity.children == old(entity).children,
        decreases n - i,
    {
        let k = entity.components[i];
        match k {
            ComponentKind::RigidBody2D { .. } => {
                entity.components.set(i, ComponentKind::RigidBody2D { grounded });
            },
            _ => {},
        }
        i += 1;
    }
    assert(entity.components@ =~= old(entity).components@.map_values(|k: ComponentKind| grounded_as(k, grounded)));
}

/// The number of entities in a forest, children included.
pub open spec fn tree_count(s: Seq<EntityNode>) -> nat
    decreases s,
{
    if s.len() == 0 {
        0
    } else {
        tree_count(s.drop_last()) + 1 + tree_count(s.last().children@)
    }
}

pub open spec fn is_script_kind(k: ComponentKind) -> bool {
    k == ComponentKind::Script || k == ComponentKind::LuaScript
}

/// The number of script components (RS2 or Lua) in a component list.
pub open spec fn script_components(c: Seq<ComponentKind>) -> nat
    decreases c.len(),
{
    if c.len() == 0 {
        0
    } else {
        script_components(c.drop_last()) + if is_script_kind(c.last()) {
            1nat
        } else {
            0nat
        }
    }
}

/// The number of script components in a forest, children included.
pub open spec fn tree_scripts(s: Seq<EntityNode>) -> nat
    decreases s,
{
    if s.len() == 0 {
        0
    } else {
        tree_scripts(s.drop_last()) + script_components(s.last().components@) + tree_scripts(
            s.last().children@,
        )
    }
}

proof fn lemma_tree_count_prefix(s: Seq<EntityNode>, i: int)
    requires
        0 <= i <= s.len(),
    ensures
        tree_count(s.take(i)) <= tree_count(s),
    decreases s.len() - i,
{
    if i < s.len() {
        lemma_tree_count_prefix(s, i + 1);
        assert(s.take(i + 1).drop_last() == s.take(i));
    } else {
        assert(s.take(i) == s);
    }
}

proof fn lemma_tree_scripts_prefix(s: Seq<EntityNode>, i: int)
    requires
        0 <= i <= s.len(),
    ensures
        tree_scripts(s.take(i)) <= tree_scripts(s),
    decreases s.len() - i,
{
    if i < s.len() {
        lemma_tree_scripts_prefix(s, i + 1);
        assert(s.take(i + 1).drop_last() == s.take(i));
    } else {
        assert(s.take(i) == s);
    }
}

proof fn lemma_tree_concat(xs: Seq<EntityNode>, ys: Seq<EntityNode>)
    ensures
        tree_count(xs + ys) == tree_count(xs) + tree_count(ys),
        tree_scripts(xs + ys) == tree_scripts(xs) + tree_scripts(ys),
    decreases ys.len(),
{
    if ys.len() == 0 {
        assert(xs + ys =~= xs);
    } else {
        lemma_tree_concat(xs, ys.drop_last());
        assert((xs + ys).drop_last() =~= xs + ys.drop_last());
        assert((xs + ys).last() == ys.last());
    }
}

/// Entity and script counts add up over a forest: none in an empty one,
/// the sum of the parts for two forests side by side, and for one entity
/// itself (with its own scripts) plus its children.
pub proof fn law_counts_add_up(xs: Seq<EntityNode>, ys: Seq<EntityNode>, e: EntityNode)
    ensures
        tree_count(Seq::<EntityNode>::empty()) == 0,
        tree_scripts(Seq::<EntityNode>::empty()) == 0,
        tree_count(xs + ys) == tree_count(xs) + tree_count(ys),
        tree_scripts(xs + ys) == tree_scripts(xs) + tree_scripts(ys),
        tree_count(seq![e]) == 1 + tree_count(e.children@),
        tree_scripts(seq![e]) == script_components(e.components@) + tree_scripts(e.children@),
{
    lemma_tree_concat(xs, ys);
    assert(seq![e].drop_last() =~= Seq::<EntityNode>::empty());
}

/// The number of entities, children included.
pub fn count_entities(entities: &[EntityNode]) -> (r: usize)
    requires
        tree_count(entities@) <= usize::MAX,
    ensures
        r == tree_count(entities@),
    decreases entities@,
{
    let mut total: usize = 0;
    for i in 0..entities.len()
        invariant
            tree_count(entities@) <= usize::MAX,
            total == tree_count(entities@.take(i as int)),
    {
        proof {
            assert(entities@.take(i + 1).drop_last() == entities@.take(i as int));
            assert(entities@.take(i + 1).last() == entities@[i as int]);
            lemma_tree_count_prefix(entities@, i + 1);
            assert(decreases_to!(entities@ => entities@[i as int]));
        }
        let below = count_entities(entities[i].children.as_slice());
        total = total + 1 + below;
    }
    assert(entities@.take(entities@.len() as int) == entities@);
    total
}

fn script_components_in(c: &Vec<ComponentKind>) -> (r: usize)
    ensures
        r == script_components(c@),
        r <= c@.len(),
{
    let mut n: usize = 0;
    for i in 0..c.len()
        invariant
            n == script_components(c@.take(i as int)),
            n <= i,
    {
        assert(c@.take(i + 1).drop_last() == c@.take(i as int));
        match c[i] {
            ComponentKind::Script | ComponentKind::LuaScript => {
                n += 1;
            },
            _ => {},
        }
    }
    assert(c@.take(c@.len() as int) == c@);
    n
}

/// The number of script components (RS2 or Lua), children included.
pub fn count_scripts(entities: &[EntityNode]) -> (r: usize)
    requires
        tree_scripts(entities@) <= usize::MAX,
    ensures
        r == tree_scripts(entities@),
    decreases entities@,
{
    let mut total: usize = 0;
    for i in 0..entities.len()
        invariant
            tree_scripts(entities@) <= usize::MAX,
            total == tree_scripts(entities@.take(i as int)),
    {
        proof {
            assert(entities@.take(i + 1).drop_last() == entities@.take(i as int));
            assert(entities@.take(i + 1).last() == entities@[i as int]);
            lemma_tree_scripts_prefix(entities@, i + 1);
            assert(decreases_to!(entities@ => entities@[i as int]));
        }
        let own = script_components_in(&entities[i].components);
        let below = count_scripts(entities[i].children.as_slice());
        total = total + own + below;
    }
    assert(entities@.take(entities@.len() as int) == entities@);
    total
}

/// The first entity with the given id, looking at each entity before its
/// children and at the children before the next sibling.
pub open spec fn find_in(s: Seq<EntityNode>, id: Seq<char>) -> Option<EntityNode>
    decreases s,
{
    if s.len() == 0 {
        None
    } else if s[0].id@ == id {
        Some(s[0])
    } else {
        match find_in(s[0].children@, id) {
            Some(e) => Some(e),
            None => find_in(s.drop_first(), id),
        }
    }
}

fn find_in_exec<'a>(entities: &'a [EntityNode], id: &Vec<char>) -> (r: Option<&'a EntityNode>)
    ensures
        match r {
            Some(e) => find_in(entities@, id@) == Some(*e),
            None => find_in(entities@, id@) is None,
        },
    decreases entities@,
{
    let mut i: usize = 0;
    assert(entities@.skip(0) == entities@);
    while i < entities.len()
        invariant
            i <= entities@.len(),
            find_in(entities@, id@) == find_in(entities@.skip(i as int), id@),
        decreases entities@.len() - i,
    {
        let e = &entities[i];
        assert(entities@.skip(i as int)[0] == entities@[i as int]);
        assert(entities@.skip(i as int).drop_first() == entities@.skip(i + 1));
        if chars_eq(&chars_of(e.id.as_str()), id) {
            return Some(e);
        }
        proof {
            assert(decreases_to!(entities@ => entities@[i as int]));
        }
        match find_in_exec(e.children.as_slice(), id) {
            Some(found) => {
                return Some(found);
            },
            None => {},
        }
        i += 1;
    }
    assert(entities@.skip(i as int).len() == 0);
    None
}

/// The entity with the given id, searching depth first.
pub fn find_entity<'a>(entities: &'a [EntityNode], id: &str) -> (r: Option<&'a EntityNode>)
    ensures
        match r {
            Some(e) => find_in(entities@, id@) == Some(*e),
            None => find_in(entities@, id@) is None,
        },
{
    find_in_exec(entities, &chars_of(id))
}

/// Index of the first entity of `s` (not looking at children) with the
/// given id, or -1.
pub open spec fn top_index(s: Seq<EntityNode>, id: Seq<char>) -> int
    decreases s.len(),
{
    if s.len() == 0 {
        -1
    } else if s.last().id@ == id && top_index(s.drop_last(), id) == -1 {
        s.len() - 1
    } else {
        top_index(s.drop_last(), id)
    }
}

proof fn lemma_top_index(s: Seq<EntityNode>, id: Seq<char>)
    ensures
        -1 <= top_index(s, id) < s.len(),
        top_index(s, id) >= 0 ==> s[top_index(s, id)].id@ == id,
        forall|j: int| 0 <= j < s.len() && (top_index(s, id) == -1 || j < top_index(s, id))
            ==> #[trigger] s[j].id@ != id,
    decreases s.len(),
{
    if s.len() > 0 {
        lemma_top_index(s.drop_last(), id);
        assert forall|j: int| 0 <= j < s.len() && (top_index(s, id) == -1 || j < top_index(s, id))
            implies #[trigger] s[j].id@ != id by {
            if j < s.len() - 1 {
                assert(s[j] == s.drop_last()[j]);
            }
        }
    }
}

/// The same entity with other children.
pub open spec fn same_but_children(a: EntityNode, b: EntityNode) -> bool {
    &&& a.id == b.id
    &&& a.name == b.name
    &&& a.prefab_source == b.prefab_source
    &&& a.components == b.components
}

/// `after` is `before` with the entity of the given id removed: the first
/// one at the top level if there is one; otherwise from within the first
/// entity whose children hold that id; unchanged when no entity has it.
pub open spec fn removed_from(before: Seq<EntityNode>, after: Seq<EntityNode>, id: Seq<char>) -> bool
    decreases before,
{
    let k = top_index(before, id);
    if k >= 0 {
        after == before.remove(k)
    } else {
        removed_below(before, after, id, 0)
    }
}

/// No entity of `before[from..]` has the id at the top level; the removal
/// happens inside the first of them whose children hold it.
pub open spec fn removed_below(before: Seq<EntityNode>, after: Seq<EntityNode>, id: Seq<char>, from: int) -> bool
    decreases before, before.len() - from,
{
    if from < 0 || from >= before.len() {
        after == before
    } else if find_in(before[from].children@, id) is Some {
        &&& after.len() == before.len()
        &&& forall|j: int| 0 <= j < before.len() && j != from ==> #[trigger] after[j] == before[j]
        &&& same_but_children(after[from], before[from])
        &&& removed_from(before[from].children@, after[from].children@, id)
    } else {
        removed_below(before, after, id, from + 1)
    }
}

fn top_index_exec(entities: &Vec<EntityNode>, id: &Vec<char>) -> (r: Option<usize>)
    ensures
        match r {
            Some(k) => k as int == top_index(entities@, id@),
            None => top_index(entities@, id@) == -1,
        },
{
    proof {
        lemma_top_index(entities@, id@);
    }
    let mut i: usize = 0;
    while i < entities.len()
        invariant
            i <= entities@.len(),
            forall|j: int| 0 <= j < i ==> #[trigger] entities@[j].id@ != id@,
            -1 <= top_index(entities@, id@) < entities@.len(),
            top_index(entities@, id@) >= 0 ==> entities@[top_index(entities@, id@)].id@ == id@,
            forall|j: int| 0 <= j < entities@.len() && (top_index(entities@, id@) == -1 || j < top_index(entities@, id@))
                ==> #[trigger] entities@[j].id@ != id@,
        decreases entities@.len() - i,
    {
        if chars_eq(&chars_of(entities[i].id.as_str()), id) {
            return Some(i);
        }
        i += 1;
    }
    None
}

proof fn lemma_find_some(s: Seq<EntityNode>, id: Seq<char>, k: int)
    requires
        0 <= k < s.len(),
        s[k].id@ == id,
    ensures
        find_in(s, id) is Some,
    decreases s.len(),
{
    if s[0].id@ != id && find_in(s[0].children@, id) is None {
        assert(s.drop_first()[k - 1] == s[k]);
        lemma_find_some(s.drop_first(), id, k - 1);
    }
}

proof fn lemma_find_skip(s: Seq<EntityNode>, id: Seq<char>, i: int)
    requires
        0 <= i <= s.len(),
        forall|j: int| 0 <= j < i ==> #[trigger] s[j].id@ != id && find_in(s[j].children@, id) is None,
    ensures
        find_in(s, id) == find_in(s.skip(i), id),
    decreases i,
{
    if i > 0 {
        assert(s.drop_first().skip(i - 1) == s.skip(i));
        assert forall|j: int| 0 <= j < i - 1 implies #[trigger] s.drop_first()[j].id@ != id
            && find_in(s.drop_first()[j].children@, id) is None by {
            assert(s.drop_first()[j] == s[j + 1]);
        }
        lemma_find_skip(s.drop_first(), id, i - 1);
    } else {
        assert(s.skip(0) == s);
    }
}

proof fn lemma_removed_below_skip(before: Seq<EntityNode>, after: Seq<EntityNode>, id: Seq<char>, j: int)
    requires
        0 <= j <= before.len(),
        forall|q: int| 0 <= q < j ==> find_in(#[trigger] before[q].children@, id) is None,
    ensures
        removed_below(before, after, id, 0) == removed_below(before, after, id, j),
    decreases j,
{
    if j > 0 {
        lemma_removed_below_skip(before, after, id, j - 1);
    }
}

fn remove_in_exec(entities: &mut Vec<EntityNode>, id: &Vec<char>) -> (r: bool)
    ensures
        removed_from(old(entities)@, final(entities)@, id@),
        r == (find_in(old(entities)@, id@) is Some),
    decreases old(entities)@,
{
    let ghost before = entities@;
    proof {
        lemma_top_index(before, id@);
    }
    match top_index_exec(entities, id) {
        Some(k) => {
            entities.remove(k);
            proof {
                lemma_find_some(before, id@, k as int);
            }
            true
        },
        None => {
            let mut j: usize = 0;
            while j < entities.len()
                invariant
                    entities@ == before,
                    before == old(entities)@,
                    top_index(before, id@) == -1,
                    j <= before.len(),
                    forall|q: int| 0 <= q < before.len() ==> #[trigger] before[q].id@ != id@,
                    forall|q: int| 0 <= q < j ==> find_in(#[trigger] before[q].children@, id@) is None,
                decreases before.len() - j,
            {
                if find_in_exec(entities[j].children.as_slice(), id).is_some() {
                    let mut node = entities.remove(j);
                    assert(node == before[j as int]);
                    let ghost old_node = node;
                    proof {
                        assert(decreases_to!(old(entities)@ => old(entities)@[j as int]));
                        assert(decreases_to!(old(entities)@[j as int] => old(entities)@[j as int].children));
                        assert(decreases_to!(old(entities)@[j as int].children => old(entities)@[j as int].children@));
                    }
                    let _ = remove_in_exec(&mut node.children, id);
                    assert(same_but_children(node, old_node));
                    assert(removed_from(old_node.children@, node.children@, id@));
                    entities.insert(j, node);
                    proof {
                        assert(entities@.len() == before.len());
                        assert(entities@[j as int] == node);
                        lemma_removed_below_skip(before, entities@, id@, j as int);
                        assert forall|q: int| 0 <= q < before.len() && q != j implies #[trigger] entities@[q] == before[q] by {}
                        assert(removed_below(before, entities@, id@, j as int));
                        assert forall|q: int| 0 <= q < j implies #[trigger] before[q].id@ != id@
                            && find_in(before[q].children@, id@) is None by {}
                        lemma_find_skip(before, id@, j as int);
                        assert(before.skip(j as int)[0] == before[j as int]);
                    }
                    return true;
                }
                j += 1;
            }
            proof {
                lemma_removed_below_skip(before, entities@, id@, j as int);
                assert forall|q: int| 0 <= q < j implies #[trigger] before[q].id@ != id@
                    && find_in(before[q].children@, id@) is None by {}
                lemma_find_skip(before, id@, j as int);
            }
            false
        },
    }
}

/// Removes the entity with the given id (searching the top level first,
/// then inside each entity in turn); says whether one was found.
pub fn remove_entity_by_id(entities: &mut Vec<EntityNode>, id: &str) -> (r: bool)
    ensures
        removed_from(old(entities)@, final(entities)@, id@),
        r == (find_in(old(entities)@, id@) is Some),
{
    remove_in_exec(entities, &chars_of(id))
}

proof fn lemma_find_none(s: Seq<EntityNode>, id: Seq<char>)
    requires
        find_in(s, id) is None,
    ensures
        forall|j: int| #![trigger s[j]] 0 <= j < s.len() ==> s[j].id@ != id && find_in(s[j].children@, id) is None,
    decreases s.len(),
{
    if s.len() > 0 {
        lemma_find_none(s.drop_first(), id);
        assert forall|j: int| #![trigger s[j]] 0 <= j < s.len() implies s[j].id@ != id && find_in(s[j].children@, id) is None by {
            if j > 0 {
                assert(s[j] == s.drop_first()[j - 1]);
            }
        }
    }
}

/// Removing an id that no entity has leaves the entities as they were.
pub proof fn law_remove_absent_is_noop(before: Seq<EntityNode>, after: Seq<EntityNode>, id: Seq<char>)
    requires
        find_in(before, id) is None,
        removed_from(before, after, id),
    ensures
        after == before,
{
    lemma_find_none(before, id);
    lemma_top_index(before, id);
    if top_index(before, id) >= 0 {
        assert(before[top_index(before, id)].id@ == id);
    }
    assert forall|q: int| 0 <= q < before.len() implies find_in(#[trigger] before[q].children@, id) is None by {
        assert(before[q].id@ != id);
    }
    lemma_removed_below_skip(before, after, id, before.len() as int);
}

} // verus!
