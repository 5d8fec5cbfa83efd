//! Collision contacts between frames: which contacts of an entity begin,
//! go on and end, each listed in name order without repetitions.
use vstd::prelude::*;
use crate::editor::lemma_contains_push;
use crate::store::{has_key, keys_unique, KeyedStore};
use crate::text::{
    chars_eq, chars_of, lemma_lex_asymmetric, lemma_lex_irreflexive, lemma_lex_total, lemma_lex_transitive, lex_lt,
    lex_lt_exec, string_views,
};

verus! {

/// In strictly increasing text order (so without repetitions).
pub open spec fn sorted_strict(s: Seq<Seq<char>>) -> bool {
    forall|i: int, j: int| 0 <= i < j < s.len() ==> lex_lt(#[trigger] s[i], #[trigger] s[j])
}

/// `r` lists, in increasing text order, exactly the texts `keep` holds of.
pub open spec fn is_listing(r: Seq<Seq<char>>, keep: spec_fn(Seq<char>) -> bool) -> bool {
    &&& sorted_strict(r)
    &&& forall|s: Seq<char>| #[trigger] r.contains(s) <==> keep(s)
}

/// Two listings of the same texts are the same: a listing pins its
/// sequence down.
pub proof fn law_listing_is_unique(a: Seq<Seq<char>>, b: Seq<Seq<char>>, keep: spec_fn(Seq<char>) -> bool)
    requires
        is_listing(a, keep),
        is_listing(b, keep),
    ensures
        a == b,
    decreases a.len() + b.len(),
{
    if a.len() > 0 && b.len() > 0 {
        assert(a.contains(a[0]));
        assert(b.contains(b[0]));
        assert(b.contains(a[0]));
        assert(a.contains(b[0]));
        let ia = choose|i: int| 0 <= i < a.len() && a[i] == b[0];
        let ib = choose|i: int| 0 <= i < b.len() && b[i] == a[0];
        if a[0] != b[0] {
            assert(ia > 0 && ib > 0);
            assert(lex_lt(a[0], a[ia]));
            assert(lex_lt(b[0], b[ib]));
            lemma_lex_asymmetric(a[0], b[0]);
        }
        let x = a[0];
        let ka = |s: Seq<char>| keep(s) && s != x;
        assert forall|s: Seq<char>| #[trigger] a.drop_first().contains(s) <==> ka(s) by {
            if a.drop_first().contains(s) {
                let k = choose|k: int| 0 <= k < a.drop_first().len() && a.drop_first()[k] == s;
                assert(a[k + 1] == s);
                assert(a.contains(s));
                assert(lex_lt(a[0], a[k + 1]));
                lemma_lex_irreflexive(x);
                assert(ka(s));
            }
            if ka(s) {
                assert(a.contains(s));
                let k = choose|k: int| 0 <= k < a.len() && a[k] == s;
                assert(k != 0);
                assert(a.drop_first()[k - 1] == s);
                assert(a.drop_first().contains(s));
            }
        }
        assert forall|s: Seq<char>| #[trigger] b.drop_first().contains(s) <==> ka(s) by {
            if b.drop_first().contains(s) {
                let k = choose|k: int| 0 <= k < b.drop_first().len() && b.drop_first()[k] == s;
                assert(b[k + 1] == s);
                assert(b.contains(s));
                assert(lex_lt(b[0], b[k + 1]));
                lemma_lex_irreflexive(x);
                assert(ka(s));
            }
            if ka(s) {
                assert(b.contains(s));
                let k = choose|k: int| 0 <= k < b.len() && b[k] == s;
                assert(k != 0);
                assert(b.drop_first()[k - 1] == s);
                assert(b.drop_first().contains(s));
            }
        }
        assert(sorted_strict(a.drop_first())) by {
            assert forall|i: int, j: int| 0 <= i < j < a.drop_first().len() implies lex_lt(
                #[trigger] a.drop_first()[i],
                #[trigger] a.drop_first()[j],
            ) by {
                assert(a.drop_first()[i] == a[i + 1] && a.drop_first()[j] == a[j + 1]);
            }
        }
        assert(sorted_strict(b.drop_first())) by {
            assert forall|i: int, j: int| 0 <= i < j < b.drop_first().len() implies lex_lt(
                #[trigger] b.drop_first()[i],
                #[trigger] b.drop_first()[j],
            ) by {
                assert(b.drop_first()[i] == b[i + 1] && b.drop_first()[j] == b[j + 1]);
            }
        }
        law_listing_is_unique(a.drop_first(), b.drop_first(), ka);
        assert(a =~= seq![a[0]] + a.drop_first());
        assert(b =~= seq![b[0]] + b.drop_first());
    } else if a.len() > 0 {
        assert(a.contains(a[0]));
        assert(b.contains(a[0]));
    } else if b.len() > 0 {
        assert(b.contains(b[0]));
        assert(a.contains(b[0]));
    }
}

fn text_eq(a: &String, b: &str) -> (r: bool)
    ensures
        r == (a@ == b@),
{
    chars_eq(&chars_of(a.as_str()), &chars_of(b))
}

/// Whether `v` holds the text `x`.
fn holds(v: &Vec<String>, x: &str) -> (r: bool)
    ensures
        r == string_views(v@).contains(x@),
{
    let ghost views = string_views(v@);
    for i in 0..v.len()
        invariant
            views == string_views(v@),
            forall|k: int| 0 <= k < i ==> #[trigger] views[k] != x@,
    {
        assert(views[i as int] == v@[i as int]@);
        if text_eq(&v[i], x) {
            assert(views.contains(x@));
            return true;
        }
    }
    false
}

/// Adds `x` to a sorted list unless it is there, keeping it sorted.
fn insert_sorted(v: &mut Vec<String>, x: &str)
    requires
        sorted_strict(string_views(old(v)@)),
    ensures
        sorted_strict(string_views(final(v)@)),
        forall|s: Seq<char>| #[trigger] string_views(final(v)@).contains(s) <==> (string_views(old(v)@).contains(s) || s == x@),
{
    let ghost old_views = string_views(v@);
    let xs = chars_of(x);
    let mut p: usize = 0;
    while p < v.len() && lex_lt_exec(&chars_of(v[p].as_str()), &xs)
        invariant
            old_views == string_views(v@),
            p <= v.len(),
            xs@ == x@,
            forall|k: int| 0 <= k < p ==> lex_lt(#[trigger] old_views[k], x@),
        decreases v.len() - p,
    {
        assert(old_views[p as int] == v@[p as int]@);
        p += 1;
    }
    if p < v.len() && text_eq(&v[p], x) {
        assert(old_views[p as int] == x@);
        assert forall|s: Seq<char>| #[trigger] string_views(v@).contains(s) <==> (old_views.contains(s) || s == x@) by {
            if s == x@ {
                assert(old_views[p as int] == s);
            }
        }
        return;
    }
    proof {
        if p < v.len() {
            assert(old_views[p as int] == v@[p as int]@);
            assert(!lex_lt(old_views[p as int], x@));
            assert(old_views[p as int] != x@);
            lemma_lex_total(old_views[p as int], x@);
        }
    }
    let ghost before = v@;
    v.insert(p, String::from_str(x));
    let ghost nv = string_views(v@);
    assert(nv =~= old_views.insert(p as int, x@)) by {
        assert forall|k: int| 0 <= k < nv.len() implies nv[k] == old_views.insert(p as int, x@)[k] by {
            if k < p {
                assert(v@[k] == before[k]);
            } else if k > p {
                assert(v@[k] == before[k - 1]);
            }
        }
    }
    assert forall|i: int, j: int| 0 <= i < j < nv.len() implies lex_lt(#[trigger] nv[i], #[trigger] nv[j]) by {
        if j < p {
            assert(nv[i] == old_views[i] && nv[j] == old_views[j]);
        } else if j == p {
            assert(nv[i] == old_views[i]);
        } else if i < p {
            assert(nv[i] == old_views[i] && nv[j] == old_views[j - 1]);
            assert(lex_lt(old_views[i], x@));
            assert(lex_lt(x@, old_views[p as int]));
            lemma_lex_transitive(old_views[i], x@, old_views[p as int]);
            if j - 1 > p {
                lemma_lex_transitive(old_views[i], old_views[p as int], old_views[j - 1]);
            }
        } else if i == p {
            assert(nv[j] == old_views[j - 1]);
            if j - 1 > p {
                lemma_lex_transitive(x@, old_views[p as int], old_views[j - 1]);
            }
        } else {
            assert(nv[i] == old_views[i - 1] && nv[j] == old_views[j - 1]);
        }
    }
    assert forall|s: Seq<char>| #[trigger] nv.contains(s) <==> (old_views.contains(s) || s == x@) by {
        if nv.contains(s) {
            let k = choose|k: int| 0 <= k < nv.len() && nv[k] == s;
            if k < p {
                assert(old_views[k] == s);
            } else if k > p {
                assert(old_views[k - 1] == s);
            }
        }
        if old_views.contains(s) {
            let k = choose|k: int| 0 <= k < old_views.len() && old_views[k] == s;
            if k < p {
                assert(nv[k] == s);
            } else {
                assert(nv[k + 1] == s);
            }
        }
        if s == x@ {
            assert(nv[p as int] == s);
        }
    }
}

proof fn lemma_take_step(v: Seq<Seq<char>>, i: int)
    requires
        0 <= i < v.len(),
    ensures
        forall|s: Seq<char>| #[trigger] v.take(i + 1).contains(s) <==> (v.take(i).contains(s) || s == v[i]),
{
    assert(v.take(i + 1) =~= v.take(i).push(v[i]));
    assert forall|s: Seq<char>| #[trigger] v.take(i + 1).contains(s) <==> (v.take(i).contains(s) || s == v[i]) by {
        lemma_contains_push(v.take(i), v[i], s);
    }
}

/// The contacts of one entity that begin (now but not before), go on (now
/// and before) and end (before but not now).
#[derive(Debug)]
pub struct ContactEvents {
    pub enter: Vec<String>,
    pub stay: Vec<String>,
    pub exit: Vec<String>,
}

pub open spec fn begins(current: Seq<Seq<char>>, previous: Seq<Seq<char>>) -> spec_fn(Seq<char>) -> bool {
    |s: Seq<char>| current.contains(s) && !previous.contains(s)
}

pub open spec fn goes_on(current: Seq<Seq<char>>, previous: Seq<Seq<char>>) -> spec_fn(Seq<char>) -> bool {
    |s: Seq<char>| current.contains(s) && previous.contains(s)
}

pub open spec fn events_match(e: ContactEvents, current: Seq<Seq<char>>, previous: Seq<Seq<char>>) -> bool {
    &&& is_listing(string_views(e.enter@), begins(current, previous))
    &&& is_listing(string_views(e.stay@), goes_on(current, previous))
    &&& is_listing(string_views(e.exit@), begins(previous, current))
}

/// The contacts that begin, go on and end, from this frame's and the
/// previous frame's contact names.
pub fn contact_events(current: &Vec<String>, previous: &Vec<String>) -> (r: ContactEvents)
    ensures
        events_match(r, string_views(current@), string_views(previous@)),
{
    let ghost cur = string_views(current@);
    let ghost prev = string_views(previous@);
    let mut enter: Vec<String> = Vec::new();
    let mut stay: Vec<String> = Vec::new();
    let mut exit: Vec<String> = Vec::new();
    assert(string_views(enter@) =~= Seq::<Seq<char>>::empty());
    assert(string_views(stay@) =~= Seq::<Seq<char>>::empty());
    assert(string_views(exit@) =~= Seq::<Seq<char>>::empty());
    for i in 0..current.len()
        invariant
            cur == string_views(current@),
            prev == string_views(previous@),
            sorted_strict(string_views(enter@)),
            sorted_strict(string_views(stay@)),
            forall|s: Seq<char>| #[trigger] string_views(enter@).contains(s) <==> (cur.take(i as int).contains(s)
                && !prev.contains(s)),
            forall|s: Seq<char>| #[trigger] string_views(stay@).contains(s) <==> (cur.take(i as int).contains(s)
                && prev.contains(s)),
    {
        let name = current[i].as_str();
        assert(cur[i as int] == name@);
        proof {
            lemma_take_step(cur, i as int);
        }
        if holds(previous, name) {
            insert_sorted(&mut stay, name);
        } else {
            insert_sorted(&mut enter, name);
        }
    }
    assert(cur.take(current.len() as int) =~= cur);
    for i in 0..previous.len()
        invariant
            cur == string_views(current@),
            prev == string_views(previous@),
            sorted_strict(string_views(exit@)),
            forall|s: Seq<char>| #[trigger] string_views(exit@).contains(s) <==> (prev.take(i as int).contains(s)
                && !cur.contains(s)),
    {
        let name = previous[i].as_str();
        assert(prev[i as int] == name@);
        proof {
            lemma_take_step(prev, i as int);
        }
        if !holds(current, name) {
            insert_sorted(&mut exit, name);
        }
    }
    assert(prev.take(previous.len() as int) =~= prev);
    let r = ContactEvents { enter, stay, exit };
    assert(events_match(r, cur, prev)) by {
        assert forall|s: Seq<char>| #[trigger] string_views(r.enter@).contains(s) <==> begins(cur, prev)(s) by {}
        assert forall|s: Seq<char>| #[trigger] string_views(r.stay@).contains(s) <==> goes_on(cur, prev)(s) by {}
        assert forall|s: Seq<char>| #[trigger] string_views(r.exit@).contains(s) <==> begins(prev, cur)(s) by {}
    }
    r
}

// ── per entity ───────────────────────────────────────────────

/// The contact names of entity `k` in a contact map (none when absent).
pub open spec fn names_at(m: Map<Seq<char>, Vec<String>>, k: Seq<char>) -> Seq<Seq<char>> {
    if m.dom().contains(k) {
        string_views(m[k]@)
    } else {
        seq![]
    }
}

/// Which names an event list holds: 0 begin, 1 go on, 2 end.
pub open spec fn kind_keep(kind: int, current: Seq<Seq<char>>, previous: Seq<Seq<char>>) -> spec_fn(Seq<char>) -> bool {
    if kind == 0 {
        begins(current, previous)
    } else if kind == 1 {
        goes_on(current, previous)
    } else {
        begins(previous, current)
    }
}

/// `ev` maps exactly the entities that have a contact of this kind to the
/// listing of those contacts.
pub open spec fn map_matches(
    ev: Map<Seq<char>, Vec<String>>,
    current: Map<Seq<char>, Vec<String>>,
    previous: Map<Seq<char>, Vec<String>>,
    kind: int,
) -> bool {
    &&& forall|k: Seq<char>|
        #[trigger] ev.dom().contains(k) ==> string_views(ev[k]@).len() > 0 && is_listing(
            string_views(ev[k]@),
            kind_keep(kind, names_at(current, k), names_at(previous, k)),
        )
    &&& forall|k: Seq<char>, s: Seq<char>|
        #![trigger kind_keep(kind, names_at(current, k), names_at(previous, k))(s)]
        kind_keep(kind, names_at(current, k), names_at(previous, k))(s) ==> ev.dom().contains(k)
}

/// The contacts of every entity that begin, go on and end this frame;
/// an entity without contacts of a kind has no entry for it.
pub struct CollisionEvents {
    pub enter: KeyedStore<Vec<String>>,
    pub stay: KeyedStore<Vec<String>>,
    pub exit: KeyedStore<Vec<String>>,
}

proof fn lemma_listing_nonempty(r: Seq<Seq<char>>, keep: spec_fn(Seq<char>) -> bool, s: Seq<char>)
    requires
        is_listing(r, keep),
    ensures
        keep(s) ==> r.len() > 0,
        r.len() == 0 ==> !keep(s),
{
    if keep(s) {
        assert(r.contains(s));
    }
}

/// Adds the events of one kind for entity `id` when there are any.
fn add_events(
    ev: &mut KeyedStore<Vec<String>>,
    id: &String,
    names: Vec<String>,
    Ghost(keep): Ghost<spec_fn(Seq<char>) -> bool>,
)
    requires
        old(ev).wf(),
        is_listing(string_views(names@), keep),
    ensures
        final(ev).wf(),
        names@.len() > 0 ==> final(ev)@ == old(ev)@.insert(id@, names),
        names@.len() == 0 ==> final(ev)@ == old(ev)@,
        forall|s: Seq<char>| #[trigger] keep(s) ==> final(ev)@.dom().contains(id@),
{
    if names.len() > 0 {
        ev.insert(String::from_str(id.as_str()), names);
    } else {
        proof {
            assert forall|s: Seq<char>| #[trigger] keep(s) implies ev@.dom().contains(id@) by {
                lemma_listing_nonempty(string_views(names@), keep, s);
            }
        }
    }
}

/// Compares this frame's contacts with the previous frame's, per entity.
pub fn rebuild_collision_events(
    current: &KeyedStore<Vec<String>>,
    previous: &KeyedStore<Vec<String>>,
) -> (r: CollisionEvents)
    requires
        current.wf(),
        previous.wf(),
    ensures
        r.enter.wf(),
        r.stay.wf(),
        r.exit.wf(),
        map_matches(r.enter@, current@, previous@, 0),
        map_matches(r.stay@, current@, previous@, 1),
        map_matches(r.exit@, current@, previous@, 2),
{
    let ghost cm = current@;
    let ghost pm = previous@;
    let mut enter: KeyedStore<Vec<String>> = KeyedStore::new();
    let mut stay: KeyedStore<Vec<String>> = KeyedStore::new();
    let mut exit: KeyedStore<Vec<String>> = KeyedStore::new();
    let cur = current.entries();
    for i in 0..cur.len()
        invariant
            cm == current@,
            pm == previous@,
            current.wf(),
            previous.wf(),
            enter.wf(),
            stay.wf(),
            exit.wf(),
            keys_unique(cur@),
            forall|t: int| 0 <= t < cur@.len() ==> #[trigger] cm.dom().contains(cur@[t].0@) && cm[cur@[t].0@] == cur@[t].1,
            forall|k: Seq<char>| #[trigger] enter@.dom().contains(k) ==> cm.dom().contains(k) && has_key(cur@.take(i as int), k),
            forall|k: Seq<char>| #[trigger] stay@.dom().contains(k) ==> cm.dom().contains(k) && has_key(cur@.take(i as int), k),
            forall|k: Seq<char>| #[trigger] exit@.dom().contains(k) ==> cm.dom().contains(k) && has_key(cur@.take(i as int), k),
            forall|k: Seq<char>| #[trigger] enter@.dom().contains(k) ==> string_views(enter@[k]@).len() > 0 && is_listing(string_views(enter@[k]@), kind_keep(0, names_at(cm, k), names_at(pm, k))),
            forall|k: Seq<char>| #[trigger] stay@.dom().contains(k) ==> string_views(stay@[k]@).len() > 0 && is_listing(string_views(stay@[k]@), kind_keep(1, names_at(cm, k), names_at(pm, k))),
            forall|k: Seq<char>| #[trigger] exit@.dom().contains(k) ==> string_views(exit@[k]@).len() > 0 && is_listing(string_views(exit@[k]@), kind_keep(2, names_at(cm, k), names_at(pm, k))),
            forall|t: int, s: Seq<char>| 0 <= t < i && #[trigger] kind_keep(0, names_at(cm, cur@[t].0@), names_at(pm, cur@[t].0@))(s) ==> enter@.dom().contains(cur@[t].0@),
            forall|t: int, s: Seq<char>| 0 <= t < i && #[trigger] kind_keep(1, names_at(cm, cur@[t].0@), names_at(pm, cur@[t].0@))(s) ==> stay@.dom().contains(cur@[t].0@),
            forall|t: int, s: Seq<char>| 0 <= t < i && #[trigger] kind_keep(2, names_at(cm, cur@[t].0@), names_at(pm, cur@[t].0@))(s) ==> exit@.dom().contains(cur@[t].0@),
    {
        let id = &cur[i].0;
        let names = &cur[i].1;
        let ghost k = id@;
        let empty: Vec<String> = Vec::new();
        let prev_names = match previous.get(id.as_str()) {
            Some(v) => v,
            None => &empty,
        };
        assert(string_views(names@) == names_at(cm, k));
        assert(string_views(prev_names@) =~= names_at(pm, k));
        let ev = contact_events(names, prev_names);
        let ghost e0 = enter@;
        let ghost s0 = stay@;
        let ghost x0 = exit@;
        add_events(&mut enter, id, ev.enter, Ghost(kind_keep(0, names_at(cm, k), names_at(pm, k))));
        add_events(&mut stay, id, ev.stay, Ghost(kind_keep(1, names_at(cm, k), names_at(pm, k))));
        add_events(&mut exit, id, ev.exit, Ghost(kind_keep(2, names_at(cm, k), names_at(pm, k))));
        proof {
            assert(cur@.take(i + 1) =~= cur@.take(i as int).push(cur@[i as int]));
            assert forall|q: Seq<char>| has_key(cur@.take(i as int), q) implies has_key(cur@.take(i + 1), q) by {
                let w = choose|w: int| 0 <= w < cur@.take(i as int).len() && #[trigger] cur@.take(i as int)[w].0@ == q;
                assert(cur@.take(i + 1)[w] == cur@.take(i as int)[w]);
            }
            assert(has_key(cur@.take(i + 1), k)) by {
                assert(cur@.take(i + 1)[i as int].0@ == k);
            }
        }
    }
    proof {
        assert(cur@.take(cur@.len() as int) =~= cur@);
    }
    let prev = previous.entries();
    for j in 0..prev.len()
        invariant
            cm == current@,
            pm == previous@,
            current.wf(),
            previous.wf(),
            enter.wf(),
            stay.wf(),
            exit.wf(),
            keys_unique(prev@),
            forall|t: int| 0 <= t < prev@.len() ==> #[trigger] pm.dom().contains(prev@[t].0@) && pm[prev@[t].0@] == prev@[t].1,
            forall|k: Seq<char>| #[trigger] cm.dom().contains(k) ==> has_key(cur@, k),
            forall|k: Seq<char>| #[trigger] enter@.dom().contains(k) ==> string_views(enter@[k]@).len() > 0 && is_listing(string_views(enter@[k]@), kind_keep(0, names_at(cm, k), names_at(pm, k))),
            forall|k: Seq<char>| #[trigger] stay@.dom().contains(k) ==> string_views(stay@[k]@).len() > 0 && is_listing(string_views(stay@[k]@), kind_keep(1, names_at(cm, k), names_at(pm, k))),
            forall|k: Seq<char>| #[trigger] exit@.dom().contains(k) ==> string_views(exit@[k]@).len() > 0 && is_listing(string_views(exit@[k]@), kind_keep(2, names_at(cm, k), names_at(pm, k))),
            forall|t: int, s: Seq<char>| 0 <= t < cur@.len() && #[trigger] kind_keep(0, names_at(cm, cur@[t].0@), names_at(pm, cur@[t].0@))(s) ==> enter@.dom().contains(cur@[t].0@),
            forall|t: int, s: Seq<char>| 0 <= t < cur@.len() && #[trigger] kind_keep(1, names_at(cm, cur@[t].0@), names_at(pm, cur@[t].0@))(s) ==> stay@.dom().contains(cur@[t].0@),
            forall|t: int, s: Seq<char>| 0 <= t < cur@.len() && #[trigger] kind_keep(2, names_at(cm, cur@[t].0@), names_at(pm, cur@[t].0@))(s) ==> exit@.dom().contains(cur@[t].0@),
            forall|t: int, s: Seq<char>| 0 <= t < j && #[trigger] kind_keep(2, names_at(cm, prev@[t].0@), names_at(pm, prev@[t].0@))(s) ==> exit@.dom().contains(prev@[t].0@),
    {
        let id = &prev[j].0;
        let names = &prev[j].1;
        let ghost k = id@;
        if !current.contains_key(id.as_str()) {
            let empty: Vec<String> = Vec::new();
            assert(string_views(empty@) =~= names_at(cm, k));
            assert(string_views(names@) == names_at(pm, k));
            let ev = contact_events(&empty, names);
            add_events(&mut exit, id, ev.exit, Ghost(kind_keep(2, names_at(cm, k), names_at(pm, k))));
        } else {
            proof {
                assert(has_key(cur@, k));
                let t = choose|t: int| 0 <= t < cur@.len() && #[trigger] cur@[t].0@ == k;
                assert forall|s: Seq<char>| #[trigger] kind_keep(2, names_at(cm, k), names_at(pm, k))(s) implies exit@.dom().contains(k) by {
                    assert(kind_keep(2, names_at(cm, cur@[t].0@), names_at(pm, cur@[t].0@))(s));
                }
            }
        }
    }
    proof {
        assert forall|k: Seq<char>, s: Seq<char>| #[trigger] kind_keep(0, names_at(cm, k), names_at(pm, k))(s) implies enter@.dom().contains(k) by {
            if cm.dom().contains(k) {
                let t = choose|t: int| 0 <= t < cur@.len() && #[trigger] cur@[t].0@ == k;
                assert(kind_keep(0, names_at(cm, cur@[t].0@), names_at(pm, cur@[t].0@))(s));
            }
        }
        assert forall|k: Seq<char>, s: Seq<char>| #[trigger] kind_keep(1, names_at(cm, k), names_at(pm, k))(s) implies stay@.dom().contains(k) by {
            if cm.dom().contains(k) {
                let t = choose|t: int| 0 <= t < cur@.len() && #[trigger] cur@[t].0@ == k;
                assert(kind_keep(1, names_at(cm, cur@[t].0@), names_at(pm, cur@[t].0@))(s));
            }
        }
        assert forall|k: Seq<char>, s: Seq<char>| #[trigger] kind_keep(2, names_at(cm, k), names_at(pm, k))(s) implies exit@.dom().contains(k) by {
            if cm.dom().contains(k) {
                let t = choose|t: int| 0 <= t < cur@.len() && #[trigger] cur@[t].0@ == k;
                assert(kind_keep(2, names_at(cm, cur@[t].0@), names_at(pm, cur@[t].0@))(s));
            } else if pm.dom().contains(k) {
                assert(has_key(prev@, k));
                let t = choose|t: int| 0 <= t < prev@.len() && #[trigger] prev@[t].0@ == k;
                assert(kind_keep(2, names_at(cm, prev@[t].0@), names_at(pm, prev@[t].0@))(s));
            }
        }
    }
    CollisionEvents { enter, stay, exit }
}

} // verus!
