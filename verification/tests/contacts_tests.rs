use rs2br_engine::contacts::{contact_events, rebuild_collision_events};
use rs2br_engine::store::KeyedStore;

fn names(v: &[&str]) -> Vec<String> {
    v.iter().map(|s| s.to_string()).collect()
}

#[test]
fn contact_events_split_and_sort() {
    let e = contact_events(&names(&["Parede", "Chao", "Moeda", "Chao"]), &names(&["Inimigo", "Chao", "Agua"]));
    assert_eq!(e.enter, names(&["Moeda", "Parede"]));
    assert_eq!(e.stay, names(&["Chao"]));
    assert_eq!(e.exit, names(&["Agua", "Inimigo"]));
    let none = contact_events(&Vec::new(), &Vec::new());
    assert!(none.enter.is_empty() && none.stay.is_empty() && none.exit.is_empty());
    let order = contact_events(&names(&["b", "ab", "a", "B", "é"]), &Vec::new());
    assert_eq!(order.enter, names(&["B", "a", "ab", "b", "é"]));
}

#[test]
fn collision_events_per_entity() {
    let mut current: KeyedStore<Vec<String>> = KeyedStore::new();
    current.insert("heroi".to_string(), names(&["Chao", "Moeda"]));
    current.insert("caixa".to_string(), names(&["Chao"]));
    let mut previous: KeyedStore<Vec<String>> = KeyedStore::new();
    previous.insert("heroi".to_string(), names(&["Chao", "Inimigo"]));
    previous.insert("porta".to_string(), names(&["Heroi"]));
    let ev = rebuild_collision_events(&current, &previous);
    assert_eq!(ev.enter.get("heroi"), Some(&names(&["Moeda"])));
    assert_eq!(ev.enter.get("caixa"), Some(&names(&["Chao"])));
    assert_eq!(ev.stay.get("heroi"), Some(&names(&["Chao"])));
    assert_eq!(ev.stay.get("caixa"), None);
    assert_eq!(ev.exit.get("heroi"), Some(&names(&["Inimigo"])));
    assert_eq!(ev.exit.get("porta"), Some(&names(&["Heroi"])));
    assert_eq!(ev.exit.get("caixa"), None);
    assert!(ev.enter.get("porta").is_none());
}
