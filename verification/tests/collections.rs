use swat::resolver::{entity_less, ordered_pair, push_event_id, EntityRef, ResolvedEntityKind};
use swat::model::EventId;
use swat::strmap::{string_lt, StrMap};

#[test]
fn string_maps_keep_keys_in_string_order() {
    let mut m: StrMap<u32> = StrMap::new();
    m.insert("pear", 1);
    m.insert("apple", 2);
    m.insert("Zebra", 3);
    m.insert("apple", 4);
    assert_eq!(m.len(), 3);
    assert_eq!(m.keys(), vec!["Zebra".to_string(), "apple".to_string(), "pear".to_string()]);
    assert_eq!(m.get("apple"), Some(&4));
    assert_eq!(m.take("pear"), Some(1));
    assert!(!m.contains_key("pear"));
    assert!(string_lt("ab", "abc") && !string_lt("b", "abc"));
}

#[test]
fn entities_order_by_kind_then_name() {
    let a = EntityRef { kind: ResolvedEntityKind::ToolName, name: "web".to_string() };
    let b = EntityRef { kind: ResolvedEntityKind::SpanId, name: "zzz".to_string() };
    assert!(entity_less(&b, &a));
    assert_eq!(ordered_pair(a.clone(), b.clone()), (b, a));
    let mut ids = vec![EventId(1)];
    push_event_id(&mut ids, EventId(1));
    push_event_id(&mut ids, EventId(2));
    assert_eq!(ids, vec![EventId(1), EventId(2)]);
}
