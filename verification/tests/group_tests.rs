use rust_expect::multi::group::{GroupBuilder, GroupManager, SessionGroup};

#[test]
fn group_basic() {
    let mut group = SessionGroup::new("test");
    let id1 = group.add("server1");
    let id2 = group.add("server2");

    assert_eq!(group.len(), 2);
    assert_eq!(group.label(id1), Some("server1"));
    assert_eq!(group.label(id2), Some("server2"));
}

#[test]
fn group_builder() {
    let group = GroupBuilder::new("servers").add("server1").add("server2").add("server3").build();

    assert_eq!(group.name(), "servers");
    assert_eq!(group.len(), 3);
}

#[test]
fn group_manager() {
    let mut manager = GroupManager::new();
    manager.create("web").add("web1");
    manager.create("db").add("db1");

    assert_eq!(manager.names().len(), 2);
    assert_eq!(manager.total_sessions(), 2);
}

#[test]
fn group_active() {
    let mut group = SessionGroup::new("test");
    let id = group.add("server");

    assert_eq!(group.active_count(), 1);

    group.set_active(id, false);
    assert_eq!(group.active_count(), 0);
}

#[test]
fn group_output_and_remove() {
    let mut group = SessionGroup::new("g");
    let a = group.add("a");
    let b = group.add("b");
    group.append_output(a, "hello ");
    group.append_output(a, "world");
    assert_eq!(group.output(a), Some("hello world"));
    group.remove(a);
    assert_eq!(group.label(a), None);
    assert_eq!(group.session_ids(), vec![b]);
    let mut manager = GroupManager::new();
    manager.create("x");
    assert!(manager.get("x").is_some());
    assert!(manager.remove("x").is_some());
    assert!(manager.get("x").is_none());
}

#[test]
fn group_manager_get_mut_changes_the_group() {
    let mut manager = GroupManager::new();
    manager.create("web");
    {
        let g = manager.get_mut("web").unwrap();
        g.add("server1");
        g.add("server2");
    }
    assert_eq!(manager.get("web").unwrap().len(), 2);
    assert!(manager.get_mut("db").is_none());
}

#[test]
fn group_for_each_visits_active_sessions_in_order() {
    let mut group = SessionGroup::new("g");
    let a = group.add("a");
    let b = group.add("b");
    let c = group.add("c");
    group.set_active(b, false);
    let mut seen: Vec<(usize, String)> = Vec::new();
    group.for_each(|id, label| seen.push((id, label.to_string())));
    assert_eq!(seen, vec![(a, "a".to_string()), (c, "c".to_string())]);
}

#[test]
fn group_ids_are_never_reused() {
    let mut group = SessionGroup::new("g");
    let a = group.add("a");
    let b = group.add("b");
    group.remove(b);
    let c = group.add("c");
    assert!(c > b && b > a);
}
