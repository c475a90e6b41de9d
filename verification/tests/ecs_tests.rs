use clockwork::ecs::{Component, ComponentList, Entity};

#[test]
fn set_replaces_or_appends() {
    let mut list = ComponentList::new();
    let a = Entity::new(1, 0);
    let b = Entity::new(2, 5);
    list.set(&a, 10u8);
    list.set(&b, 20u8);
    list.set(&a, 11u8);
    assert_eq!(list.len(), 2);
    assert_eq!(*list.get(&a).unwrap().inner(), 11);
    assert_eq!(list.index_of(&b), Some(1));
    assert_eq!(list.index_of(&Entity::new(2, 6)), None);
    assert!(list.get(&Entity::new(3, 0)).is_none());
    assert_eq!(b.index(), 2);
}

#[test]
fn set_inner_at_keeps_entity_and_activity() {
    let mut list = ComponentList::new();
    let a = Entity::new(4, 1);
    list.set(&a, 1u32);
    list.set_inner_at(0, 9u32);
    let c: &Component<u32> = list.at(0);
    assert_eq!(c.entity_id(), a);
    assert!(c.is_active);
    assert_eq!(c.inner, 9);
}

#[test]
fn unset_removes_only_that_entity() {
    let mut list = ComponentList::new();
    let a = Entity::new(1, 0);
    let b = Entity::new(2, 0);
    let c = Entity::new(3, 0);
    list.set(&a, 'a');
    list.set(&b, 'b');
    list.set(&c, 'c');
    assert!(list.unset(&b));
    assert!(!list.unset(&b));
    assert_eq!(list.len(), 2);
    assert_eq!(list.at(0).entity_id(), a);
    assert_eq!(list.at(1).entity_id(), c);
    assert_eq!(*list.get(&c).unwrap().inner(), 'c');
}
