use ream::typechecker::{Arena, ArenaId, NodeId, Type, TypeEngine, TypeId};

#[test]
fn ids_keep_their_number() {
    assert_eq!(TypeId::from_u32(7).as_u32(), 7);
    assert_eq!(NodeId::from_u32(0).as_u32(), 0);
}

#[test]
fn arena_add_numbers_items_by_count() {
    let mut arena: Arena<Type, TypeId> = Arena::new();
    let first = arena.add(Type::Int);
    let second = arena.add(Type::Bool);
    assert_eq!(first.as_u32(), 1);
    assert_eq!(second.as_u32(), 2);
    assert!(matches!(arena.get(TypeId::from_u32(0)), Type::Int));
    assert!(matches!(arena.get(first), Type::Bool));
}

#[test]
fn type_engine_starts_empty() {
    let _engine = TypeEngine::new();
}
