use cuttle::components::arena::IndexArena;

struct Marker;

#[test]
fn arena_issues_fresh_indices_in_order() {
    let mut arena = IndexArena::<Marker>::new(3);
    assert_eq!(arena.position, 3);
    assert_eq!(arena.get(), 0);
    assert_eq!(arena.get(), 1);
    assert_eq!(arena.get(), 2);
    assert_eq!(arena.max, 3);
}

#[test]
fn arena_reuses_the_last_released_index() {
    let mut arena = IndexArena::<Marker>::new(0);
    arena.get();
    arena.get();
    arena.get();
    arena.release(0);
    arena.release(2);
    assert_eq!(arena.available(), &vec![0, 2]);
    assert_eq!(arena.get(), 2);
    assert_eq!(arena.get(), 0);
    assert_eq!(arena.get(), 3);
    assert_eq!(arena.max, 4);
}

#[test]
fn reachable_arena_never_hands_out_a_held_index() {
    let mut arena = IndexArena::<Marker>::new(1);
    let mut held = Vec::new();
    for step in 0..40u32 {
        if step % 3 == 2 && !held.is_empty() {
            let id = held.remove((step as usize * 7) % held.len());
            arena.release(id);
        } else {
            let id = arena.get();
            assert!(!held.contains(&id));
            assert!(id < arena.max);
            held.push(id);
        }
    }
    for id in arena.available() {
        assert!(!held.contains(id));
        assert!(*id < arena.max);
    }
}
