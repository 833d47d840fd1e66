use peroxide::arena::Arena;

#[derive(Debug, PartialEq)]
enum Value {
    EmptyList,
    Real(f64),
}

#[test]
fn add_empty() {
    let mut arena = Arena::new();
    assert_eq!(0, arena.intern(Value::EmptyList));
}

#[test]
fn add_remove() {
    let mut arena = Arena::new();
    assert_eq!(0, arena.intern(Value::EmptyList));
    assert_eq!(1, arena.intern(Value::EmptyList));
    assert_eq!(2, arena.intern(Value::EmptyList));
    arena.free(1);
    assert_eq!(1, arena.intern(Value::EmptyList));
}

#[test]
fn get() {
    let mut arena = Arena::new();
    assert_eq!(0, arena.intern(Value::Real(0.1)));
    assert_eq!(Value::Real(0.1), *arena.value_ref(0));
}

#[test]
fn reuse_lowest_free_slot() {
    let mut arena = Arena::new();
    assert_eq!(0, arena.intern(Value::EmptyList));
    assert_eq!(1, arena.intern(Value::EmptyList));
    assert_eq!(2, arena.intern(Value::EmptyList));
    arena.free(2);
    arena.free(0);
    assert_eq!(0, arena.intern(Value::Real(1.5)));
    assert_eq!(2, arena.intern(Value::Real(2.5)));
    assert_eq!(3, arena.intern(Value::Real(3.5)));
    assert_eq!(Value::Real(1.5), *arena.value_ref(0));
    assert_eq!(Value::Real(2.5), *arena.value_ref(2));
    assert_eq!(Value::Real(3.5), *arena.value_ref(3));
}
