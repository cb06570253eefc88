use defunct::error::Error;
use defunct::heap::Heap;
use defunct::value::{Data, Env};

fn value_of(r: Result<Data, Error>) -> f64 {
    match r {
        Ok(Data::Float(bits)) => f64::from_bits(bits),
        other => panic!("not a number: {:?}", other),
    }
}

fn float(x: f64) -> Data {
    Data::Float(x.to_bits())
}

const PRIMITIVES: [&str; 12] =
    ["+", "*", "exit", "<", ">", "not", "-", "/", "cons", "car", "cdr", "length"];

#[test]
fn root_binds_every_primitive_to_itself() {
    let mut heap = Heap::new();
    let root = Env::new_root(&mut heap);
    for name in PRIMITIVES {
        match root.lookup(&name.to_string(), &heap) {
            Ok(Data::PrimitiveFn(n)) => assert_eq!(n, name),
            other => panic!("{} is bound to {:?}", name, other),
        }
    }
}

#[test]
fn root_binds_nothing_else() {
    let mut heap = Heap::new();
    let root = Env::new_root(&mut heap);
    for name in ["undefined_var", "", "define", "if", "quote", "Car", "++", "list"] {
        assert!(matches!(
            root.lookup(&name.to_string(), &heap),
            Err(Error::UnboundSymbol(n)) if n == name
        ));
    }
}

#[test]
fn root_is_one_new_frame() {
    let mut heap = Heap::new();
    assert_eq!(heap.frame_count(), 0);
    let first = Env::new_root(&mut heap);
    assert_eq!(first.0, 0);
    assert_eq!(heap.frame_count(), 1);
    let second = Env::new_root(&mut heap);
    assert_eq!(second.0, 1);
    assert_eq!(heap.frame_count(), 2);
    assert_eq!(heap.cell_count(), 0);
}

#[test]
fn insert_then_lookup() {
    let mut heap = Heap::new();
    let root = Env::new_root(&mut heap);
    root.insert("a".to_string(), float(1.0), &mut heap);
    assert_eq!(value_of(root.lookup(&"a".to_string(), &heap)), 1.0);
}

#[test]
fn insert_overwrites() {
    let mut heap = Heap::new();
    let root = Env::new_root(&mut heap);
    root.insert("a".to_string(), float(1.0), &mut heap);
    root.insert("a".to_string(), float(2.0), &mut heap);
    assert_eq!(value_of(root.lookup(&"a".to_string(), &heap)), 2.0);
    root.insert("car".to_string(), float(3.0), &mut heap);
    assert_eq!(value_of(root.lookup(&"car".to_string(), &heap)), 3.0);
}

#[test]
fn child_starts_empty_and_sees_its_parent() {
    let mut heap = Heap::new();
    let root = Env::new_root(&mut heap);
    root.insert("a".to_string(), float(1.0), &mut heap);
    let child = Env::new(root, &mut heap);
    assert_eq!(child.0, 1);
    assert_eq!(value_of(child.lookup(&"a".to_string(), &heap)), 1.0);
    assert!(matches!(child.lookup(&"cons".to_string(), &heap), Ok(Data::PrimitiveFn(_))));
    assert!(matches!(
        child.lookup(&"b".to_string(), &heap),
        Err(Error::UnboundSymbol(n)) if n == "b"
    ));
}

#[test]
fn child_binding_shadows_and_stays_in_the_child() {
    let mut heap = Heap::new();
    let root = Env::new_root(&mut heap);
    root.insert("a".to_string(), float(1.0), &mut heap);
    let child = Env::new(root, &mut heap);
    child.insert("a".to_string(), float(2.0), &mut heap);
    child.insert("b".to_string(), float(3.0), &mut heap);
    assert_eq!(value_of(child.lookup(&"a".to_string(), &heap)), 2.0);
    assert_eq!(value_of(root.lookup(&"a".to_string(), &heap)), 1.0);
    assert!(matches!(root.lookup(&"b".to_string(), &heap), Err(Error::UnboundSymbol(_))));
}

#[test]
fn later_binding_in_a_parent_is_seen_by_the_child() {
    let mut heap = Heap::new();
    let root = Env::new_root(&mut heap);
    let child = Env::new(root, &mut heap);
    let grandchild = Env::new(child, &mut heap);
    assert!(matches!(grandchild.lookup(&"late".to_string(), &heap), Err(_)));
    root.insert("late".to_string(), float(4.0), &mut heap);
    assert_eq!(value_of(grandchild.lookup(&"late".to_string(), &heap)), 4.0);
    child.insert("late".to_string(), float(5.0), &mut heap);
    assert_eq!(value_of(grandchild.lookup(&"late".to_string(), &heap)), 5.0);
}

#[test]
fn siblings_do_not_see_each_other() {
    let mut heap = Heap::new();
    let root = Env::new_root(&mut heap);
    let left = Env::new(root, &mut heap);
    let right = Env::new(root, &mut heap);
    left.insert("mine".to_string(), float(1.0), &mut heap);
    assert!(matches!(right.lookup(&"mine".to_string(), &heap), Err(Error::UnboundSymbol(_))));
}

#[test]
fn frame_that_does_not_exist_binds_nothing() {
    let mut heap = Heap::new();
    let nowhere = Env(7);
    assert!(matches!(
        nowhere.lookup(&"a".to_string(), &heap),
        Err(Error::UnboundSymbol(n)) if n == "a"
    ));
    nowhere.insert("a".to_string(), float(1.0), &mut heap);
    assert_eq!(heap.frame_count(), 0);
    assert!(matches!(nowhere.lookup(&"a".to_string(), &heap), Err(Error::UnboundSymbol(_))));
}

#[test]
fn child_of_a_frame_that_does_not_exist_stands_alone() {
    let mut heap = Heap::new();
    let child = Env::new(Env(5), &mut heap);
    child.insert("a".to_string(), float(1.0), &mut heap);
    assert_eq!(value_of(child.lookup(&"a".to_string(), &heap)), 1.0);
    assert!(matches!(child.lookup(&"b".to_string(), &heap), Err(Error::UnboundSymbol(_))));
}

#[test]
fn add_primitive_binds_the_name_to_the_primitive() {
    let mut heap = Heap::new();
    let root = Env::new_root(&mut heap);
    let child = Env::new(root, &mut heap);
    child.add_primitive("frob", &mut heap);
    assert!(matches!(
        child.lookup(&"frob".to_string(), &heap),
        Ok(Data::PrimitiveFn(n)) if n == "frob"
    ));
    assert!(matches!(root.lookup(&"frob".to_string(), &heap), Err(_)));
}

#[test]
fn init_env_restores_the_primitives() {
    let mut heap = Heap::new();
    let root = Env::new_root(&mut heap);
    root.insert("car".to_string(), float(1.0), &mut heap);
    root.insert("kept".to_string(), float(2.0), &mut heap);
    root.init_env(&mut heap);
    assert!(matches!(
        root.lookup(&"car".to_string(), &heap),
        Ok(Data::PrimitiveFn(n)) if n == "car"
    ));
    assert_eq!(value_of(root.lookup(&"kept".to_string(), &heap)), 2.0);
}

#[test]
fn stored_value_shares_its_cells() {
    let mut heap = Heap::new();
    let root = Env::new_root(&mut heap);
    let list = float(1.0).cons(Data::Nil, &mut heap);
    let list = float(2.0).cons(list, &mut heap);
    root.insert("l".to_string(), list.clone(), &mut heap);
    list.nreverse(&mut heap).unwrap();
    let seen = root.lookup(&"l".to_string(), &heap).unwrap();
    assert_eq!(seen.len(&heap).unwrap(), 1);
    assert_eq!(value_of(seen.car(&heap)), 2.0);
}
