use defunct::error::Error;
use defunct::heap::Heap;
use defunct::value::Data;

fn num(x: f64) -> Data {
    Data::Float(x.to_bits())
}

fn as_number(r: Result<Data, Error>) -> f64 {
    match r {
        Ok(Data::Float(bits)) => f64::from_bits(bits),
        other => panic!("not a number: {:?}", other),
    }
}

fn list_of(items: &[f64], heap: &mut Heap) -> Data {
    let mut list = Data::Nil;
    for x in items.iter().rev() {
        list = num(*x).cons(list, heap);
    }
    list
}

fn items_of(list: &Data, heap: &Heap) -> Vec<f64> {
    let mut out = Vec::new();
    let mut cur = list.clone();
    while let Data::Cons(_) = cur {
        out.push(as_number(cur.car(heap)));
        cur = cur.cdr(heap).unwrap();
    }
    assert!(matches!(cur, Data::Nil));
    out
}

#[test]
fn atom_is_true_only_for_pairs() {
    let mut heap = Heap::new();
    let pair = num(1.0).cons(Data::Nil, &mut heap);
    assert!(pair.atom());
    assert!(!Data::Nil.atom());
    assert!(!num(1.0).atom());
    assert!(!Data::Symbol("a".to_string()).atom());
    assert!(!Data::PrimitiveFn("car".to_string()).atom());
}

#[test]
fn car_and_cdr_of_a_pair() {
    let mut heap = Heap::new();
    let pair = num(1.0).cons(num(2.0), &mut heap);
    assert_eq!(as_number(pair.car(&heap)), 1.0);
    assert_eq!(as_number(pair.cdr(&heap)), 2.0);
}

#[test]
fn car_and_cdr_of_nil_are_nil() {
    let heap = Heap::new();
    assert!(matches!(Data::Nil.car(&heap), Ok(Data::Nil)));
    assert!(matches!(Data::Nil.cdr(&heap), Ok(Data::Nil)));
    assert!(matches!(Data::Nil.cadr(&heap), Ok(Data::Nil)));
}

#[test]
fn car_and_cdr_of_other_values_fail() {
    let heap = Heap::new();
    assert!(matches!(num(1.0).car(&heap), Err(Error::NotAPair)));
    assert!(matches!(num(1.0).cdr(&heap), Err(Error::NotAPair)));
    assert!(matches!(Data::Symbol("a".to_string()).car(&heap), Err(Error::NotAPair)));
    assert!(matches!(Data::PrimitiveFn("car".to_string()).cdr(&heap), Err(Error::NotAPair)));
    assert!(matches!(num(1.0).cadr(&heap), Err(Error::NotAPair)));
}

#[test]
fn pair_of_another_heap_is_no_pair() {
    let mut heap = Heap::new();
    let pair = num(1.0).cons(Data::Nil, &mut heap);
    let other = Heap::new();
    assert!(matches!(pair.car(&other), Err(Error::NotAPair)));
    assert!(matches!(pair.cdr(&other), Err(Error::NotAPair)));
    assert!(matches!(pair.len(&other), Err(Error::NotAProperList)));
}

#[test]
fn cadr_is_the_second_element() {
    let mut heap = Heap::new();
    let list = list_of(&[1.0, 2.0, 3.0], &mut heap);
    assert_eq!(as_number(list.cadr(&heap)), 2.0);
    let single = list_of(&[1.0], &mut heap);
    assert!(matches!(single.cadr(&heap), Ok(Data::Nil)));
    let dotted = num(1.0).cons(num(2.0), &mut heap);
    assert!(matches!(dotted.cadr(&heap), Err(Error::NotAPair)));
}

#[test]
fn cons_makes_one_new_cell() {
    let mut heap = Heap::new();
    assert_eq!(heap.cell_count(), 0);
    let a = num(1.0).cons(Data::Nil, &mut heap);
    assert_eq!(heap.cell_count(), 1);
    let b = num(2.0).cons(a.clone(), &mut heap);
    assert_eq!(heap.cell_count(), 2);
    assert!(matches!(a, Data::Cons(0)));
    assert!(matches!(b, Data::Cons(1)));
    assert!(matches!(b.cdr(&heap), Ok(Data::Cons(0))));
}

#[test]
fn len_counts_a_proper_list() {
    let mut heap = Heap::new();
    assert_eq!(Data::Nil.len(&heap).unwrap(), 0);
    let one = list_of(&[5.0], &mut heap);
    assert_eq!(one.len(&heap).unwrap(), 1);
    let four = list_of(&[1.0, 2.0, 3.0, 4.0], &mut heap);
    assert_eq!(four.len(&heap).unwrap(), 4);
}

#[test]
fn len_of_a_list_that_uses_every_cell() {
    let mut heap = Heap::new();
    let list = list_of(&[1.0, 2.0, 3.0], &mut heap);
    assert_eq!(heap.cell_count(), 3);
    assert_eq!(list.len(&heap).unwrap(), 3);
}

#[test]
fn len_of_what_is_no_proper_list_fails() {
    let mut heap = Heap::new();
    assert!(matches!(num(1.0).len(&heap), Err(Error::NotAProperList)));
    assert!(matches!(Data::Symbol("a".to_string()).len(&heap), Err(Error::NotAProperList)));
    let dotted = num(1.0).cons(num(2.0), &mut heap);
    assert!(matches!(dotted.len(&heap), Err(Error::NotAProperList)));
    let tail = num(2.0).cons(num(3.0), &mut heap);
    let longer = num(1.0).cons(tail, &mut heap);
    assert!(matches!(longer.len(&heap), Err(Error::NotAProperList)));
}

#[test]
fn last_is_the_car_of_the_final_pair() {
    let mut heap = Heap::new();
    let list = list_of(&[1.0, 2.0, 3.0], &mut heap);
    assert_eq!(as_number(list.last(&heap)), 3.0);
    let single = list_of(&[9.0], &mut heap);
    assert_eq!(as_number(single.last(&heap)), 9.0);
}

#[test]
fn last_of_what_is_no_pair_fails() {
    let mut heap = Heap::new();
    assert!(matches!(Data::Nil.last(&heap), Err(Error::NotAProperList)));
    assert!(matches!(num(1.0).last(&heap), Err(Error::NotAProperList)));
    let dotted = num(1.0).cons(num(2.0), &mut heap);
    assert!(matches!(dotted.last(&heap), Err(Error::NotAProperList)));
}

#[test]
fn nreverse_reverses() {
    let mut heap = Heap::new();
    let list = list_of(&[1.0, 2.0, 3.0, 4.0], &mut heap);
    let reversed = list.nreverse(&mut heap).unwrap();
    assert_eq!(items_of(&reversed, &heap), vec![4.0, 3.0, 2.0, 1.0]);
}

#[test]
fn nreverse_makes_no_cell() {
    let mut heap = Heap::new();
    let list = list_of(&[1.0, 2.0, 3.0], &mut heap);
    let cells = heap.cell_count();
    list.nreverse(&mut heap).unwrap();
    assert_eq!(heap.cell_count(), cells);
}

#[test]
fn nreverse_of_short_lists() {
    let mut heap = Heap::new();
    assert!(matches!(Data::Nil.nreverse(&mut heap), Ok(Data::Nil)));
    let single = list_of(&[7.0], &mut heap);
    let same = single.clone().nreverse(&mut heap).unwrap();
    assert!(matches!((&single, &same), (Data::Cons(a), Data::Cons(b)) if a == b));
    assert_eq!(items_of(&same, &heap), vec![7.0]);
}

#[test]
fn nreverse_twice_restores_the_list() {
    let mut heap = Heap::new();
    let list = list_of(&[1.0, 2.0, 3.0, 4.0, 5.0], &mut heap);
    let head = match list {
        Data::Cons(c) => c,
        _ => unreachable!(),
    };
    let once = list.clone().nreverse(&mut heap).unwrap();
    assert_eq!(once.len(&heap).unwrap(), 5);
    let twice = once.nreverse(&mut heap).unwrap();
    assert!(matches!(twice, Data::Cons(c) if c == head));
    assert_eq!(twice.len(&heap).unwrap(), 5);
    assert_eq!(items_of(&twice, &heap), vec![1.0, 2.0, 3.0, 4.0, 5.0]);
    assert_eq!(items_of(&list, &heap), vec![1.0, 2.0, 3.0, 4.0, 5.0]);
    assert!(twice.equals(&list, &heap, 100).unwrap());
}

#[test]
fn nreverse_of_what_is_no_proper_list_fails_and_changes_nothing() {
    let mut heap = Heap::new();
    assert!(matches!(num(1.0).nreverse(&mut heap), Err(Error::NotAProperList)));
    let tail = num(2.0).cons(num(3.0), &mut heap);
    let dotted = num(1.0).cons(tail, &mut heap);
    assert!(matches!(dotted.clone().nreverse(&mut heap), Err(Error::NotAProperList)));
    assert_eq!(as_number(dotted.car(&heap)), 1.0);
    assert_eq!(as_number(dotted.cadr(&heap)), 2.0);
    assert_eq!(as_number(dotted.cdr(&heap).unwrap().cdr(&heap)), 3.0);
}

#[test]
fn nreverse_is_seen_through_every_alias() {
    let mut heap = Heap::new();
    let list = list_of(&[1.0, 2.0, 3.0], &mut heap);
    let alias = list.clone();
    let second = list.cdr(&heap).unwrap();
    let reversed = list.nreverse(&mut heap).unwrap();
    assert_eq!(items_of(&reversed, &heap), vec![3.0, 2.0, 1.0]);
    assert_eq!(items_of(&alias, &heap), vec![1.0]);
    assert_eq!(items_of(&second, &heap), vec![2.0, 1.0]);
}

#[test]
fn shared_tail_is_shared() {
    let mut heap = Heap::new();
    let tail = list_of(&[2.0, 3.0], &mut heap);
    let a = num(1.0).cons(tail.clone(), &mut heap);
    let b = num(0.0).cons(tail.clone(), &mut heap);
    tail.nreverse(&mut heap).unwrap();
    assert_eq!(items_of(&a, &heap), vec![1.0, 2.0]);
    assert_eq!(items_of(&b, &heap), vec![0.0, 2.0]);
}

#[test]
fn list_that_holds_itself_is_written_and_compared_within_fuel() {
    let mut heap = Heap::new();
    let inner = list_of(&[3.0], &mut heap);
    let middle = inner.clone().cons(inner.clone(), &mut heap);
    let outer = num(1.0).cons(middle.clone(), &mut heap);
    let reversed = outer.nreverse(&mut heap).unwrap();
    assert_eq!(reversed.len(&heap).unwrap(), 3);
    let second = reversed.cadr(&heap).unwrap();
    assert!(matches!((&reversed, &second), (Data::Cons(a), Data::Cons(b)) if a == b));
    assert!(matches!(reversed.show(&heap, 50), Err(Error::Exhausted)));
    assert!(matches!(reversed.equals(&reversed, &heap, 50), Err(Error::Exhausted)));
}

#[test]
fn equals_compares_structure() {
    let mut heap = Heap::new();
    let a = list_of(&[1.0, 2.0, 3.0], &mut heap);
    let b = list_of(&[1.0, 2.0, 3.0], &mut heap);
    let c = list_of(&[1.0, 2.0, 4.0], &mut heap);
    let d = list_of(&[1.0, 2.0], &mut heap);
    assert!(a.equals(&b, &heap, 100).unwrap());
    assert!(a.equals(&a, &heap, 100).unwrap());
    assert!(!a.equals(&c, &heap, 100).unwrap());
    assert!(!a.equals(&d, &heap, 100).unwrap());
    assert!(!d.equals(&a, &heap, 100).unwrap());
    assert!(!a.equals(&Data::Nil, &heap, 100).unwrap());
    assert!(Data::Nil.equals(&Data::Nil, &heap, 0).unwrap());
}

#[test]
fn equals_on_atoms() {
    let heap = Heap::new();
    let x = Data::Symbol("x".to_string());
    let y = Data::Symbol("y".to_string());
    assert!(x.equals(&Data::Symbol("x".to_string()), &heap, 0).unwrap());
    assert!(!x.equals(&y, &heap, 0).unwrap());
    assert!(!x.equals(&Data::PrimitiveFn("x".to_string()), &heap, 0).unwrap());
    let p = Data::PrimitiveFn("car".to_string());
    assert!(p.equals(&Data::PrimitiveFn("car".to_string()), &heap, 0).unwrap());
    assert!(!p.equals(&Data::PrimitiveFn("cdr".to_string()), &heap, 0).unwrap());
    assert!(!num(1.0).equals(&Data::Nil, &heap, 0).unwrap());
}

#[test]
fn equals_on_numbers_is_exact() {
    let heap = Heap::new();
    assert!(num(1.5).equals(&num(1.5), &heap, 0).unwrap());
    assert!(!num(1.5).equals(&num(1.5000000000000002), &heap, 0).unwrap());
    assert!(num(0.0).equals(&num(-0.0), &heap, 0).unwrap());
    assert!(!num(f64::NAN).equals(&num(f64::NAN), &heap, 0).unwrap());
    assert!(num(f64::INFINITY).equals(&num(f64::INFINITY), &heap, 0).unwrap());
    assert!(!num(f64::INFINITY).equals(&num(f64::NEG_INFINITY), &heap, 0).unwrap());
}

#[test]
fn closure_equals_nothing() {
    let mut heap = Heap::new();
    let env = defunct::value::Env::new_root(&mut heap);
    let f = Data::make_fn(Data::Nil, Data::Nil, env);
    assert!(!f.equals(&f, &heap, 10).unwrap());
    assert!(!f.equals(&f.clone(), &heap, 10).unwrap());
}

#[test]
fn equals_needs_fuel_for_pairs() {
    let mut heap = Heap::new();
    let a = list_of(&[1.0, 2.0], &mut heap);
    let b = list_of(&[1.0, 2.0], &mut heap);
    assert!(matches!(a.equals(&b, &heap, 0), Err(Error::Exhausted)));
    assert!(matches!(a.equals(&b, &heap, 1), Err(Error::Exhausted)));
    assert!(a.equals(&b, &heap, 2).unwrap());
}

#[test]
fn clone_names_the_same_cell() {
    let mut heap = Heap::new();
    let list = list_of(&[1.0, 2.0], &mut heap);
    let copy = list.clone();
    assert!(matches!((&list, &copy), (Data::Cons(a), Data::Cons(b)) if a == b));
    let s = Data::Symbol("name".to_string());
    assert!(matches!(s.clone(), Data::Symbol(n) if n == "name"));
}
