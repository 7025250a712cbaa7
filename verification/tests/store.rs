use quest_core::class::Class;
use quest_core::error::RuntimeError;
use quest_core::object::Object;
use quest_core::object::Payload;
use quest_core::pristine::Pristine;
use quest_core::runtime::Runtime;

fn bare(rt: &mut Runtime) -> Object {
    rt.create(vec![], Payload::Pristine(Pristine))
}

#[test]
fn new_objects_get_rising_ids_and_empty_stores() {
    let mut rt = Runtime::new(0);
    assert_eq!(rt.count(), 0);
    let a = bare(&mut rt);
    let b = rt.create(vec![a], Payload::Boolean(true));
    let c = bare(&mut rt);
    assert!(a.id < b.id && b.id < c.id);
    assert_eq!(rt.count(), 3);
    assert!(rt.contains(a) && rt.contains(c));
    assert!(!rt.contains(Object { id: c.id + 1 }));
    assert!(rt.attrs(b).is_empty());
    assert_eq!(rt.parents(b).clone(), vec![a]);
    assert!(matches!(rt.payload(b), Payload::Boolean(true)));
    assert!(rt.own_keys(b).is_empty());
}

#[test]
fn own_store_keeps_first_set_order() {
    let mut rt = Runtime::new(0);
    let one = rt.intern("one");
    let two = rt.intern("two");
    let three = rt.intern("three");
    let o = bare(&mut rt);
    let v = bare(&mut rt);
    let w = bare(&mut rt);
    assert_eq!(rt.get_own(o, one), None);
    assert!(!rt.has_own(o, one));
    rt.set_own(o, two, v);
    rt.set_own(o, one, v);
    rt.set_own(o, three, v);
    rt.set_own(o, two, w);
    assert_eq!(rt.own_keys(o), vec![two, one, three]);
    assert_eq!(rt.get_own(o, two), Some(w));
    assert_eq!(rt.get_own(o, one), Some(v));
    assert!(rt.has_own(o, three));
    assert_eq!(rt.attrs(o).clone(), vec![(two, w), (one, v), (three, v)]);
}

#[test]
fn del_own_fails_on_absent_names() {
    let mut rt = Runtime::new(0);
    let one = rt.intern("one");
    let two = rt.intern("two");
    let o = bare(&mut rt);
    let v = bare(&mut rt);
    assert_eq!(rt.del_own(o, one), Err(RuntimeError::NotFound { key: one, receiver: o }));
    rt.set_own(o, one, v);
    rt.set_own(o, two, o);
    assert_eq!(rt.del_own(o, one), Ok(v));
    assert_eq!(rt.own_keys(o), vec![two]);
    assert_eq!(rt.get_own(o, two), Some(o));
    assert_eq!(rt.del_own(o, one), Err(RuntimeError::NotFound { key: one, receiver: o }));
}

#[test]
fn stores_of_two_objects_are_apart() {
    let mut rt = Runtime::new(0);
    let x = rt.intern("x");
    let a = bare(&mut rt);
    let b = bare(&mut rt);
    rt.set_own(a, x, b);
    assert_eq!(rt.get_own(a, x), Some(b));
    assert_eq!(rt.get_own(b, x), None);
}

#[test]
fn a_miss_needs_no_depth() {
    let mut rt = Runtime::new(0);
    let x = rt.intern("x");
    let o = bare(&mut rt);
    let root = rt.create_root(Payload::Pristine(Pristine));
    assert_eq!(rt.get_attr(o, x), Err(RuntimeError::MissingAttribute { key: x, receiver: o }));
    assert_eq!(rt.get_attr(root, x), Err(RuntimeError::MissingAttribute { key: x, receiver: root }));
    let child = rt.create(vec![o], Payload::Pristine(Pristine));
    assert_eq!(rt.get_attr(child, x), Err(RuntimeError::DepthExceeded));
    assert_eq!(rt.remaining_depth(), 0);
}

#[test]
fn two_runtimes_share_nothing() {
    let mut first = Runtime::new(4);
    let mut second = Runtime::new(4);
    let a = bare(&mut first);
    first.push_frame(a, vec![]);
    let five = first.instantiate(Class::Number, Payload::Number(5));
    assert!(first.contains(five));
    assert_eq!(second.count(), 0);
    assert_eq!(second.stack_len(), 0);
    assert!(second.slot(Class::Number).object.is_none());
    let b = bare(&mut second);
    assert_eq!(b.id, 0);
}
