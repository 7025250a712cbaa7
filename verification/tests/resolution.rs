use quest_core::class::Class;
use quest_core::class::Function;
use quest_core::error::RuntimeError;
use quest_core::literal::Literal;
use quest_core::literal::ATTR_MISSING;
use quest_core::literal::ID;
use quest_core::literal::PARENTS;
use quest_core::literal::STACK;
use quest_core::literal::THIS;
use quest_core::object::Object;
use quest_core::object::Payload;
use quest_core::pristine::Pristine;
use quest_core::runtime::Runtime;
use quest_core::text::Text;

fn number(rt: &mut Runtime, n: i128) -> Object {
    rt.instantiate(Class::Number, Payload::Number(n))
}

fn text(rt: &mut Runtime, s: &str) -> Object {
    rt.instantiate(Class::Text, Payload::Text(Text::from_str(s)))
}

fn bare(rt: &mut Runtime, parents: Vec<Object>) -> Object {
    rt.create(parents, Payload::Pristine(Pristine))
}

fn number_of(rt: &Runtime, o: Object) -> i128 {
    match rt.payload(o) {
        Payload::Number(n) => *n,
        other => panic!("not a number: {:?}", other),
    }
}

fn list_of(rt: &Runtime, o: Object) -> Vec<Object> {
    match rt.payload(o) {
        Payload::List(items) => items.clone(),
        other => panic!("not a list: {:?}", other),
    }
}

fn ready() -> Runtime {
    let mut rt = Runtime::new(64);
    for class in [Class::Pristine, Class::Function, Class::BoundFunction] {
        rt.initialize(class).unwrap();
    }
    rt
}

#[test]
fn id_survives_a_write() {
    let mut rt = Runtime::new(64);
    let id = Literal { index: ID };
    let o = bare(&mut rt, vec![]);
    let made_with = o.id as i128;
    for x in [0i128, -1, 42, made_with + 1] {
        let value = number(&mut rt, x);
        rt.set_attr(o, id, value).unwrap();
        let read = rt.get_attr(o, id).unwrap();
        assert_eq!(number_of(&rt, read), made_with);
    }
    // the write itself was accepted into the store
    assert!(rt.has_attr(o, id));
}

#[test]
fn id_of_each_object_is_its_own() {
    let mut rt = Runtime::new(64);
    let id = Literal { index: ID };
    let a = bare(&mut rt, vec![]);
    let b = bare(&mut rt, vec![a]);
    assert_ne!(a.id, b.id);
    let read_a = rt.get_attr(a, id).unwrap();
    let read_b = rt.get_attr(b, id).unwrap();
    assert_eq!(number_of(&rt, read_a), a.id as i128);
    assert_eq!(number_of(&rt, read_b), b.id as i128);
}

#[test]
fn own_store_isolation() {
    let mut rt = Runtime::new(64);
    let x = rt.intern("x");
    let b = bare(&mut rt, vec![]);
    let a = bare(&mut rt, vec![b]);
    let five = number(&mut rt, 5);
    let ten = number(&mut rt, 10);
    rt.set_attr(b, x, five).unwrap();
    let got = rt.get_attr(a, x).unwrap();
    assert_eq!(number_of(&rt, got), 5);
    rt.set_attr(a, x, ten).unwrap();
    let got = rt.get_attr(a, x).unwrap();
    assert_eq!(number_of(&rt, got), 10);
    let got = rt.get_attr(b, x).unwrap();
    assert_eq!(number_of(&rt, got), 5);
    assert_eq!(got, five);
}

#[test]
fn missing_attribute_names_key_and_receiver() {
    let mut rt = Runtime::new(64);
    let x = rt.intern("x");
    let b = bare(&mut rt, vec![]);
    let a = bare(&mut rt, vec![b]);
    assert_eq!(rt.get_attr(a, x), Err(RuntimeError::MissingAttribute { key: x, receiver: a }));
}

#[test]
fn hook_answers_for_unknown_names() {
    let mut rt = ready();
    let hook_name = Literal { index: ATTR_MISSING };
    let unknown = rt.intern("unknown");
    let o = rt.instantiate(Class::Pristine, Payload::Pristine(Pristine));
    let forty_two = number(&mut rt, 42);
    let hook = rt.instantiate(Class::Function, Payload::Function(Function::Constant(forty_two)));
    rt.set_attr(o, hook_name, hook).unwrap();
    let got = rt.get_attr(o, unknown).unwrap();
    assert_eq!(number_of(&rt, got), 42);
}

#[test]
fn hook_that_declines_hands_on_to_the_parents() {
    let mut rt = ready();
    let hook_name = Literal { index: ATTR_MISSING };
    let unknown = rt.intern("unknown");
    let z = rt.intern("z");
    let safe_get = rt.intern(".?");
    // the hook answers from a table that knows `unknown` and not `z`
    let table = rt.instantiate(Class::Pristine, Payload::Pristine(Pristine));
    let forty_two = number(&mut rt, 42);
    rt.set_attr(table, unknown, forty_two).unwrap();
    let hook = rt.dot_get_attr(table, safe_get).unwrap();
    assert!(matches!(rt.payload(hook), Payload::BoundFunction(_)));
    let parent = rt.instantiate(Class::Pristine, Payload::Pristine(Pristine));
    let seven = number(&mut rt, 7);
    rt.set_attr(parent, z, seven).unwrap();
    let o = bare(&mut rt, vec![parent]);
    rt.set_attr(o, hook_name, hook).unwrap();
    let got = rt.get_attr(o, unknown).unwrap();
    assert_eq!(number_of(&rt, got), 42);
    let got = rt.get_attr(o, z).unwrap();
    assert_eq!(got, seven);
    assert_eq!(number_of(&rt, got), 7);
}

#[test]
fn inherited_hook_is_asked_too() {
    let mut rt = ready();
    let hook_name = Literal { index: ATTR_MISSING };
    let anything = rt.intern("anything");
    let parent = rt.instantiate(Class::Pristine, Payload::Pristine(Pristine));
    let one = number(&mut rt, 1);
    let hook = rt.instantiate(Class::Function, Payload::Function(Function::Constant(one)));
    rt.set_attr(parent, hook_name, hook).unwrap();
    let child = bare(&mut rt, vec![parent]);
    assert_eq!(rt.get_attr(child, anything), Ok(one));
}

#[test]
fn first_parent_wins() {
    let mut rt = Runtime::new(64);
    let y = rt.intern("y");
    let b = bare(&mut rt, vec![]);
    let c = bare(&mut rt, vec![]);
    let a = bare(&mut rt, vec![b, c]);
    let from_b = number(&mut rt, 1);
    rt.set_attr(b, y, from_b).unwrap();
    for n in [2i128, 3, 4] {
        let from_c = number(&mut rt, n);
        rt.set_attr(c, y, from_c).unwrap();
        assert_eq!(rt.get_attr(a, y), Ok(from_b));
    }
}

#[test]
fn search_is_depth_first() {
    let mut rt = Runtime::new(64);
    let y = rt.intern("y");
    let grand = bare(&mut rt, vec![]);
    let b = bare(&mut rt, vec![grand]);
    let c = bare(&mut rt, vec![]);
    let a = bare(&mut rt, vec![b, c]);
    let deep = number(&mut rt, 1);
    let shallow = number(&mut rt, 2);
    rt.set_attr(grand, y, deep).unwrap();
    rt.set_attr(c, y, shallow).unwrap();
    assert_eq!(rt.get_attr(a, y), Ok(deep));
}

#[test]
fn root_that_is_its_own_parent_ends_the_chain() {
    let mut rt = Runtime::new(64);
    let x = rt.intern("x");
    let root = rt.create_root(Payload::Pristine(Pristine));
    assert_eq!(rt.parents(root).clone(), vec![root]);
    let child = bare(&mut rt, vec![root]);
    assert_eq!(rt.get_attr(child, x), Err(RuntimeError::MissingAttribute { key: x, receiver: child }));
    let v = number(&mut rt, 3);
    rt.set_attr(root, x, v).unwrap();
    assert_eq!(rt.get_attr(child, x), Ok(v));
}

#[test]
fn parents_can_be_read_and_replaced() {
    let mut rt = Runtime::new(64);
    let parents = Literal { index: PARENTS };
    let x = rt.intern("x");
    let b = bare(&mut rt, vec![]);
    let c = bare(&mut rt, vec![]);
    let a = bare(&mut rt, vec![b]);
    let read = rt.get_attr(a, parents).unwrap();
    assert_eq!(list_of(&rt, read), vec![b]);
    let v = number(&mut rt, 9);
    rt.set_attr(c, x, v).unwrap();
    assert!(rt.get_attr(a, x).is_err());
    let list = rt.instantiate(Class::List, Payload::List(vec![c, b]));
    rt.set_attr(a, parents, list).unwrap();
    assert_eq!(rt.parents(a).clone(), vec![c, b]);
    assert_eq!(rt.get_attr(a, x), Ok(v));
    // the parent list is no attribute of the store
    assert!(!rt.has_attr(a, parents));
}

#[test]
fn parents_must_be_a_list() {
    let mut rt = Runtime::new(64);
    let parents = Literal { index: PARENTS };
    let a = bare(&mut rt, vec![]);
    let five = number(&mut rt, 5);
    assert_eq!(
        rt.set_attr(a, parents, five),
        Err(RuntimeError::DowncastFailure { object: five, expected: Class::List })
    );
    assert!(rt.parents(a).is_empty());
}

#[test]
fn this_and_stack_follow_the_frames() {
    let mut rt = Runtime::new(64);
    let this = Literal { index: THIS };
    let stack = Literal { index: STACK };
    let o = bare(&mut rt, vec![]);
    let first = bare(&mut rt, vec![]);
    let second = bare(&mut rt, vec![]);
    assert_eq!(rt.get_attr(o, this), Err(RuntimeError::MissingAttribute { key: this, receiver: o }));
    let empty = rt.get_attr(o, stack).unwrap();
    assert_eq!(list_of(&rt, empty), vec![]);
    rt.push_frame(first, vec![]);
    rt.push_frame(second, vec![o]);
    assert_eq!(rt.get_attr(o, this), Ok(second));
    let frames = rt.get_attr(o, stack).unwrap();
    assert_eq!(list_of(&rt, frames), vec![second, first]);
    // a store entry of that name does not hide the frame
    rt.set_attr(o, this, first).unwrap();
    assert_eq!(rt.get_attr(o, this), Ok(second));
}

#[test]
fn set_has_and_delete_touch_the_own_store_only() {
    let mut rt = Runtime::new(64);
    let x = rt.intern("x");
    let b = bare(&mut rt, vec![]);
    let a = bare(&mut rt, vec![b]);
    let v = number(&mut rt, 5);
    rt.set_attr(b, x, v).unwrap();
    assert!(rt.has_attr(b, x));
    assert!(!rt.has_attr(a, x));
    assert_eq!(rt.del_attr(a, x), Err(RuntimeError::NotFound { key: x, receiver: a }));
    assert_eq!(rt.get_attr(a, x), Ok(v));
    assert_eq!(rt.del_attr(b, x), Ok(v));
    assert!(!rt.has_attr(b, x));
    assert_eq!(rt.del_attr(b, x), Err(RuntimeError::NotFound { key: x, receiver: b }));
}

#[test]
fn get_attr_or_default_gives_null_for_absent_names() {
    let mut rt = Runtime::new(64);
    let x = rt.intern("x");
    let b = bare(&mut rt, vec![]);
    let a = bare(&mut rt, vec![b]);
    let v = number(&mut rt, 5);
    rt.set_attr(b, x, v).unwrap();
    assert_eq!(rt.get_attr_or_default(b, x), Ok(v));
    // `a` inherits `x` and does not store it: the default is given
    let d = rt.get_attr_or_default(a, x).unwrap();
    assert!(matches!(rt.payload(d), Payload::Null));
    assert_ne!(d, v);
}

#[test]
fn depth_limit_ends_a_long_chain() {
    let mut rt = Runtime::new(3);
    let x = rt.intern("x");
    let v = number(&mut rt, 1);
    let top = bare(&mut rt, vec![]);
    rt.set_attr(top, x, v).unwrap();
    let mut chain = vec![top];
    for _ in 0..6 {
        let next = bare(&mut rt, vec![*chain.last().unwrap()]);
        chain.push(next);
    }
    assert_eq!(rt.get_attr(chain[0], x), Ok(v));
    assert_eq!(rt.get_attr(chain[3], x), Ok(v));
    assert_eq!(rt.get_attr(chain[4], x), Err(RuntimeError::DepthExceeded));
    assert_eq!(rt.get_attr(chain[6], x), Err(RuntimeError::DepthExceeded));
    let mut deeper = Runtime::new(6);
    let x = deeper.intern("x");
    let v = number(&mut deeper, 1);
    let top = bare(&mut deeper, vec![]);
    deeper.set_attr(top, x, v).unwrap();
    let mut chain = vec![top];
    for _ in 0..6 {
        let next = bare(&mut deeper, vec![*chain.last().unwrap()]);
        chain.push(next);
    }
    assert_eq!(deeper.get_attr(chain[6], x), Ok(v));
}

#[test]
fn parents_in_a_ring_do_not_hang() {
    let mut rt = Runtime::new(16);
    let x = rt.intern("x");
    let parents = Literal { index: PARENTS };
    let a = bare(&mut rt, vec![]);
    let b = bare(&mut rt, vec![a]);
    let ring = rt.instantiate(Class::List, Payload::List(vec![b]));
    rt.set_attr(a, parents, ring).unwrap();
    assert_eq!(rt.get_attr(a, x), Err(RuntimeError::DepthExceeded));
}

#[test]
fn literals_are_equal_as_texts() {
    let mut rt = Runtime::new(4);
    let a = rt.intern("alpha");
    let b = rt.intern("beta");
    let again = rt.intern("alpha");
    assert_eq!(a, again);
    assert_ne!(a, b);
    assert_eq!(rt.symbol(a).as_str(), "alpha");
    assert_eq!(rt.symbol(b).as_str(), "beta");
    assert_eq!(rt.intern("id"), Literal { index: ID });
    assert_eq!(rt.intern("attr_missing"), Literal { index: ATTR_MISSING });
}

#[test]
fn mapping_keys_lists_own_names() {
    let mut rt = Runtime::new(64);
    let one = rt.intern("one");
    let two = rt.intern("two");
    let three = rt.intern("three");
    let b = bare(&mut rt, vec![]);
    let c = bare(&mut rt, vec![]);
    let a = bare(&mut rt, vec![b, c]);
    let v = number(&mut rt, 0);
    rt.set_attr(a, two, v).unwrap();
    rt.set_attr(a, one, v).unwrap();
    rt.set_attr(a, two, v).unwrap();
    rt.set_attr(b, three, v).unwrap();
    assert_eq!(rt.mapping_keys(a, false), Ok(vec![two, one]));
    assert_eq!(rt.own_keys(a), vec![two, one]);
}

#[test]
fn mapping_keys_with_parents_is_a_union_without_duplicates() {
    let mut rt = Runtime::new(64);
    let one = rt.intern("one");
    let two = rt.intern("two");
    let three = rt.intern("three");
    let four = rt.intern("four");
    let b = bare(&mut rt, vec![]);
    let c = bare(&mut rt, vec![]);
    let a = bare(&mut rt, vec![b, c]);
    let v = number(&mut rt, 0);
    rt.set_attr(a, one, v).unwrap();
    rt.set_attr(b, two, v).unwrap();
    rt.set_attr(b, one, v).unwrap();
    rt.set_attr(c, three, v).unwrap();
    rt.set_attr(c, two, v).unwrap();
    rt.set_attr(c, four, v).unwrap();
    assert_eq!(rt.mapping_keys(a, true), Ok(vec![one, two, three, four]));
    assert_eq!(rt.mapping_keys(b, true), Ok(vec![two, one]));
}

#[test]
fn mapping_keys_walks_grandparents_depth_first() {
    let mut rt = Runtime::new(64);
    let g = rt.intern("g");
    let b_key = rt.intern("b");
    let c_key = rt.intern("c");
    let grand = bare(&mut rt, vec![]);
    let b = bare(&mut rt, vec![grand]);
    let c = bare(&mut rt, vec![]);
    let a = bare(&mut rt, vec![b, c]);
    let v = text(&mut rt, "v");
    rt.set_attr(grand, g, v).unwrap();
    rt.set_attr(b, b_key, v).unwrap();
    rt.set_attr(c, c_key, v).unwrap();
    assert_eq!(rt.mapping_keys(a, true), Ok(vec![b_key, g, c_key]));
    let mut shallow = Runtime::new(0);
    let k = shallow.intern("k");
    let p = bare(&mut shallow, vec![]);
    let o = bare(&mut shallow, vec![p]);
    assert_eq!(shallow.mapping_keys(o, false), Ok(vec![]));
    assert_eq!(shallow.mapping_keys(o, true), Err(RuntimeError::DepthExceeded));
    assert_eq!(shallow.mapping_keys(p, true), Ok(vec![]));
    let _ = k;
}
