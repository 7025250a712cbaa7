use quest_core::bound_function::BoundFunction;
use quest_core::class::Builtin;
use quest_core::class::Class;
use quest_core::class::Function;
use quest_core::dispatch::prepend;
use quest_core::dispatch::rest;
use quest_core::dispatch::try_arg;
use quest_core::error::RuntimeError;
use quest_core::literal::Literal;
use quest_core::literal::AT_BOOL;
use quest_core::literal::BOUND_OBJECT;
use quest_core::literal::BOUND_OWNER;
use quest_core::literal::CALL;
use quest_core::literal::CALL_NOSCOPE;
use quest_core::literal::THIS;
use quest_core::object::Object;
use quest_core::object::Payload;
use quest_core::pristine::Pristine;
use quest_core::runtime::Runtime;
use quest_core::text::Text;

fn ready() -> Runtime {
    let mut rt = Runtime::new(64);
    for class in [Class::Pristine, Class::Function, Class::BoundFunction, Class::Text] {
        rt.initialize(class).unwrap();
    }
    rt
}

fn number(rt: &mut Runtime, n: i128) -> Object {
    rt.instantiate(Class::Number, Payload::Number(n))
}

fn text(rt: &mut Runtime, s: &str) -> Object {
    rt.instantiate(Class::Text, Payload::Text(Text::from_str(s)))
}

fn boolean(rt: &mut Runtime, b: bool) -> Object {
    rt.instantiate(Class::Boolean, Payload::Boolean(b))
}

fn instance(rt: &mut Runtime) -> Object {
    rt.instantiate(Class::Pristine, Payload::Pristine(Pristine))
}

fn function(rt: &mut Runtime, f: Function) -> Object {
    rt.instantiate(Class::Function, Payload::Function(f))
}

fn text_of(rt: &Runtime, o: Object) -> String {
    match rt.payload(o) {
        Payload::Text(t) => t.as_str().to_string(),
        other => panic!("not a text: {:?}", other),
    }
}

fn bool_of(rt: &Runtime, o: Object) -> bool {
    match rt.payload(o) {
        Payload::Boolean(b) => *b,
        other => panic!("not a boolean: {:?}", other),
    }
}

fn list_of(rt: &Runtime, o: Object) -> Vec<Object> {
    match rt.payload(o) {
        Payload::List(items) => items.clone(),
        other => panic!("not a list: {:?}", other),
    }
}

/// A class with the method `greet(self) -> self.name`, and an instance
/// named Rex.
fn greeter(rt: &mut Runtime) -> (Object, Object, Literal) {
    let name = rt.intern("name");
    let greet = rt.intern("greet");
    let class = instance(rt);
    let method = function(rt, Function::Reader(name));
    rt.set_attr(class, greet, method).unwrap();
    let i = rt.create(vec![class], Payload::Pristine(Pristine));
    let rex = text(rt, "Rex");
    rt.set_attr(i, name, rex).unwrap();
    (class, i, greet)
}

#[test]
fn bound_method_gets_its_receiver() {
    let mut rt = ready();
    let call = Literal { index: CALL };
    let (_class, i, greet) = greeter(&mut rt);
    let said = rt.call_attr(i, greet, &vec![]).unwrap();
    assert_eq!(text_of(&rt, said), "Rex");
    // the unbound method, called with the receiver by hand
    let raw = rt.get_attr(i, greet).unwrap();
    assert!(matches!(rt.payload(raw), Payload::Function(Function::Reader(_))));
    let said = rt.call_attr(raw, call, &vec![i]).unwrap();
    assert_eq!(text_of(&rt, said), "Rex");
    // and without one
    assert_eq!(
        rt.call_attr(raw, call, &vec![]),
        Err(RuntimeError::ArityOrIndexError { index: 0, len: 0 })
    );
}

#[test]
fn receiver_retrieval_wraps_inherited_callables() {
    let mut rt = ready();
    let call = Literal { index: CALL };
    let (class, i, greet) = greeter(&mut rt);
    let raw = rt.get_attr(i, greet).unwrap();
    let bound = rt.dot_get_attr(i, greet).unwrap();
    assert_ne!(bound, raw);
    assert!(matches!(rt.payload(bound), Payload::BoundFunction(_)));
    assert_eq!(rt.get_own(bound, Literal { index: BOUND_OWNER }), Some(i));
    assert_eq!(rt.get_own(bound, Literal { index: BOUND_OBJECT }), Some(raw));
    let said = rt.call_attr(bound, call, &vec![]).unwrap();
    assert_eq!(text_of(&rt, said), "Rex");
    let said = BoundFunction::qs_call(&mut rt, bound, &vec![]).unwrap();
    assert_eq!(text_of(&rt, said), "Rex");
    // found in the own store: handed out as it is
    assert_eq!(rt.dot_get_attr(class, greet), Ok(raw));
}

#[test]
fn receiver_retrieval_leaves_plain_values_alone() {
    let mut rt = ready();
    let x = rt.intern("x");
    let parent = instance(&mut rt);
    let five = number(&mut rt, 5);
    rt.set_attr(parent, x, five).unwrap();
    let child = rt.create(vec![parent], Payload::Pristine(Pristine));
    assert_eq!(rt.dot_get_attr(child, x), Ok(five));
}

#[test]
fn own_callable_is_called_without_receiver() {
    let mut rt = ready();
    let name = rt.intern("name");
    let greet = rt.intern("greet");
    let o = instance(&mut rt);
    let other = instance(&mut rt);
    let method = function(&mut rt, Function::Reader(name));
    let rex = text(&mut rt, "Rex");
    rt.set_attr(o, greet, method).unwrap();
    rt.set_attr(o, name, rex).unwrap();
    let tom = text(&mut rt, "Tom");
    rt.set_attr(other, name, tom).unwrap();
    assert_eq!(
        rt.call_attr(o, greet, &vec![]),
        Err(RuntimeError::ArityOrIndexError { index: 0, len: 0 })
    );
    assert_eq!(rt.call_attr(o, greet, &vec![other]), Ok(tom));
}

#[test]
fn calling_a_value_without_call_fails() {
    let mut rt = ready();
    let call = Literal { index: CALL };
    let x = rt.intern("x");
    let o = instance(&mut rt);
    let five = number(&mut rt, 5);
    rt.set_attr(o, x, five).unwrap();
    assert_eq!(
        rt.call_attr(o, x, &vec![]),
        Err(RuntimeError::MissingAttribute { key: call, receiver: five })
    );
}

#[test]
fn endless_call_chain_is_cut() {
    let mut rt = ready();
    let call = Literal { index: CALL };
    let o = rt.create(vec![], Payload::Pristine(Pristine));
    rt.set_attr(o, call, o).unwrap();
    assert_eq!(rt.call_attr(o, call, &vec![]), Err(RuntimeError::DepthExceeded));
    // the depth account is as before: a further call still works
    let x = rt.intern("x");
    let five = number(&mut rt, 5);
    rt.set_attr(o, x, five).unwrap();
    assert_eq!(rt.get_attr(o, x), Ok(five));
}

#[test]
fn apply_constant_reader_and_native() {
    let mut rt = ready();
    let name = rt.intern("name");
    let o = instance(&mut rt);
    let rex = text(&mut rt, "Rex");
    rt.set_attr(o, name, rex).unwrap();
    assert_eq!(rt.apply(Function::Constant(rex), &vec![]), Ok(rex));
    assert_eq!(rt.apply(Function::Reader(name), &vec![o]), Ok(rex));
    let key = text(&mut rt, "name");
    assert_eq!(rt.apply(Function::Native(Builtin::PristineGetAttr), &vec![o, key]), Ok(rex));
    assert_eq!(
        rt.apply(Function::Native(Builtin::PristineGetAttr), &vec![]),
        Err(RuntimeError::ArityOrIndexError { index: 0, len: 0 })
    );
}

#[test]
fn pristine_get_attr_is_raw() {
    let mut rt = ready();
    let (_class, i, greet) = greeter(&mut rt);
    let key = text(&mut rt, "greet");
    let raw = rt.get_attr(i, greet).unwrap();
    assert_eq!(Pristine::qs___get_attr__(&mut rt, i, &vec![key]), Ok(raw));
    assert_eq!(
        Pristine::qs___get_attr__(&mut rt, i, &vec![]),
        Err(RuntimeError::ArityOrIndexError { index: 0, len: 0 })
    );
    let five = number(&mut rt, 5);
    assert_eq!(
        Pristine::qs___get_attr__(&mut rt, i, &vec![five]),
        Err(RuntimeError::DowncastFailure { object: five, expected: Class::Text })
    );
    // through the class of every object: `::` is the same method
    let by_name = rt.intern("::");
    assert_eq!(rt.call_attr(i, by_name, &vec![key]), Ok(raw));
}

#[test]
fn pristine_dot_get_attr_binds() {
    let mut rt = ready();
    let (_class, i, _greet) = greeter(&mut rt);
    let key = text(&mut rt, "greet");
    let bound = Pristine::qs_dot_get_attr(&mut rt, i, &vec![key]).unwrap();
    assert!(matches!(rt.payload(bound), Payload::BoundFunction(_)));
    assert_eq!(rt.get_own(bound, Literal { index: BOUND_OWNER }), Some(i));
}

#[test]
fn pristine_set_attr_returns_the_value() {
    let mut rt = ready();
    let o = instance(&mut rt);
    let key = text(&mut rt, "x");
    let five = number(&mut rt, 5);
    assert_eq!(Pristine::qs___set_attr__(&mut rt, o, &vec![key, five]), Ok(five));
    let x = rt.intern("x");
    assert_eq!(rt.get_own(o, x), Some(five));
    assert_eq!(
        Pristine::qs___set_attr__(&mut rt, o, &vec![key]),
        Err(RuntimeError::ArityOrIndexError { index: 1, len: 1 })
    );
    assert_eq!(
        Pristine::qs___set_attr__(&mut rt, o, &vec![]),
        Err(RuntimeError::ArityOrIndexError { index: 0, len: 0 })
    );
}

#[test]
fn pristine_has_and_del_attr() {
    let mut rt = ready();
    let o = instance(&mut rt);
    let key = text(&mut rt, "x");
    let x = rt.intern("x");
    let five = number(&mut rt, 5);
    let no = Pristine::qs___has_attr__(&mut rt, o, &vec![key]).unwrap();
    assert!(!bool_of(&rt, no));
    rt.set_attr(o, x, five).unwrap();
    let yes = Pristine::qs___has_attr__(&mut rt, o, &vec![key]).unwrap();
    assert!(bool_of(&rt, yes));
    assert_eq!(Pristine::qs___del_attr__(&mut rt, o, &vec![key]), Ok(five));
    assert_eq!(
        Pristine::qs___del_attr__(&mut rt, o, &vec![key]),
        Err(RuntimeError::NotFound { key: x, receiver: o })
    );
    assert_eq!(
        Pristine::qs___has_attr__(&mut rt, o, &vec![]),
        Err(RuntimeError::ArityOrIndexError { index: 0, len: 0 })
    );
    assert_eq!(
        Pristine::qs___del_attr__(&mut rt, o, &vec![]),
        Err(RuntimeError::ArityOrIndexError { index: 0, len: 0 })
    );
}

#[test]
fn pristine_dot_get_attr_q_defaults_to_null() {
    let mut rt = ready();
    let o = instance(&mut rt);
    let key = text(&mut rt, "x");
    let x = rt.intern("x");
    let d = Pristine::qs_dot_get_attr_q(&mut rt, o, &vec![key]).unwrap();
    assert!(matches!(rt.payload(d), Payload::Null));
    let five = number(&mut rt, 5);
    rt.set_attr(o, x, five).unwrap();
    assert_eq!(Pristine::qs_dot_get_attr_q(&mut rt, o, &vec![key]), Ok(five));
}

#[test]
fn pristine_call_attr_forwards_the_rest() {
    let mut rt = ready();
    let (_class, i, _greet) = greeter(&mut rt);
    let key = text(&mut rt, "greet");
    let said = Pristine::qs___call_attr__(&mut rt, i, &vec![key]).unwrap();
    assert_eq!(text_of(&rt, said), "Rex");
    // `__call_attr__('__get_attr__', 'name')` reads the name
    let get = text(&mut rt, "__get_attr__");
    let name = text(&mut rt, "name");
    let said = Pristine::qs___call_attr__(&mut rt, i, &vec![get, name]).unwrap();
    assert_eq!(text_of(&rt, said), "Rex");
    assert_eq!(
        Pristine::qs___call_attr__(&mut rt, i, &vec![]),
        Err(RuntimeError::ArityOrIndexError { index: 0, len: 0 })
    );
}

#[test]
fn pristine_inspect_names_class_and_id() {
    let mut rt = ready();
    let o = instance(&mut rt);
    let shown = Pristine::qs_inspect(&mut rt, o, &vec![]).unwrap();
    assert_eq!(text_of(&rt, shown), format!("<Pristine:{}>", o.id));
    let five = number(&mut rt, 5);
    let shown = Pristine::qs_inspect(&mut rt, five, &vec![]).unwrap();
    assert_eq!(text_of(&rt, shown), format!("<Number:{}>", five.id));
    let inspect = rt.intern("inspect");
    let shown = rt.call_attr(o, inspect, &vec![]).unwrap();
    assert_eq!(text_of(&rt, shown), format!("<Pristine:{}>", o.id));
}

#[test]
fn pristine_keys_lists_names_as_texts() {
    let mut rt = ready();
    let one = rt.intern("one");
    let two = rt.intern("two");
    let b = rt.create(vec![], Payload::Pristine(Pristine));
    let a = rt.create(vec![b], Payload::Pristine(Pristine));
    let v = number(&mut rt, 0);
    rt.set_attr(a, one, v).unwrap();
    rt.set_attr(b, two, v).unwrap();
    rt.set_attr(b, one, v).unwrap();
    let own = Pristine::qs___keys__(&mut rt, a, &vec![]).unwrap();
    let names: Vec<String> = list_of(&rt, own).iter().map(|o| text_of(&rt, *o)).collect();
    assert_eq!(names, vec!["one"]);
    let no = boolean(&mut rt, false);
    let own = Pristine::qs___keys__(&mut rt, a, &vec![no]).unwrap();
    assert_eq!(list_of(&rt, own).len(), 1);
    let yes = boolean(&mut rt, true);
    let all = Pristine::qs___keys__(&mut rt, a, &vec![yes]).unwrap();
    let names: Vec<String> = list_of(&rt, all).iter().map(|o| text_of(&rt, *o)).collect();
    assert_eq!(names, vec!["one", "two"]);
    // a value that is no boolean is asked for its `@bool`
    let at_bool = Literal { index: AT_BOOL };
    assert_eq!(
        Pristine::qs___keys__(&mut rt, a, &vec![v]),
        Err(RuntimeError::MissingAttribute { key: at_bool, receiver: v })
    );
    let truthy = instance(&mut rt);
    let convert = function(&mut rt, Function::Constant(yes));
    rt.set_attr(truthy, at_bool, convert).unwrap();
    let all = Pristine::qs___keys__(&mut rt, a, &vec![truthy]).unwrap();
    assert_eq!(list_of(&rt, all).len(), 2);
    let wrong = function(&mut rt, Function::Constant(v));
    rt.set_attr(truthy, at_bool, wrong).unwrap();
    assert_eq!(
        Pristine::qs___keys__(&mut rt, a, &vec![truthy]),
        Err(RuntimeError::DowncastFailure { object: v, expected: Class::Boolean })
    );
}

#[test]
fn keys_of_the_initialized_base_class() {
    let mut rt = Runtime::new(64);
    rt.initialize(Class::Pristine).unwrap();
    rt.initialize(Class::Pristine).unwrap();
    let class = rt.class_for(Class::Pristine);
    let no = boolean(&mut rt, false);
    let keys = Pristine::qs___keys__(&mut rt, class, &vec![no]).unwrap();
    let names: Vec<String> = list_of(&rt, keys).iter().map(|o| text_of(&rt, *o)).collect();
    assert_eq!(names.len(), 15);
    for (i, name) in names.iter().enumerate() {
        assert!(!names[..i].contains(name));
    }
    for expected in ["name", "inspect", ".", "instance_exec", "::@"] {
        assert!(names.contains(&expected.to_string()));
        let key = text(&mut rt, expected);
        let held = Pristine::qs___has_attr__(&mut rt, class, &vec![key]).unwrap();
        assert!(bool_of(&rt, held));
    }
}

#[test]
fn bool_of_reads_or_converts() {
    let mut rt = ready();
    let yes = boolean(&mut rt, true);
    assert_eq!(rt.bool_of(yes), Ok(true));
    let no = boolean(&mut rt, false);
    assert_eq!(rt.bool_of(no), Ok(false));
    let o = instance(&mut rt);
    let convert = function(&mut rt, Function::Constant(no));
    rt.set_attr(o, Literal { index: AT_BOOL }, convert).unwrap();
    assert_eq!(rt.bool_of(o), Ok(false));
}

#[test]
fn root_get_attr_reads_on_the_oldest_frame() {
    let mut rt = ready();
    let x = rt.intern("x");
    let name = text(&mut rt, "x");
    let root = instance(&mut rt);
    let inner = instance(&mut rt);
    let at_root = number(&mut rt, 1);
    let at_inner = number(&mut rt, 2);
    rt.set_attr(root, x, at_root).unwrap();
    rt.set_attr(inner, x, at_inner).unwrap();
    assert_eq!(
        Pristine::qs_root_get_attr(&mut rt, name, &vec![]),
        Err(RuntimeError::MissingAttribute { key: Literal { index: THIS }, receiver: name })
    );
    rt.push_frame(root, vec![]);
    rt.push_frame(inner, vec![]);
    assert_eq!(Pristine::qs_root_get_attr(&mut rt, name, &vec![]), Ok(at_root));
    assert_eq!(
        Pristine::qs_root_get_attr(&mut rt, at_root, &vec![]),
        Err(RuntimeError::DowncastFailure { object: at_root, expected: Class::Text })
    );
    let missing = text(&mut rt, "missing");
    let key = rt.intern("missing");
    assert_eq!(
        Pristine::qs_root_get_attr(&mut rt, missing, &vec![]),
        Err(RuntimeError::MissingAttribute { key, receiver: root })
    );
    // by name, through the class of every object
    let by_name = rt.intern("::@");
    assert_eq!(rt.call_attr(name, by_name, &vec![]), Ok(at_root));
}

#[test]
fn instance_exec_finds_an_inherited_call_noscope() {
    let mut rt = ready();
    let noscope = Literal { index: CALL_NOSCOPE };
    let call = Literal { index: CALL };
    let o = instance(&mut rt);
    let class = rt.create(vec![], Payload::Pristine(Pristine));
    let callable = rt.create(vec![class], Payload::Pristine(Pristine));
    let plain = number(&mut rt, 1);
    let direct = number(&mut rt, 2);
    let scoped = function(&mut rt, Function::Constant(plain));
    let unscoped = function(&mut rt, Function::Constant(direct));
    rt.set_attr(class, call, scoped).unwrap();
    assert_eq!(Pristine::qs_instance_exec(&mut rt, o, &vec![callable]), Ok(plain));
    assert_eq!(rt.call_in_scope(callable), Ok(plain));
    rt.set_attr(class, noscope, unscoped).unwrap();
    assert_eq!(Pristine::qs_instance_exec(&mut rt, o, &vec![callable]), Ok(direct));
    assert_eq!(rt.call_in_scope(callable), Ok(direct));
    assert_eq!(rt.stack_len(), 0);
}

#[test]
fn instance_exec_runs_in_a_frame_of_the_receiver() {
    let mut rt = ready();
    let this = Literal { index: THIS };
    let o = instance(&mut rt);
    // a callable that reads `this` of whatever it is given
    let who = function(&mut rt, Function::Reader(this));
    let before = rt.stack_len();
    // `who.call()` is `call` of a function object: its argument list is
    // empty here, so that it fails for want of a receiver
    assert_eq!(
        Pristine::qs_instance_exec(&mut rt, o, &vec![who]),
        Err(RuntimeError::ArityOrIndexError { index: 0, len: 0 })
    );
    assert_eq!(rt.stack_len(), before);
    // a bound reader has its receiver and sees the frame
    let reads_this = rt.intern("reads_this");
    let class = instance(&mut rt);
    rt.set_attr(class, reads_this, who).unwrap();
    let i = rt.create(vec![class], Payload::Pristine(Pristine));
    let bound = rt.dot_get_attr(i, reads_this).unwrap();
    assert_eq!(Pristine::qs_instance_exec(&mut rt, o, &vec![bound]), Ok(o));
    assert_eq!(rt.stack_len(), before);
    assert_eq!(
        Pristine::qs_instance_exec(&mut rt, o, &vec![]),
        Err(RuntimeError::ArityOrIndexError { index: 0, len: 0 })
    );
}

#[test]
fn instance_exec_prefers_call_noscope() {
    let mut rt = ready();
    let noscope = Literal { index: CALL_NOSCOPE };
    let call = Literal { index: CALL };
    let o = instance(&mut rt);
    let callable = rt.create(vec![], Payload::Pristine(Pristine));
    let plain = number(&mut rt, 1);
    let scoped = function(&mut rt, Function::Constant(plain));
    rt.set_attr(callable, call, scoped).unwrap();
    assert_eq!(Pristine::qs_instance_exec(&mut rt, o, &vec![callable]), Ok(plain));
    let direct = number(&mut rt, 2);
    let unscoped = function(&mut rt, Function::Constant(direct));
    rt.set_attr(callable, noscope, unscoped).unwrap();
    assert_eq!(Pristine::qs_instance_exec(&mut rt, o, &vec![callable]), Ok(direct));
}

#[test]
fn instance_jump_leaves_frames_behind() {
    let mut rt = ready();
    let call = Literal { index: CALL };
    let o = instance(&mut rt);
    let callable = rt.create(vec![], Payload::Pristine(Pristine));
    let one = number(&mut rt, 1);
    let f = function(&mut rt, Function::Constant(one));
    rt.set_attr(callable, call, f).unwrap();
    assert_eq!(rt.stack_len(), 0);
    assert_eq!(Pristine::qs_instance_jump(&mut rt, o, &vec![callable]), Ok(one));
    assert_eq!(rt.stack_len(), 2);
    assert_eq!(rt.frame_at(0).unwrap().owner, o);
    assert_eq!(rt.frame_at(1).unwrap().owner, o);
    let broken = rt.create(vec![], Payload::Pristine(Pristine));
    assert_eq!(
        Pristine::qs_instance_jump(&mut rt, o, &vec![broken]),
        Err(RuntimeError::MissingAttribute { key: call, receiver: broken })
    );
    assert_eq!(rt.stack_len(), 3);
}

#[test]
fn function_call_needs_a_function() {
    let mut rt = ready();
    let five = number(&mut rt, 5);
    assert_eq!(
        rt.function_call(five, &vec![]),
        Err(RuntimeError::DowncastFailure { object: five, expected: Class::Function })
    );
    let f = function(&mut rt, Function::Constant(five));
    assert_eq!(rt.function_call(f, &vec![]), Ok(five));
}

#[test]
fn bound_call_needs_owner_and_callable() {
    let mut rt = ready();
    let bare = rt.instantiate(Class::BoundFunction, Payload::BoundFunction(BoundFunction));
    assert_eq!(
        BoundFunction::qs_call(&mut rt, bare, &vec![]),
        Err(RuntimeError::MissingAttribute { key: Literal { index: BOUND_OWNER }, receiver: bare })
    );
}

#[test]
fn key_of_takes_texts_only() {
    let mut rt = ready();
    let t = text(&mut rt, "fresh_name");
    let key = rt.key_of(t).unwrap();
    assert_eq!(rt.symbol(key).as_str(), "fresh_name");
    assert_eq!(rt.intern("fresh_name"), key);
    let five = number(&mut rt, 5);
    assert_eq!(rt.key_of(five), Err(RuntimeError::DowncastFailure { object: five, expected: Class::Text }));
}

#[test]
fn text_of_reads_or_converts() {
    let mut rt = ready();
    let t = text(&mut rt, "plain");
    assert_eq!(rt.text_of(t).unwrap().as_str(), "plain");
    // an object whose `@text` is a constant function
    let at_text = rt.intern("@text");
    let o = instance(&mut rt);
    let shown = text(&mut rt, "shown");
    let convert = function(&mut rt, Function::Constant(shown));
    rt.set_attr(o, at_text, convert).unwrap();
    assert_eq!(rt.text_of(o).unwrap().as_str(), "shown");
    // one whose `@text` gives no text
    let five = number(&mut rt, 5);
    let wrong = function(&mut rt, Function::Constant(five));
    rt.set_attr(o, at_text, wrong).unwrap();
    assert_eq!(
        rt.text_of(o).unwrap_err(),
        RuntimeError::DowncastFailure { object: five, expected: Class::Text }
    );
}

#[test]
fn name_objects_makes_one_text_per_name() {
    let mut rt = ready();
    let a = rt.intern("a");
    let b = rt.intern("b");
    let before = rt.count();
    let made = rt.name_objects(&vec![b, a, b]);
    assert_eq!(made.len(), 3);
    let names: Vec<String> = made.iter().map(|o| text_of(&rt, *o)).collect();
    assert_eq!(names, vec!["b", "a", "b"]);
    assert!(made.iter().all(|o| o.id >= before));
    assert!(rt.name_objects(&vec![]).is_empty());
}

#[test]
fn group_objects_makes_texts_and_nulls() {
    let mut rt = ready();
    let made = rt.group_objects(&vec![Some("whole".to_string()), None, Some("".to_string())]);
    assert_eq!(made.len(), 3);
    assert_eq!(text_of(&rt, made[0]), "whole");
    assert!(matches!(rt.payload(made[1]), Payload::Null));
    assert_eq!(text_of(&rt, made[2]), "");
    assert!(rt.group_objects(&vec![]).is_empty());
}

#[test]
fn bind_remembers_owner_and_callable() {
    let mut rt = ready();
    let owner = instance(&mut rt);
    let five = number(&mut rt, 5);
    let f = function(&mut rt, Function::Constant(five));
    let bound = rt.bind(owner, f);
    assert!(matches!(rt.payload(bound), Payload::BoundFunction(_)));
    assert_eq!(rt.get_own(bound, Literal { index: BOUND_OWNER }), Some(owner));
    assert_eq!(rt.get_own(bound, Literal { index: BOUND_OBJECT }), Some(f));
    let class = rt.class_for(Class::BoundFunction);
    assert_eq!(rt.parents(bound).clone(), vec![class]);
    assert_eq!(rt.call_attr(bound, Literal { index: CALL }, &vec![]), Ok(five));
}

#[test]
fn try_arg_rest_and_prepend() {
    let a = Object { id: 1 };
    let b = Object { id: 2 };
    let c = Object { id: 3 };
    let args = vec![a, b];
    assert_eq!(try_arg(&args, 0), Ok(a));
    assert_eq!(try_arg(&args, 1), Ok(b));
    assert_eq!(try_arg(&args, 2), Err(RuntimeError::ArityOrIndexError { index: 2, len: 2 }));
    assert_eq!(rest(&args), vec![b]);
    assert_eq!(rest(&vec![a]), vec![]);
    assert_eq!(prepend(c, &args), vec![c, a, b]);
    assert_eq!(prepend(c, &vec![]), vec![c]);
}
