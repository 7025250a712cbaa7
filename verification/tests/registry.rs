use quest_core::class::Builtin;
use quest_core::class::Class;
use quest_core::class::Function;
use quest_core::literal::Literal;
use quest_core::literal::NAME;
use quest_core::object::Payload;
use quest_core::runtime::Runtime;

const ALL: [Class; 11] = [
    Class::Pristine,
    Class::Basic,
    Class::Null,
    Class::Boolean,
    Class::Number,
    Class::Text,
    Class::List,
    Class::Function,
    Class::BoundFunction,
    Class::Regex,
    Class::Scope,
];

fn method_names(rt: &Runtime, class: Class) -> Vec<String> {
    let slot = rt.slot(class);
    let cls = slot.object.unwrap();
    rt.own_keys(cls).iter().map(|k| rt.symbol(*k).clone()).collect()
}

#[test]
fn class_object_is_made_once() {
    let mut rt = Runtime::new(8);
    assert!(rt.slot(Class::Regex).object.is_none());
    let first = rt.class_for(Class::Regex);
    let count = rt.count();
    for _ in 0..5 {
        assert_eq!(rt.class_for(Class::Regex), first);
    }
    assert_eq!(rt.count(), count);
    assert_eq!(rt.slot(Class::Regex).object, Some(first));
}

#[test]
fn class_objects_follow_the_hierarchy() {
    let mut rt = Runtime::new(8);
    let bound = rt.class_for(Class::BoundFunction);
    let function = rt.class_for(Class::Function);
    let basic = rt.class_for(Class::Basic);
    let pristine = rt.class_for(Class::Pristine);
    assert_eq!(rt.parents(bound).clone(), vec![function]);
    assert_eq!(rt.parents(function).clone(), vec![basic]);
    assert_eq!(rt.parents(basic).clone(), vec![pristine]);
    // the base class ends the chain by being its own parent
    assert_eq!(rt.parents(pristine).clone(), vec![pristine]);
    let mut seen = vec![];
    for class in ALL {
        let o = rt.class_for(class);
        assert!(!seen.contains(&o));
        seen.push(o);
    }
}

#[test]
fn instances_have_their_class_as_parent() {
    let mut rt = Runtime::new(8);
    let five = rt.instantiate(Class::Number, Payload::Number(5));
    let class = rt.class_for(Class::Number);
    assert_eq!(rt.parents(five).clone(), vec![class]);
    assert!(matches!(rt.payload(five), Payload::Number(5)));
    assert!(rt.attrs(five).is_empty());
}

#[test]
fn initialization_installs_each_method_once() {
    let mut rt = Runtime::new(8);
    rt.initialize(Class::Pristine).unwrap();
    let expected = vec![
        "name",
        "inspect",
        "__keys__",
        "__call_attr__",
        "__get_attr__",
        "__set_attr__",
        "__has_attr__",
        "__del_attr__",
        "::",
        ".=",
        ".",
        ".?",
        "instance_exec",
        "instance_jump",
        "::@",
    ];
    assert_eq!(expected.len(), 15);
    assert_eq!(method_names(&rt, Class::Pristine), expected);
    let cls = rt.class_for(Class::Pristine);
    let get = rt.intern("__get_attr__");
    let method = rt.get_own(cls, get).unwrap();
    assert!(matches!(
        rt.payload(method),
        Payload::Function(Function::Native(Builtin::PristineGetAttr))
    ));
    let title = rt.get_own(cls, Literal { index: NAME }).unwrap();
    match rt.payload(title) {
        Payload::Text(t) => assert_eq!(t.as_str(), "Pristine"),
        other => panic!("not a text: {:?}", other),
    }
}

#[test]
fn repeated_initialization_changes_nothing() {
    let mut rt = Runtime::new(8);
    assert!(!rt.slot(Class::Regex).claimed);
    assert_eq!(rt.initialize(Class::Regex), Ok(()));
    assert!(rt.slot(Class::Regex).claimed);
    let names = method_names(&rt, Class::Regex);
    assert_eq!(names, vec!["name", "@text", "inspect", "==", "does_match", "match"]);
    let count = rt.count();
    for _ in 0..16 {
        assert_eq!(rt.initialize(Class::Regex), Ok(()));
        assert_eq!(method_names(&rt, Class::Regex), names);
        assert_eq!(rt.count(), count);
    }
}

#[test]
fn every_class_can_be_initialized() {
    let mut rt = Runtime::new(8);
    for class in ALL {
        assert_eq!(rt.initialize(class), Ok(()));
        let names = method_names(&rt, class);
        assert_eq!(names.len(), class.method_count() + 1);
        assert_eq!(names[0], "name");
        for i in 0..class.method_count() {
            assert_eq!(names[i + 1], class.method_at(i).0);
        }
        let cls = rt.class_for(class);
        let title = rt.get_own(cls, Literal { index: NAME }).unwrap();
        match rt.payload(title) {
            Payload::Text(t) => assert_eq!(t.as_str(), class.name()),
            other => panic!("not a text: {:?}", other),
        }
    }
}

#[test]
fn class_indices_and_parents() {
    for (i, class) in ALL.iter().enumerate() {
        assert_eq!(class.index(), i);
    }
    assert_eq!(Class::Pristine.parent(), None);
    assert_eq!(Class::Basic.parent(), Some(Class::Pristine));
    assert_eq!(Class::Regex.parent(), Some(Class::Basic));
    assert_eq!(Class::BoundFunction.parent(), Some(Class::Function));
}
