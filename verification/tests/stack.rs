use quest_core::error::RuntimeError;
use quest_core::object::Object;
use quest_core::object::Payload;
use quest_core::pristine::Pristine;
use quest_core::runtime::Runtime;

fn bare(rt: &mut Runtime) -> Object {
    rt.create(vec![], Payload::Pristine(Pristine))
}

fn nest(rt: &mut Runtime, owner: Object, depth: usize, fail_at: Option<usize>) -> Result<usize, RuntimeError> {
    if Some(depth) == fail_at {
        return Err(RuntimeError::ArityOrIndexError { index: depth, len: 0 });
    }
    if depth == 0 {
        return Ok(rt.stack_len());
    }
    rt.run_in_new_frame(owner, vec![], |inner| nest(inner, owner, depth - 1, fail_at))
}

#[test]
fn frames_are_pushed_and_popped_in_order() {
    let mut rt = Runtime::new(8);
    let a = bare(&mut rt);
    let b = bare(&mut rt);
    assert_eq!(rt.stack_len(), 0);
    assert!(rt.frame_at(0).is_none());
    assert!(rt.pop_frame().is_none());
    rt.push_frame(a, vec![b]);
    rt.push_frame(b, vec![]);
    assert_eq!(rt.stack_len(), 2);
    let top = rt.frame_at(0).unwrap();
    assert_eq!(top.owner, b);
    assert_eq!(top.args, vec![]);
    let below = rt.frame_at(1).unwrap();
    assert_eq!(below.owner, a);
    assert_eq!(below.args, vec![b]);
    assert!(rt.frame_at(2).is_none());
    let popped = rt.pop_frame().unwrap();
    assert_eq!(popped.owner, b);
    assert_eq!(rt.frame_at(0).unwrap().owner, a);
    let popped = rt.pop_frame().unwrap();
    assert_eq!(popped.owner, a);
    assert_eq!(popped.args, vec![b]);
    assert_eq!(rt.stack_len(), 0);
}

#[test]
fn scoped_frame_is_seen_by_the_body_and_gone_after() {
    let mut rt = Runtime::new(8);
    let a = bare(&mut rt);
    let b = bare(&mut rt);
    let seen = rt.run_in_new_frame(a, vec![b], |inner| {
        let frame = inner.frame_at(0).unwrap();
        Ok((inner.stack_len(), frame.owner, frame.args))
    });
    assert_eq!(seen, Ok((1, a, vec![b])));
    assert_eq!(rt.stack_len(), 0);
}

#[test]
fn body_result_is_handed_on_unchanged() {
    let mut rt = Runtime::new(8);
    let a = bare(&mut rt);
    let ok: Result<i32, RuntimeError> = rt.run_in_new_frame(a, vec![], |_| Ok(17));
    assert_eq!(ok, Ok(17));
    let err: Result<i32, RuntimeError> = rt.run_in_new_frame(a, vec![], |_| Err(RuntimeError::DepthExceeded));
    assert_eq!(err, Err(RuntimeError::DepthExceeded));
}

#[test]
fn nested_frames_leave_the_stack_as_it_was() {
    let mut rt = Runtime::new(8);
    let a = bare(&mut rt);
    rt.push_frame(a, vec![]);
    let before = rt.stack_len();
    assert_eq!(nest(&mut rt, a, 40, None), Ok(before + 40));
    assert_eq!(rt.stack_len(), before);
}

#[test]
fn failing_bodies_leave_the_stack_as_it_was() {
    let mut rt = Runtime::new(8);
    let a = bare(&mut rt);
    rt.push_frame(a, vec![]);
    let before = rt.stack_len();
    for fail_at in [0usize, 1, 7, 39, 40] {
        assert_eq!(
            nest(&mut rt, a, 40, Some(fail_at)),
            Err(RuntimeError::ArityOrIndexError { index: fail_at, len: 0 })
        );
        assert_eq!(rt.stack_len(), before);
        assert_eq!(rt.frame_at(0).unwrap().owner, a);
    }
}
