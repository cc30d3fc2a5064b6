use tricone::function::Scope;
use tricone::int_::create_int;
use tricone::interpreter::Interpreter;
use tricone::object::{ObjectToken, Payload};
use tricone::scope::Frame;
use tricone::ErrorKind;

fn int_at(interpreter: &Interpreter, token: &ObjectToken) -> i64 {
    match token.obj(&interpreter.store).unwrap().data {
        Payload::Int(value) => value,
        _ => panic!("an integer object is expected"),
    }
}

#[test]
fn a_child_binding_shadows_the_parent_and_goes_with_the_child() {
    let mut interpreter = Interpreter::new();
    let parent = Scope::new(&mut interpreter.store);
    let one = create_int(&mut interpreter, 1).unwrap();
    parent.vars.assign_member("x".to_owned(), one, &mut interpreter).unwrap();

    let child = parent.dup(&mut interpreter.store).into_child(&mut interpreter.store);
    let seen = child.lookup_name("x", &mut interpreter.store).unwrap();
    assert_eq!(int_at(&interpreter, &seen), 1);
    interpreter.drop_token(seen).unwrap();

    let two = create_int(&mut interpreter, 2).unwrap();
    child.vars.assign_member("x".to_owned(), two, &mut interpreter).unwrap();
    let seen = child.lookup_name("x", &mut interpreter.store).unwrap();
    assert_eq!(int_at(&interpreter, &seen), 2);
    interpreter.drop_token(seen).unwrap();
    let seen = parent.lookup_name("x", &mut interpreter.store).unwrap();
    assert_eq!(int_at(&interpreter, &seen), 1);
    interpreter.drop_token(seen).unwrap();

    let child_index = child.vars.index();
    interpreter.drop_token(child.vars).unwrap();
    assert!(!interpreter.store.is_live(child_index));
    let seen = parent.lookup_name("x", &mut interpreter.store).unwrap();
    assert_eq!(int_at(&interpreter, &seen), 1);
    interpreter.drop_token(seen).unwrap();
    interpreter.drop_token(parent.vars).unwrap();
}

#[test]
fn a_name_bound_in_the_child_alone_is_not_found_in_the_parent() {
    let mut interpreter = Interpreter::new();
    let parent = Scope::new(&mut interpreter.store);
    let child = parent.dup(&mut interpreter.store).into_child(&mut interpreter.store);
    let value = create_int(&mut interpreter, 7).unwrap();
    child.vars.assign_member("y".to_owned(), value, &mut interpreter).unwrap();
    assert!(parent.lookup_name("y", &mut interpreter.store).is_none());
    let seen = child.lookup_name("y", &mut interpreter.store).unwrap();
    assert_eq!(int_at(&interpreter, &seen), 7);
    interpreter.drop_token(seen).unwrap();
    interpreter.drop_token(child.vars).unwrap();
    assert!(parent.lookup_name("y", &mut interpreter.store).is_none());
    interpreter.drop_token(parent.vars).unwrap();
}

#[test]
fn lookup_walks_several_parents() {
    let mut interpreter = Interpreter::new();
    let root = Scope::new(&mut interpreter.store);
    let value = create_int(&mut interpreter, 3).unwrap();
    root.vars.assign_member("deep".to_owned(), value, &mut interpreter).unwrap();
    let a = root.dup(&mut interpreter.store).into_child(&mut interpreter.store);
    let b = a.into_child(&mut interpreter.store);
    let c = b.into_child(&mut interpreter.store);
    let seen = c.lookup_name("deep", &mut interpreter.store).unwrap();
    assert_eq!(int_at(&interpreter, &seen), 3);
    interpreter.drop_token(seen).unwrap();
    assert!(c.lookup_name("absent", &mut interpreter.store).is_none());
    let cells = interpreter.store.len();
    interpreter.drop_token(c.vars).unwrap();
    // The three children are gone; the root lives on through its own handle.
    assert!(!interpreter.store.is_live(cells - 1));
    assert!(!interpreter.store.is_live(cells - 2));
    assert!(!interpreter.store.is_live(cells - 3));
    assert!(interpreter.store.is_live(root.vars.index()));
    interpreter.drop_token(root.vars).unwrap();
}

#[test]
fn lookup_ends_on_a_chain_that_leads_back_to_itself() {
    let mut interpreter = Interpreter::new();
    let scope = Scope::new(&mut interpreter.store);
    let again = scope.vars.dup(&mut interpreter.store);
    scope.vars.assign_member("!parent".to_owned(), again, &mut interpreter).unwrap();
    assert!(scope.lookup_name("nowhere", &mut interpreter.store).is_none());
}

#[test]
fn assign_overwrites_and_gives_up_the_old_binding() {
    let mut interpreter = Interpreter::new();
    let scope = Scope::new(&mut interpreter.store);
    let first = create_int(&mut interpreter, 1).unwrap();
    let first_index = first.index();
    scope.vars.assign_member("x".to_owned(), first, &mut interpreter).unwrap();
    assert!(interpreter.store.is_live(first_index));
    let second = create_int(&mut interpreter, 2).unwrap();
    scope.vars.assign_member("x".to_owned(), second, &mut interpreter).unwrap();
    assert!(!interpreter.store.is_live(first_index));
    let seen = scope.lookup_name("x", &mut interpreter.store).unwrap();
    assert_eq!(int_at(&interpreter, &seen), 2);
    interpreter.drop_token(seen).unwrap();
    interpreter.drop_token(scope.vars).unwrap();
}

#[test]
fn a_scope_handle_is_only_taken_for_a_scope() {
    let mut interpreter = Interpreter::new();
    // A handle to another object is refused and given up: the last handle
    // takes the object with it, one of several lowers the count.
    let number = create_int(&mut interpreter, 1).unwrap();
    let index = number.index();
    let error = Scope::from_object(number, &mut interpreter).err().unwrap();
    assert_eq!(error.kind, ErrorKind::TypeError);
    assert!(!interpreter.store.is_live(index));
    let number = create_int(&mut interpreter, 2).unwrap();
    let kept = number.dup(&mut interpreter.store);
    let error = Scope::from_object(number, &mut interpreter).err().unwrap();
    assert_eq!(error.kind, ErrorKind::TypeError);
    assert_eq!(interpreter.store.strong_count(kept.index()), 1);
    // A handle to a scope is taken as it is.
    let scope = Scope::new(&mut interpreter.store);
    let handle = scope.vars.dup(&mut interpreter.store);
    let taken = Scope::from_object(handle, &mut interpreter).ok().unwrap();
    assert_eq!(taken.vars, scope.vars);
    assert_eq!(interpreter.store.strong_count(scope.vars.index()), 2);
}

#[test]
fn a_frame_enters_and_leaves_nested_scopes() {
    let mut interpreter = Interpreter::new();
    let root = Scope::new(&mut interpreter.store);
    let root_index = root.vars.index();
    let mut frame = Frame::new(root);
    frame.push_scope(&mut interpreter.store);
    let inner = frame.top_scope.vars.index();
    assert_ne!(inner, root_index);
    let parent = frame.top_scope.parent(&mut interpreter.store).unwrap().unwrap();
    assert_eq!(parent.vars.index(), root_index);
    interpreter.drop_token(parent.vars).unwrap();
    frame.pop_scope(&mut interpreter).unwrap();
    assert_eq!(frame.top_scope.vars.index(), root_index);
    assert!(!interpreter.store.is_live(inner));
    // At the root there is nothing to leave.
    assert_eq!(frame.pop_scope(&mut interpreter).unwrap_err().kind, ErrorKind::NameError);
    assert_eq!(frame.top_scope.vars.index(), root_index);
}

#[test]
fn leaving_a_scope_whose_values_are_held_runs_nothing() {
    let mut interpreter = Interpreter::new();
    let parent = Scope::new(&mut interpreter.store);
    let one = create_int(&mut interpreter, 1).unwrap();
    parent.vars.assign_member("x".to_owned(), one, &mut interpreter).unwrap();
    let child = parent.dup(&mut interpreter.store).into_child(&mut interpreter.store);
    let two = create_int(&mut interpreter, 2).unwrap();
    let kept = two.dup(&mut interpreter.store);
    child.vars.assign_member("x".to_owned(), two, &mut interpreter).unwrap();
    let again = kept.dup(&mut interpreter.store);
    child.vars.assign_member("y".to_owned(), again, &mut interpreter).unwrap();

    let count = |interpreter: &Interpreter, index: usize| {
        interpreter.store.cells[index].as_ref().map(|cell| cell.refs)
    };
    let cells = interpreter.store.cells.len();
    let budget = interpreter.budget;
    let depth = interpreter.depth;
    assert_eq!(count(&interpreter, kept.index()), Some(3));
    assert_eq!(count(&interpreter, parent.vars.index()), Some(2));
    let child_index = child.vars.index();
    interpreter.drop_token(child.vars).unwrap();

    assert_eq!(count(&interpreter, child_index), None);
    assert_eq!(count(&interpreter, kept.index()), Some(1));
    assert_eq!(count(&interpreter, parent.vars.index()), Some(1));
    assert_eq!(interpreter.store.cells.len(), cells);
    assert_eq!(interpreter.budget, budget - 1);
    assert_eq!(interpreter.depth, depth);
    assert!(interpreter.output().is_empty());
    assert_eq!(int_at(&interpreter, &kept), 2);
    let seen = parent.lookup_name("x", &mut interpreter.store).unwrap();
    assert_eq!(int_at(&interpreter, &seen), 1);
    assert!(parent.lookup_name("y", &mut interpreter.store).is_none());
}
