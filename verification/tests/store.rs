use tricone::consts::{scope_type_id, unit_type_id};
use tricone::generic::{
    create_object_from_val, get_bool, get_int, get_text, initialize_object_from_val, take_payload,
};
use tricone::names::first_position_of;
use tricone::object::{Object, ObjectStore, ObjectToken, Payload, SObject};
use tricone::table::NameTable;
use tricone::text::same_name;
use tricone::ErrorKind;

#[test]
fn a_table_keeps_one_entry_per_name() {
    let mut table: NameTable<i32> = NameTable::new();
    assert_eq!(table.len(), 0);
    assert_eq!(table.insert("a".to_owned(), 1), None);
    assert_eq!(table.insert("b".to_owned(), 2), None);
    assert_eq!(table.insert("a".to_owned(), 3), Some(1));
    assert_eq!(table.len(), 2);
    assert_eq!(table.get("a"), Some(&3));
    assert_eq!(table.get("b"), Some(&2));
    assert_eq!(table.get("c"), None);
    assert_eq!(table.position("a"), Some(0));
    assert_eq!(table.position("b"), Some(1));
    assert_eq!(table.position("c"), None);
    assert!(table.contains("b"));
    assert!(!table.contains(""));
    let last = table.pop().unwrap();
    assert_eq!(last.name, "b");
    assert_eq!(last.value, 2);
    assert_eq!(table.len(), 1);
}

#[test]
fn names_are_compared_by_their_text() {
    assert!(same_name("abc", "abc"));
    assert!(!same_name("abc", "abd"));
    assert!(!same_name("abc", "ab"));
    assert!(same_name("", ""));
    let names = vec!["x".to_owned(), "y".to_owned(), "x".to_owned()];
    assert_eq!(first_position_of(&names, "x"), Some(0));
    assert_eq!(first_position_of(&names, "y"), Some(1));
    assert_eq!(first_position_of(&names, "z"), None);
}

#[test]
fn the_store_never_reuses_a_cell() {
    let mut store = ObjectStore::new();
    let a = store.insert(Object::raw_new(unit_type_id()));
    let b = store.insert(Object::raw_new(unit_type_id()));
    assert_eq!(a.index(), 0);
    assert_eq!(b.index(), 1);
    assert!(store.remove(0).is_some());
    assert!(store.remove(0).is_none());
    let c = store.insert(Object::raw_new(unit_type_id()));
    assert_eq!(c.index(), 2);
    assert_eq!(store.len(), 3);
    assert!(!store.is_live(0));
    assert!(store.is_live(1));
    assert!(!store.is_live(3));
    assert!(a.obj(&store).is_none());
    assert!(b.obj(&store).is_some());
}

#[test]
fn counts_follow_retain_and_release() {
    let mut store = ObjectStore::new();
    let a = ObjectToken::new(Object::raw_new(scope_type_id()), &mut store);
    assert_eq!(store.strong_count(0), 1);
    store.retain(0);
    store.retain(0);
    assert_eq!(store.strong_count(0), 3);
    store.release(0);
    assert_eq!(store.strong_count(0), 2);
    store.release(0);
    // The last handle is not given up by `release`.
    store.release(0);
    assert_eq!(store.strong_count(0), 1);
    store.retain(5);
    store.release(5);
    assert_eq!(store.strong_count(5), 0);
    assert_eq!(store.get(0).unwrap().type_, scope_type_id());
    assert!(store.get(1).is_none());
    assert_eq!(a.index(), 0);
}

#[test]
fn a_count_at_the_top_stays_there() {
    let mut cell = SObject::new(Object::raw_new(unit_type_id()));
    assert_eq!(cell.refs, 1);
    cell.dup();
    assert_eq!(cell.refs, 2);
    cell.refs = usize::MAX;
    cell.dup();
    assert_eq!(cell.refs, usize::MAX);
    assert_eq!(cell.obj().type_, unit_type_id());
    cell.obj_mut().type_ = scope_type_id();
    assert_eq!(cell.obj().type_, scope_type_id());
    let mut store = ObjectStore::new();
    store.cells.push(Some(cell));
    store.release(0);
    assert_eq!(store.strong_count(0), usize::MAX);
}

#[test]
fn members_and_payloads_are_put_into_live_objects_only() {
    let mut store = ObjectStore::new();
    let holder = store.insert(Object::raw_new(unit_type_id()));
    let value = store.insert(Object::raw_new(unit_type_id()));
    let value_index = value.index();
    assert!(matches!(store.put_member(holder.index(), "m".to_owned(), value), Ok(None)));
    let member = holder.get_member("m", &mut store).unwrap();
    assert_eq!(member.index(), value_index);
    assert_eq!(store.strong_count(value_index), 2);
    let other = store.insert(Object::raw_new(unit_type_id()));
    let displaced = store.put_member(holder.index(), "m".to_owned(), other).unwrap().unwrap();
    assert_eq!(displaced.index(), value_index);
    let lost = store.insert(Object::raw_new(unit_type_id()));
    let lost_index = lost.index();
    let back = store.put_member(99, "m".to_owned(), lost).unwrap_err();
    assert_eq!(back.index(), lost_index);
    assert!(matches!(store.put_payload(holder.index(), Payload::Int(4)), Ok(Payload::Empty)));
    assert!(matches!(store.put_payload(holder.index(), Payload::Bool(true)), Ok(Payload::Int(4))));
    assert!(matches!(store.put_payload(99, Payload::Int(1)), Err(Payload::Int(1))));
    assert!(holder.obj_mut(&mut store).is_some());
    assert!(ObjectToken::dangling().obj_mut(&mut store).is_none());
    assert!(holder.get_member("absent", &mut store).is_none());
}

#[test]
fn payloads_are_read_by_their_kind() {
    let mut object = create_object_from_val(unit_type_id(), Payload::Int(7));
    assert_eq!(get_int(&object).unwrap(), 7);
    assert_eq!(get_bool(&object).unwrap_err().kind, ErrorKind::TypeError);
    assert_eq!(get_text(&object).unwrap_err().kind, ErrorKind::TypeError);
    initialize_object_from_val(&mut object, Payload::Text("t".to_owned()));
    assert_eq!(get_text(&object).unwrap(), "t");
    assert_eq!(get_int(&object).unwrap_err().kind, ErrorKind::TypeError);
    initialize_object_from_val(&mut object, Payload::Bool(true));
    assert!(get_bool(&object).unwrap());
    assert!(matches!(take_payload(&mut object), Payload::Bool(true)));
    assert!(matches!(object.data, Payload::Empty));
    assert_eq!(get_bool(&object).unwrap_err().kind, ErrorKind::TypeError);
}

#[test]
fn the_decimal_text_is_built_digit_by_digit() {
    assert_eq!(tricone::text::int_to_text(42), "42");
    assert_eq!(tricone::text::int_to_text(0), "0");
    assert_eq!(tricone::text::int_to_text(-1), "-1");
    assert_eq!(tricone::text::int_to_text(1000), "1000");
    assert_eq!(tricone::text::int_to_text(i64::MAX), "9223372036854775807");
    assert_eq!(tricone::text::int_to_text(i64::MIN), "-9223372036854775808");
    assert_eq!(tricone::text::digits_of_number(907), vec![7, 0, 9]);
    assert_eq!(tricone::text::digit_text(7), "7");
    assert_eq!(tricone::text::magnitude(i64::MIN), 9223372036854775808u64);
    assert_eq!(tricone::text::magnitude(-5), 5);
}
