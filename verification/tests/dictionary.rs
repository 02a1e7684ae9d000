use columnar::array::id::IdArray;
use columnar::array::list::ListArray;
use columnar::array::slotmap::SlotMap;

#[test]
fn id_array() {
    let mut array = IdArray::<u8>::new(ListArray::<u8>::new());
    array.push(Some(Vec::from("foo")));
    array.push(Some(Vec::from("bar")));
    array.push(Some(Vec::from("quaz")));
    array.push(Some(Vec::from("bar")));
    assert_eq!(array.get(0), Some(Some(Vec::from("foo"))));
    assert_eq!(array.get(1), Some(Some(Vec::from("bar"))));
    assert_eq!(array.get(2), Some(Some(Vec::from("quaz"))));
    assert_eq!(array.get(3), array.get(1));
}

#[test]
fn get_and_lookup() {
    let mut dict = SlotMap::<u8>::new(ListArray::new());
    let id = dict.lookup_or_insert(Vec::from("hello, world"));
    let id2 = dict.lookup_or_insert(Vec::from("hello, world"));
    assert_eq!(id, id2);
    let id3 = dict.lookup_or_insert(Vec::from("hello world"));
    assert_ne!(id, id3);
    let v1 = dict.get(id);
    let v2 = dict.get(id2);
    assert_eq!(v1, v2);
    let id = dict.lookup(&Vec::from("hello, world"));
    assert_eq!(id, Some(1));
}

#[test]
fn dictionary_ids_in_order() {
    let mut array = IdArray::<u8>::new(ListArray::<u8>::new());
    assert_eq!(array.push_and_get_id(Some(Vec::from("foo"))), 1);
    assert_eq!(array.push_and_get_id(Some(Vec::from("bar"))), 2);
    assert_eq!(array.push_and_get_id(Some(Vec::from("quaz"))), 3);
    assert_eq!(array.push_and_get_id(Some(Vec::from("bar"))), 2);
    assert_eq!(array.lookup_id(&Vec::from("bar")), Some(2));
    assert_eq!(array.get(3), array.get(1));
}

#[test]
fn null_reservation() {
    let mut dict = SlotMap::<u8>::new(ListArray::new());
    assert_eq!(dict.get(0), Some(None));
    let id = dict.lookup_or_insert(Vec::from("a"));
    assert!(id >= 1);
    assert_eq!(dict.get(0), Some(None));

    let mut array = IdArray::<u8>::new(ListArray::<u8>::new());
    assert_eq!(array.push_and_get_id(None), 0);
    array.push_zero();
    assert_eq!(array.get(0), Some(None));
    assert_eq!(array.get(1), Some(None));
    assert_eq!(array.push_and_get_id(Some(Vec::from("a"))), 1);
}

#[test]
fn lookup_without_insert_leaves_dictionary() {
    let dict = SlotMap::<u8>::new(ListArray::new());
    assert_eq!(dict.lookup(&Vec::from("absent")), None);
    assert_eq!(dict.slot_count(), 0);

    let mut dict = SlotMap::<u8>::new(ListArray::new());
    let a = dict.lookup_or_insert(Vec::from("one"));
    let b = dict.lookup_or_insert(Vec::from("two"));
    assert_eq!(dict.slot_count(), 2);
    assert_eq!(dict.lookup(&Vec::from("one")), Some(a));
    assert_eq!(dict.lookup(&Vec::from("two")), Some(b));
    assert_eq!(dict.lookup(&Vec::from("three")), None);
    assert_eq!(dict.slot_count(), 2);
}

#[test]
fn alternating_novel_and_seen_values() {
    let mut dict = SlotMap::<u8>::new(ListArray::new());
    let mut ids = Vec::new();
    for round in 0..3 {
        for word in ["red", "green", "blue", "red"] {
            let id = dict.lookup_or_insert(Vec::from(word));
            if round == 0 {
                ids.push(id);
            } else {
                let expect = match word {
                    "red" => ids[0],
                    "green" => ids[1],
                    _ => ids[2],
                };
                assert_eq!(id, expect);
            }
        }
    }
    assert_eq!(dict.slot_count(), 3);
}

#[test]
fn interned_edit_is_shared() {
    let mut array = IdArray::<u8>::new(ListArray::<u8>::new());
    array.push(Some(Vec::from("foo")));
    array.push(Some(Vec::from("bar")));
    array.push(Some(Vec::from("foo")));
    array.set(0, 0, b'g');
    assert_eq!(array.get(0), Some(Some(Vec::from("goo"))));
    assert_eq!(array.get(2), Some(Some(Vec::from("goo"))));
    assert_eq!(array.get(1), Some(Some(Vec::from("bar"))));
}

#[test]
fn slot_edit_reaches_lookup() {
    let mut dict = SlotMap::<u8>::new(ListArray::new());
    let id = dict.lookup_or_insert(Vec::from("cat"));
    dict.set(id, 0, b'b');
    assert_eq!(dict.get(id), Some(Some(Vec::from("bat"))));
    assert_eq!(dict.lookup(&Vec::from("bat")), Some(id));
    assert_eq!(dict.lookup(&Vec::from("cat")), None);
}
