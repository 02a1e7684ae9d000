use columnar::array::id::IdArray;
use columnar::array::list::{ConstSizeListArray, ListArray, OptionListArray};
use columnar::array::primitive::PrimitiveArray;
use columnar::scalar::list::OptionList;

#[test]
fn list_array() {
    let mut array = ListArray::new();
    array.push(vec![1, 2]);
    array.push(vec![2, 3, 4]);
    assert_eq!(array.get(0), Some(vec![1, 2]));
    assert_eq!(array.get(1), Some(vec![2, 3, 4]));
}

#[test]
fn nullable_array() {
    let mut array = OptionListArray::new(2);
    array.push(&OptionList::from_vec(&vec![None, Some(1)]));
    array.push(&OptionList::from_vec(&vec![Some(2), Some(3)]));
    assert_eq!(array.get(0).unwrap().get(0), Some(None));
    assert_eq!(array.get(0).unwrap().get(1), Some(Some(1)));
    assert_eq!(array.get(1).unwrap().get(0), Some(Some(2)));
    assert_eq!(array.get(1).unwrap().get(1), Some(Some(3)));
    let mut ref_mut = array.get_unchecked_mut(0);
    ref_mut.set(0, Some(1));
    assert_eq!(array.get(0).unwrap().get(0), Some(Some(1)));
}

#[test]
fn primitive_array() {
    let mut array = PrimitiveArray::new();
    array.push(1);
    array.push(2);
    array.push(3);
    assert_eq!(array.get(0), Some(1));
    assert_eq!(array.get(1), Some(2));
    assert_eq!(array.get(2), Some(3));
}

#[test]
fn rate_field() {
    let mut array: OptionListArray<u8> = OptionListArray::new(32);
    let items: Vec<Option<u8>> = (0..32).map(Some).collect();
    array.push(&OptionList::from_vec(&items));
    let row = array.get(0).unwrap();
    let lhs = row.slice(1, 32);
    let rhs = row.slice(0, 31);
    let _diff = lhs.sub(&rhs);
}

#[test]
fn const_size_rows() {
    let mut array: ConstSizeListArray<i64, 3> = ConstSizeListArray::new();
    array.push([1, 2, 3]);
    array.push_zero();
    array.push([7, 8, 9]);
    assert_eq!(array.len(), 3);
    assert_eq!(array.get(0), Some(vec![1, 2, 3]));
    assert_eq!(array.get(1), Some(vec![0, 0, 0]));
    assert_eq!(array.get(2), Some(vec![7, 8, 9]));
    assert_eq!(array.get(3), None);
    array.set(2, 1, 80);
    assert_eq!(array.get(2), Some(vec![7, 80, 9]));
}

#[test]
fn length_counts_every_push() {
    let mut prim = PrimitiveArray::new();
    let mut list = ListArray::new();
    let mut rows: OptionListArray<u16> = OptionListArray::new(4);
    let mut ids: IdArray<u8> = IdArray::new(ListArray::new());
    for n in 0..10u16 {
        assert_eq!(prim.len(), n as usize);
        assert_eq!(list.len(), n as usize);
        assert_eq!(rows.len(), n as usize);
        assert_eq!(ids.len(), n as usize);
        prim.push(n);
        if n % 2 == 0 {
            list.push(vec![n, n]);
            rows.push(&OptionList::from_vec(&vec![Some(n), None, Some(n), None]));
            ids.push(Some(vec![n as u8]));
        } else {
            list.push_zero();
            rows.push_zero();
            ids.push_zero();
        }
    }
    assert_eq!(prim.len(), 10);
    assert_eq!(list.len(), 10);
    assert_eq!(rows.len(), 10);
    assert_eq!(ids.len(), 10);
    assert!(!prim.is_empty());
}

#[test]
fn push_zero_rows_read_back() {
    let mut list = ListArray::<u32>::new();
    list.push_zero();
    assert_eq!(list.get(0), Some(vec![]));

    let mut rows: OptionListArray<u32> = OptionListArray::new(2);
    rows.push_zero();
    let row = rows.get(0).unwrap();
    assert_eq!(row.get(0), Some(None));
    assert_eq!(row.get(1), Some(None));
    assert_eq!(row.get(2), None);

    let mut prim = PrimitiveArray::<u32>::new();
    prim.push_zero();
    assert_eq!(prim.get(0), Some(0));
}

#[test]
fn out_of_range_reads_are_absent() {
    let prim = PrimitiveArray::<u8>::new();
    assert_eq!(prim.get(0), None);
    let list = ListArray::<u8>::new();
    assert_eq!(list.get(0), None);
    let rows: OptionListArray<u8> = OptionListArray::new(3);
    assert!(rows.get(0).is_none());
    let ids: IdArray<u8> = IdArray::new(ListArray::new());
    assert!(ids.get(0).is_none());
}

#[test]
fn primitive_set_and_unchecked() {
    let mut prim = PrimitiveArray::new();
    prim.push(10i16);
    prim.push(20);
    prim.set(1, 25);
    assert_eq!(prim.get_unchecked(0), 10);
    assert_eq!(prim.get_unchecked(1), 25);
}

#[test]
fn list_array_set_element() {
    let mut array = ListArray::new();
    array.push(vec![1u8, 2]);
    array.push(vec![3, 4, 5]);
    array.set(1, 0, 30);
    array.set(0, 1, 20);
    assert_eq!(array.get(0), Some(vec![1, 20]));
    assert_eq!(array.get(1), Some(vec![30, 4, 5]));
}
