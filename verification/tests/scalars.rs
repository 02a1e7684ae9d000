use columnar::scalar::list::OptionList;
use columnar::scalar::Scalar;

#[test]
fn test_list() {
    let list = OptionList::from_vec(&vec![None, Some(1)]);
    assert_eq!(list.as_ref().get(0), Some(None));
    assert_eq!(list.as_ref().get(1), Some(Some(1)));
    assert_eq!(list.as_ref().get(2), None);
}

#[test]
fn sub_option_slice() {
    let lhs = OptionList::from_vec(&vec![Some(2), None, Some(8)]);
    let rhs = OptionList::from_vec(&vec![Some(1), Some(2), Some(3)]);
    let result = lhs.as_ref().sub(&rhs.as_ref());
    assert_eq!(result.get(0), Some(1));
    assert_eq!(result.get(1), None);
    assert_eq!(result.get(2), Some(5));
    assert_eq!(result.get(3), None);
}

#[test]
fn option_list_set_and_get() {
    let mut list = OptionList::from_vec(&vec![Some(4u32), None, Some(6)]);
    assert_eq!(list.get(0), Some(4));
    assert_eq!(list.get(1), None);
    list.set(1, Some(5));
    list.set(0, None);
    assert_eq!(list.get(0), None);
    assert_eq!(list.get(1), Some(5));
    assert_eq!(list.get(2), Some(6));
    assert_eq!(list.get(3), None);
}

#[test]
fn option_slice_sub_range() {
    let list = OptionList::from_vec(&vec![Some(1u8), Some(2), None, Some(4), Some(5)]);
    let view = list.as_ref();
    let mid = view.slice(1, 4);
    assert_eq!(mid.get(0), Some(Some(2)));
    assert_eq!(mid.get(1), Some(None));
    assert_eq!(mid.get(2), Some(Some(4)));
    assert_eq!(mid.get(3), None);
}

#[test]
fn scalar_views_preserve_values() {
    let owned: u32 = 7;
    assert_eq!(Scalar::as_read(&owned), 7);

    let row: Vec<u8> = vec![1, 2, 3];
    assert_eq!(Scalar::as_read(&row), vec![1, 2, 3]);

    let list = OptionList::from_vec(&vec![Some(9i8), None]);
    let view = Scalar::as_read(&list);
    assert_eq!(view.get(0), Some(Some(9)));
    assert_eq!(view.get(1), Some(None));
}

#[test]
fn option_list_write_view() {
    let mut list = OptionList::from_vec(&vec![Some(4u8), None, Some(6)]);
    let mut m = list.as_mut();
    m.set(0, None);
    m.set(1, Some(5));
    let read = m.as_ref();
    assert_eq!(read.get(0), Some(None));
    assert_eq!(read.get(1), Some(Some(5)));
    assert_eq!(read.get(2), Some(Some(6)));
    assert_eq!(list.get(0), None);
    assert_eq!(list.get(1), Some(5));
    assert_eq!(list.get(2), Some(6));
}
