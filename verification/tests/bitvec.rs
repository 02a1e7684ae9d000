use columnar::bitvec::BitVec;

#[test]
fn get_set() {
    let origin = [
        true, false, false, true, false, true, false, false, true, true, false, true, false,
        true, false, false,
    ];

    let v = BitVec::from_bools(&origin.to_vec());

    for (id, o) in origin.iter().enumerate() {
        assert_eq!(v.get(id).unwrap(), *o);
    }
}

#[test]
fn bit_and() {
    let left = [
        true, false, false, true, false, true, false, false, true, true, false, true, false,
        true, false, false,
    ];
    let right = [
        true, false, true, false, false, false, false, true, true, false, true, true, true,
        false, true, false,
    ];

    let lhs = BitVec::from_bools(&left.to_vec());
    let rhs = BitVec::from_bools(&right.to_vec());

    let mut expect = [false; 16];
    for (id, (l, r)) in left.iter().zip(right).enumerate() {
        expect[id] = l & r;
    }

    let result = lhs.bitand(&rhs);

    for (id, o) in expect.iter().enumerate() {
        assert_eq!(result.get(id).unwrap(), *o);
    }
}

#[test]
fn slice() {
    let vec = BitVec::from_bools(&vec![true, false, true, false, true, false]);
    let slice = vec.slice(1, 5);
    assert_eq!(slice.get(0), Some(false));
    assert_eq!(slice.get(3), Some(true));
    assert_eq!(slice.get(4), None);
    let slice = slice.slice(1, 3);
    assert_eq!(slice.get(0), Some(true));
    assert_eq!(slice.get(1), Some(false));
    assert_eq!(slice.get(2), None);
}

#[test]
fn push_get_round_trip() {
    let bits = vec![true, true, false, true, false, false, true, false, true];
    let mut v = BitVec::new();
    for (i, b) in bits.iter().enumerate() {
        assert_eq!(v.get(i), None);
        v.push(*b);
        assert_eq!(v.get(i), Some(*b));
    }
    for (i, b) in bits.iter().enumerate() {
        assert_eq!(v.get(i), Some(*b));
    }
    assert_eq!(v.get(bits.len()), None);
}

#[test]
fn bitand_truncates_to_shorter() {
    let lhs = BitVec::from_bools(&vec![true, true, true, true, true]);
    let rhs = BitVec::from_bools(&vec![true, false, true]);
    let result = lhs.bitand(&rhs);
    assert_eq!(result.get(0), Some(true));
    assert_eq!(result.get(1), Some(false));
    assert_eq!(result.get(2), Some(true));
    assert_eq!(result.get(3), None);
}

#[test]
fn set_overwrites_single_bit() {
    let mut v = BitVec::from_bools(&vec![false, false, false, false, false, false, false, false, false]);
    v.set(8, true);
    v.set(3, true);
    assert_eq!(v.get(3), Some(true));
    assert_eq!(v.get(8), Some(true));
    for i in [0usize, 1, 2, 4, 5, 6, 7] {
        assert_eq!(v.get(i), Some(false));
    }
}

#[test]
fn slice_to_vec_realigns() {
    let v = BitVec::from_bools(&vec![true, false, true, true, false, true, false, false, true, true]);
    let s = v.slice(3, 9);
    let copied = s.to_vec();
    for i in 0..6 {
        assert_eq!(copied.get(i), v.get(i + 3));
    }
    assert_eq!(copied.get(6), None);
}

#[test]
fn slice_mut_writes_into_vector() {
    let mut v = BitVec::from_bools(&vec![false, false, false, false, false]);
    let mut m = v.slice_mut(1, 4);
    assert_eq!(m.len(), 3);
    m.set(0, true);
    m.set(2, true);
    let read = m.as_ref();
    assert_eq!(read.get(0), Some(true));
    assert_eq!(read.get(1), Some(false));
    assert_eq!(read.get(2), Some(true));
    assert_eq!(v.get(0), Some(false));
    assert_eq!(v.get(1), Some(true));
    assert_eq!(v.get(2), Some(false));
    assert_eq!(v.get(3), Some(true));
    assert_eq!(v.get(4), Some(false));
}

#[test]
fn as_slice_mut_covers_whole_vector() {
    let mut v = BitVec::from_bools(&vec![true, true]);
    let mut m = v.as_slice_mut();
    m.set(0, false);
    assert_eq!(v.get(0), Some(false));
    assert_eq!(v.get(1), Some(true));
}
