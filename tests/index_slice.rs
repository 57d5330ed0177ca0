use tidec::idx::Idx;
use tidec::index_slice::IdxSlice;
use tidec::index_vec::IdxVec;

#[derive(Debug, Clone, Copy, PartialEq, Eq, Hash)]
struct TestIdx(usize);

impl Idx for TestIdx {
    fn spec_idx(&self) -> usize {
        self.0
    }

    fn new(idx: usize) -> Self {
        TestIdx(idx)
    }

    fn idx(&self) -> usize {
        self.0
    }

    fn incr(&mut self) {
        self.0 += 1;
    }

    fn incr_by(&mut self, by: usize) {
        self.0 += by;
    }
}

#[test]
fn test_empty() {
    let slice: IdxSlice<TestIdx, i32> = IdxSlice::empty();
    assert_eq!(slice.len(), 0);
    assert!(slice.is_empty());
}

#[test]
fn index_slice_test_from_raw() {
    let raw = [1, 2, 3, 4, 5];
    let slice: IdxSlice<TestIdx, i32> = IdxSlice::from_raw(&raw);

    assert_eq!(slice.len(), 5);
    assert!(!slice.is_empty());
    assert_eq!(slice[TestIdx::new(0)], 1);
    assert_eq!(slice[TestIdx::new(4)], 5);
}

#[test]
fn test_next_index() {
    let raw = [10, 20, 30];
    let slice: IdxSlice<TestIdx, i32> = IdxSlice::from_raw(&raw);
    let next = slice.next_index();

    assert_eq!(next, TestIdx::new(3));
}

#[test]
fn index_slice_test_iter() {
    let raw = [1, 2, 3];
    let slice: IdxSlice<TestIdx, i32> = IdxSlice::from_raw(&raw);
    let items: Vec<_> = slice.iter().copied().collect();

    assert_eq!(items, vec![1, 2, 3]);
}

#[test]
fn test_iter_enumerated() {
    let raw = [10, 20, 30];
    let slice: IdxSlice<TestIdx, i32> = IdxSlice::from_raw(&raw);
    let items: Vec<_> = slice.iter_enumerated();

    assert_eq!(items.len(), 3);
    assert_eq!(items[0], (TestIdx::new(0), &10));
    assert_eq!(items[1], (TestIdx::new(1), &20));
    assert_eq!(items[2], (TestIdx::new(2), &30));
}

#[test]
fn test_indices() {
    let raw = [1, 2, 3, 4];
    let slice: IdxSlice<TestIdx, i32> = IdxSlice::from_raw(&raw);
    let indices: Vec<_> = slice.indices();

    assert_eq!(indices, vec![TestIdx::new(0), TestIdx::new(1), TestIdx::new(2), TestIdx::new(3)]);
}

#[test]
fn test_last_index() {
    let raw = [1, 2, 3];
    let slice: IdxSlice<TestIdx, i32> = IdxSlice::from_raw(&raw);
    assert_eq!(slice.last_index(), Some(TestIdx::new(2)));

    let empty_raw: [i32; 0] = [];
    let empty_slice: IdxSlice<TestIdx, i32> = IdxSlice::from_raw(&empty_raw);
    assert_eq!(empty_slice.last_index(), None);
}

#[test]
fn test_swap() {
    let mut vec: IdxVec<TestIdx, i32> = IdxVec::from_raw(vec![1, 2, 3, 4]);
    vec.swap(TestIdx::new(0), TestIdx::new(3));
    assert_eq!(vec.raw, vec![4, 2, 3, 1]);

    vec.swap(TestIdx::new(1), TestIdx::new(2));
    assert_eq!(vec.raw, vec![4, 3, 2, 1]);
}

#[test]
fn test_get() {
    let raw = [10, 20, 30, 40, 50];
    let slice: IdxSlice<TestIdx, i32> = IdxSlice::from_raw(&raw);

    assert_eq!(slice.get(TestIdx::new(2)), Some(&30));
    assert_eq!(slice.get(TestIdx::new(10)), None);

    let range_result = slice.get_range(TestIdx::new(1), TestIdx::new(4));
    assert_eq!(range_result, Some(&[20, 30, 40][..]));
}

#[test]
fn test_get_mut() {
    let mut vec: IdxVec<TestIdx, i32> = IdxVec::from_raw(vec![10, 20, 30, 40, 50]);
    if let Some(item) = vec.get_mut(TestIdx::new(2)) {
        *item = 99;
    }
    assert!(vec.get_mut(TestIdx::new(10)).is_none());
    assert_eq!(vec.raw[2], 99);
}

#[test]
fn test_pick2_mut() {
    let mut vec: IdxVec<TestIdx, i32> = IdxVec::from_raw(vec![1, 2, 3, 4, 5]);
    {
        let (a, b) = vec.pick2_mut(TestIdx::new(1), TestIdx::new(3));
        *a = 99;
        *b = 88;
    }
    assert_eq!(vec.raw, vec![1, 99, 3, 88, 5]);

    {
        let (c, d) = vec.pick2_mut(TestIdx::new(4), TestIdx::new(0));
        *c = 77;
        *d = 66;
    }
    assert_eq!(vec.raw, vec![66, 99, 3, 88, 77]);
}

#[test]
#[should_panic]
fn test_pick2_mut_panic_same_index() {
    let mut vec: IdxVec<TestIdx, i32> = IdxVec::from_raw(vec![1, 2, 3]);
    vec.pick2_mut(TestIdx::new(1), TestIdx::new(1));
}

#[test]
fn test_binary_search() {
    let raw = [10, 20, 30, 40, 50];
    let slice: IdxSlice<TestIdx, i32> = IdxSlice::from_raw(&raw);

    assert_eq!(slice.binary_search(&30), Ok(TestIdx::new(2)));
    assert_eq!(slice.binary_search(&35), Err(TestIdx::new(3)));
    assert_eq!(slice.binary_search(&5), Err(TestIdx::new(0)));
    assert_eq!(slice.binary_search(&60), Err(TestIdx::new(5)));
}

#[test]
fn test_index_operations() {
    let raw = [100, 200, 300, 400, 500];
    let slice: IdxSlice<TestIdx, i32> = IdxSlice::from_raw(&raw);

    assert_eq!(slice[TestIdx::new(2)], 300);

    let sub_slice = slice.index_range(TestIdx::new(1), TestIdx::new(4));
    assert_eq!(sub_slice, &[200, 300, 400]);
}

#[test]
fn test_into_iterator() {
    let raw = [1, 2, 3, 4];
    let slice: IdxSlice<TestIdx, i32> = IdxSlice::from_raw(&raw);

    let items: Vec<_> = slice.into_iter().copied().collect();
    assert_eq!(items, vec![1, 2, 3, 4]);
}

#[test]
fn get_past_end_is_absent_and_in_range_is_present() {
    let mut vec: IdxVec<TestIdx, u8> = IdxVec::new();
    for v in 0..4u8 {
        vec.push(v);
    }
    assert_eq!(vec.get(TestIdx::new(3)), Some(&3));
    assert_eq!(vec.get(TestIdx::new(4)), None);
    assert_eq!(vec.as_slice().get(TestIdx::new(4)), None);
    assert_eq!(vec.as_slice().get_range(TestIdx::new(3), TestIdx::new(5)), None);
    assert_eq!(vec.as_slice().get_range(TestIdx::new(2), TestIdx::new(1)), None);
}

#[test]
fn index_slice_test_iter_mut() {
    let mut vec: IdxVec<TestIdx, i32> = IdxVec::from_raw(vec![1, 2, 3]);

    for item in vec.iter_mut() {
        *item *= 2;
    }

    assert_eq!(vec.raw, vec![2, 4, 6]);
}

#[test]
fn test_into_iterator_mut() {
    let mut vec: IdxVec<TestIdx, i32> = IdxVec::from_raw(vec![1, 2, 3, 4]);
    for item in &mut vec {
        *item *= 3;
    }
    assert_eq!(vec.raw, vec![3, 6, 9, 12]);
}

#[test]
fn test_index_mut_operations() {
    let mut vec: IdxVec<TestIdx, i32> = IdxVec::from_raw(vec![1, 2, 3, 4, 5]);
    *vec.get_mut(TestIdx::new(2)).unwrap() = 99;
    assert_eq!(vec.raw[2], 99);

    *vec.get_mut(TestIdx::new(0)).unwrap() = 88;
    *vec.get_mut(TestIdx::new(1)).unwrap() = 77;
    assert_eq!(vec.raw, vec![88, 77, 99, 4, 5]);
}

#[test]
fn test_pick3_mut() {
    let mut vec: IdxVec<TestIdx, i32> = IdxVec::from_raw(vec![1, 2, 3, 4, 5]);
    {
        let (a, b, c) = vec.pick3_mut(TestIdx::new(0), TestIdx::new(2), TestIdx::new(4));
        *a = 10;
        *b = 30;
        *c = 50;
    }
    assert_eq!(vec.raw, vec![10, 2, 30, 4, 50]);
}

#[test]
#[should_panic]
fn test_pick3_mut_panic_duplicate_indices() {
    let mut vec: IdxVec<TestIdx, i32> = IdxVec::from_raw(vec![1, 2, 3, 4, 5]);
    vec.pick3_mut(TestIdx::new(0), TestIdx::new(2), TestIdx::new(0));
}

#[test]
fn pick3_mut_in_any_order() {
    let mut vec: IdxVec<TestIdx, i32> = IdxVec::from_raw(vec![1, 2, 3, 4, 5]);
    {
        let (a, b, c) = vec.pick3_mut(TestIdx::new(3), TestIdx::new(0), TestIdx::new(1));
        *a = 40;
        *b = 0;
        *c = 20;
    }
    assert_eq!(vec.raw, vec![0, 20, 3, 40, 5]);
}

#[test]
fn test_iter_enumerated_mut() {
    let mut vec: IdxVec<TestIdx, i32> = IdxVec::from_raw(vec![10, 20, 30]);

    for (idx, item) in vec.iter_enumerated_mut() {
        *item = (idx.idx() * 100) as i32;
    }

    assert_eq!(vec.raw, vec![0, 100, 200]);
}

#[test]
fn as_mut_slice_writes_through() {
    let mut vec: IdxVec<TestIdx, i32> = IdxVec::from_raw(vec![1, 2, 3]);
    vec.as_mut_slice()[1] = 99;
    assert_eq!(vec.raw, vec![1, 99, 3]);
}

#[test]
fn binary_search_on_unsorted_slice_stays_in_range() {
    let raw = [30, 10, 20];
    let slice: IdxSlice<TestIdx, i32> = IdxSlice::from_raw(&raw);
    match slice.binary_search(&10) {
        Ok(i) => assert_eq!(raw[i.idx()], 10),
        Err(i) => assert!(i.idx() <= raw.len()),
    }
}
