use ringbuf::storage::{Array, Heap, Owning, Ref, Slice, Storage};

#[test]
fn heap_storage_is_vacant() {
    let heap = Heap::<u32>::new(3);
    assert_eq!(heap.len(), 3);
    assert!(!heap.is_empty());
    assert_eq!(heap.as_slice(), &[None, None, None]);
    assert!(Heap::<u32>::new(0).is_empty());
}

#[test]
fn heap_storage_is_written_through_slices() {
    let mut heap = Heap::<u32>::new(4);
    heap.slice_mut(1..3)[1] = Some(7);
    assert_eq!(heap.slice(0..4), &[None, None, Some(7), None]);
    assert_eq!(heap.slice(2..3), &[Some(7)]);
    assert_eq!(heap.slice(2..2), &[]);
}

#[test]
fn a_box_comes_back() {
    let boxed: Box<[Option<u32>]> = vec![Some(1), None].into_boxed_slice();
    let heap = Heap::from(boxed);
    assert_eq!(heap.len(), 2);
    let boxed: Box<[Option<u32>]> = heap.into();
    assert_eq!(&*boxed, &[Some(1), None]);
}

#[test]
fn an_array_comes_back() {
    let mut array: Array<u32, 3> = Owning::from([Some(1), None, Some(3)]);
    assert_eq!(array.len(), 3);
    array.as_mut_slice()[1] = Some(2);
    let plain: [Option<u32>; 3] = array.into();
    assert_eq!(plain, [Some(1), Some(2), Some(3)]);
}

#[test]
fn a_slice_is_storage() {
    let mut boxed: Box<Slice<u32>> = Box::new(Owning { data: [Some(1), None] });
    assert_eq!(boxed.len(), 2);
    boxed.slice_mut(1..2)[0] = Some(5);
    assert_eq!(boxed.as_slice(), &[Some(1), Some(5)]);
}

#[test]
fn a_reference_writes_to_the_slice_that_it_refers_to() {
    let mut slots = vec![None, Some(2), None];
    let mut storage = Ref::from(slots.as_mut_slice());
    assert_eq!(storage.len(), 3);
    storage.slice_mut(2..3)[0] = Some(3);
    storage.as_mut_slice()[0] = Some(1);
    assert_eq!(storage.slice(0..2), &[Some(1), Some(2)]);
    let back: &mut [Option<u32>] = storage.into();
    back[1] = None;
    assert_eq!(slots, vec![Some(1), None, Some(3)]);
}
