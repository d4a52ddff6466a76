use ledge_engine::ecs::entity::EntityController;
use ledge_engine::ecs::join::{JoinIterator, Joinable};
use ledge_engine::ecs::layeredbitmap::LayeredBitMap;
use ledge_engine::ecs::storage::{DynamicStorage, TrackedStorage, TryDefault, VecStorage};
use ledge_engine::ecs::storage::LayeredBitMap as StorageBitMap;
use ledge_engine::ecs::component::Component;

fn bitmap_with(indices: &[usize]) -> LayeredBitMap {
    let mut b = LayeredBitMap::new();
    for &i in indices {
        b.insert(i);
    }
    b
}

#[test]
fn layered_bitmap_starts_empty() {
    let b = LayeredBitMap::new();
    assert_eq!(b.len(), 0);
    assert!(b.layer0.is_empty());
    assert!(b.layer1.is_empty());
}

#[test]
fn layered_bitmap_insert_sets_both_layers() {
    let b = bitmap_with(&[5]);
    assert_eq!(b.len(), 1);
    assert_eq!(b.layer0, vec![1u64 << 5]);
    assert_eq!(b.layer1, vec![1u64 << 1]);
    assert!(b.check(5));
    assert!(!b.check(6));
    assert!(!b.check(4));
}

#[test]
fn layered_bitmap_insert_grows_with_zero_words() {
    let b = bitmap_with(&[5, 300]);
    assert_eq!(b.len(), 5);
    assert_eq!(b.layer1.len(), 2);
    assert_eq!(b.layer0[4], 1u64 << (300 % 64));
    assert_eq!(b.layer0[1], 0);
    assert_eq!(b.layer1[1], 1u64 << ((300 / 4) % 64));
    assert!(b.check(300));
    assert!(b.check(5));
    assert!(!b.check(299));
}

#[test]
fn layered_bitmap_check_beyond_the_bitmap_is_false() {
    let b = bitmap_with(&[5]);
    assert!(!b.check(64 * 3));
}

#[test]
fn layered_bitmap_remove_clears_index() {
    let mut b = bitmap_with(&[5, 7]);
    b.remove(5);
    assert!(!b.check(5));
    assert!(b.check(7));
    assert_eq!(b.layer0[0], 1u64 << 7);
    // Another index of the same group (4..8) is present: the mark stays.
    assert_eq!(b.layer1[0], 1u64 << 1);
    b.remove(7);
    assert_eq!(b.layer0[0], 0);
    assert_eq!(b.layer1[0], 0);
}

#[test]
fn layered_bitmap_remove_of_index_zero() {
    let mut b = bitmap_with(&[0]);
    b.remove(0);
    assert!(!b.check(0));
    assert_eq!(b.layer0[0], 0);
    assert_eq!(b.layer1[0], 0);
}

#[test]
fn layered_bitmap_remove_keeps_marks_of_other_groups() {
    let mut b = bitmap_with(&[0, 8]);
    b.remove(0);
    assert_eq!(b.layer0[0], 1u64 << 8);
    assert_eq!(b.layer1[0], 1u64 << 2);
    assert!(b.check(8));
    let mut c = bitmap_with(&[1, 5]);
    c.remove(1);
    assert!(c.check(5));
    assert!(!c.check(1));
}

#[test]
fn layered_bitmap_remove_keeps_earlier_marks() {
    let mut b = bitmap_with(&[1, 9]);
    b.remove(9);
    assert!(b.check(1));
    assert_eq!(b.layer1[0], 1u64);
}

#[test]
fn layered_bitmap_join_lists_common_indices() {
    let a = bitmap_with(&[1, 5, 70, 200]);
    let b = bitmap_with(&[5, 70, 100]);
    assert_eq!(LayeredBitMap::join(a, b), vec![5, 70]);
}

#[test]
fn layered_bitmap_join_is_symmetric() {
    let a1 = bitmap_with(&[3, 64, 65, 400]);
    let b1 = bitmap_with(&[64, 400, 401]);
    let a2 = bitmap_with(&[3, 64, 65, 400]);
    let b2 = bitmap_with(&[64, 400, 401]);
    let r1 = LayeredBitMap::join(a1, b1);
    let r2 = LayeredBitMap::join(b2, a2);
    assert_eq!(r1, vec![64, 400]);
    assert_eq!(r1, r2);
}

#[test]
fn layered_bitmap_join_with_itself_lists_members() {
    let a = bitmap_with(&[2, 9, 130]);
    let b = bitmap_with(&[2, 9, 130]);
    assert_eq!(LayeredBitMap::join(a, b), vec![2, 9, 130]);
}

#[test]
fn storage_bitmap_insert_and_check() {
    let mut b = StorageBitMap::new();
    b.insert(20);
    assert_eq!(b.layer0, vec![1u32 << 20]);
    assert_eq!(b.layer1, vec![1u16 << 4, 0]);
    assert!(b.check(20));
    assert!(!b.check(19));
    assert!(!b.check(21));
}

#[test]
fn storage_bitmap_insert_twice_keeps_the_index() {
    let mut b = StorageBitMap::new();
    b.insert(40);
    b.insert(40);
    assert_eq!(b.layer0, vec![0, 1u32 << 8]);
    assert_eq!(b.layer1, vec![0, 1u16 << 8, 0]);
    assert!(b.check(40));
}

#[test]
fn storage_bitmap_insert_leaves_other_indices() {
    let mut b = StorageBitMap::new();
    b.insert(20);
    b.insert(70);
    assert!(b.check(20));
    assert!(b.check(70));
    assert!(!b.check(30));
    assert!(!b.check(69));
    assert!(!b.check(71));
}

#[test]
fn storage_bitmap_remove_clears_layer0() {
    let mut b = StorageBitMap::new();
    b.insert(33);
    b.remove(33);
    assert!(!b.check(33));
    b.remove(17);
    assert!(!b.check(17));
    assert_eq!(b.layer0, vec![0, 0]);
    assert_eq!(b.layer1, vec![0, 1u16 << 1, 0]);
}

#[test]
fn entity_controller_hands_out_increasing_ids() {
    let mut c = EntityController::new();
    assert_eq!(c.next_id(), 0);
    assert_eq!(c.next_id(), 1);
    assert_eq!(c.next_id(), 2);
    let mut d = EntityController::default();
    assert_eq!(d.next_id(), 0);
}

struct Pos(u32);

impl Component for Pos {
    type Storage = VecStorage<Pos>;
}

#[test]
fn vec_storage_appends_whatever_the_index() {
    let mut s: VecStorage<u32> = VecStorage::default();
    s.insert(7, 10);
    s.insert(0, 20);
    assert_eq!(s.inner, vec![10, 20]);
    assert_eq!(*s.get(1), 20);
}

#[test]
fn tracked_storage_hands_values_to_its_storage() {
    let mut t: TrackedStorage<Pos> = TrackedStorage::new(VecStorage { inner: Vec::new() });
    t.insert(3, Pos(9));
    assert_eq!(t.inner.inner.len(), 1);
    assert_eq!(t.inner.get(0).0, 9);
    assert!(t.bitset.layer0.is_empty());
    let d: TrackedStorage<Pos> = TrackedStorage::default();
    assert!(d.inner.inner.is_empty());
}

#[test]
fn try_default_builds_default_values() {
    let v = VecStorage::<u8>::try_default();
    assert!(v.is_ok());
    let w = VecStorage::<u8>::unwrap_default();
    assert!(w.inner.is_empty());
}

#[test]
fn join_iterator_visits_storage_in_order() {
    let s = VecStorage { inner: vec![10u32, 20, 30] };
    let mut it = JoinIterator::new(&s);
    assert_eq!(it.next(), Some(Some(&10)));
    assert_eq!(it.next(), Some(Some(&20)));
    assert_eq!(it.next(), Some(Some(&30)));
    assert_eq!(it.next(), None);
    assert_eq!(it.next(), None);
    let mut it2 = (&s).join();
    assert_eq!(it2.keys, vec![0, 1, 2]);
    assert_eq!(it2.next(), Some(Some(&10)));
    let empty: VecStorage<u32> = VecStorage { inner: Vec::new() };
    assert_eq!(JoinIterator::new(&empty).next(), None);
}

#[test]
fn storage_join_get_outside_the_storage_gives_none() {
    let s = VecStorage { inner: vec![1u8] };
    let mut v = &s;
    assert_eq!(<&VecStorage<u8> as Joinable>::get(&mut v, 1), None);
    assert_eq!(<&VecStorage<u8> as Joinable>::get(&mut v, 0), Some(&1));
}
