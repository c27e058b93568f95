use vs1::prepared_cache::{EncodedItem, ItemOutput, PreparedCache, MAX_BYTES};
use vs1::score::Float;
use vs1::QuestionKind;

fn item(id: u32) -> EncodedItem {
    EncodedItem { ids: vec![id, 7], markers: vec![1], kind: QuestionKind::Noul }
}

fn output() -> Vec<ItemOutput> {
    vec![ItemOutput {
        logits: vec![Float { bits: 0.125f32.to_bits() }],
        act_probability: Float { bits: 0.75f32.to_bits() },
    }]
}

#[test]
fn key_includes_order_markers_kind_and_precision() {
    let a = item(1);
    let b = item(2);
    let modes = [false; 3];
    let mut cache = PreparedCache::new(4);
    cache.insert(&[&a, &b], &output(), modes);
    assert!(cache.get(&[&a, &b], modes).is_some());
    assert!(cache.get(&[&b, &a], modes).is_none());
    assert!(cache.get(&[&a], modes).is_none());
    assert!(cache.get(&[&a, &b], [true, false, false]).is_none());
    let mut c = a.copy();
    c.markers[0] = 0;
    assert!(cache.get(&[&c, &b], modes).is_none());
    c = a.copy();
    c.kind = QuestionKind::Score;
    assert!(cache.get(&[&c, &b], modes).is_none());
}

#[test]
fn evicts_least_recent_and_rejects_oversized_entries() {
    let (a, b, c) = (item(1), item(2), item(3));
    let modes = [false; 3];
    let mut cache = PreparedCache::new(2);
    cache.insert(&[&a], &output(), modes);
    cache.insert(&[&b], &output(), modes);
    assert!(cache.get(&[&a], modes).is_some());
    cache.insert(&[&c], &output(), modes);
    assert!(cache.get(&[&b], modes).is_none());
    let mut big = item(4);
    big.ids = vec![0; MAX_BYTES / 4];
    cache.insert(&[&big], &output(), modes);
    assert!(cache.get(&[&big], modes).is_none());
    assert!(cache.get(&[&a], modes).is_some());
    assert!(cache.bytes() <= MAX_BYTES);
    cache.clear();
    assert_eq!(cache.bytes(), 0);
    assert!(cache.get(&[&a], modes).is_none());
}

#[test]
fn what_was_filled_in_is_read_back() {
    let a = item(1);
    let mut cache = PreparedCache::new(1);
    cache.insert(&[&a], &output(), [false; 3]);
    let read = cache.get(&[&a], [false; 3]).unwrap();
    assert_eq!(read[0].logits[0].bits, 0.125f32.to_bits());
    assert_eq!(read[0].act_probability.bits, 0.75f32.to_bits());
    assert_eq!(cache.hits(), 1);
}

#[test]
fn a_cache_without_room_keeps_nothing() {
    let a = item(1);
    let mut cache = PreparedCache::new(0);
    cache.insert(&[&a], &output(), [false; 3]);
    assert!(cache.get(&[&a], [false; 3]).is_none());
    assert_eq!(cache.bytes(), 0);
}

#[test]
fn filling_the_same_key_again_keeps_the_first_outputs() {
    let a = item(1);
    let mut cache = PreparedCache::new(2);
    cache.insert(&[&a], &output(), [false; 3]);
    let bytes = cache.bytes();
    cache.insert(&[&a], &[], [false; 3]);
    assert_eq!(cache.bytes(), bytes);
    assert_eq!(cache.get(&[&a], [false; 3]).unwrap().len(), 1);
}

#[test]
fn filling_in_what_is_there_counts_as_finding_it() {
    let (a, b) = (item(1), item(2));
    let modes = [false; 3];
    let mut cache = PreparedCache::new(2);
    cache.insert(&[&a], &output(), modes);
    assert_eq!(cache.hits(), 0);
    cache.insert(&[&a], &output(), modes);
    assert_eq!(cache.hits(), 1);
    cache.insert(&[&b], &output(), modes);
    assert_eq!(cache.hits(), 1);
    let large = vec![ItemOutput {
        logits: vec![Float { bits: 0 }; MAX_BYTES / 4],
        act_probability: Float { bits: 0 },
    }];
    cache.insert(&[&a], &large, modes);
    assert_eq!(cache.hits(), 1);
}
