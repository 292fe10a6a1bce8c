use pallet::search::{collect_matches, Collect, Count, Score, ScoredId, ScoredIds};

fn scored(id: u64, score: f32) -> ScoredId {
    ScoredId { id, score: Score::from_bits(score.to_bits()) }
}

fn ids(list: &[ScoredId]) -> Vec<u64> {
    list.iter().map(|scored| scored.id).collect()
}

fn collector() -> ScoredIds {
    ScoredIds { size_hint: None, id_field: 0 }
}

#[test]
fn score_keeps_its_bits() {
    assert_eq!(Score::from_bits(0x3F80_0000).to_bits(), 0x3F80_0000);
    assert_eq!(f32::from_bits(Score::from_bits(1.5f32.to_bits()).to_bits()), 1.5);
}

#[test]
fn rank_key_of_chosen_scores() {
    assert_eq!(Score::from_bits(0.0f32.to_bits()).rank_key(), 0x8000_0000);
    assert_eq!(Score::from_bits((-0.0f32).to_bits()).rank_key(), 0x8000_0000);
    assert_eq!(Score::from_bits(1.0f32.to_bits()).rank_key(), 0x8000_0000 + 0x3F80_0000);
    assert_eq!(Score::from_bits((-1.0f32).to_bits()).rank_key(), 0x8000_0000 - 0x3F80_0000);
    assert_eq!(Score::from_bits(f32::INFINITY.to_bits()).rank_key(), 0xFF80_0000);
    assert_eq!(Score::from_bits(f32::NEG_INFINITY.to_bits()).rank_key(), 0x0080_0000);
    assert_eq!(Score::from_bits(f32::NAN.to_bits()).rank_key(), 0);
    assert_eq!(Score::from_bits(0xFFC0_0001).rank_key(), 0);
    assert_eq!(Score::from_bits(1).rank_key(), 0x8000_0001);
}

#[test]
fn rank_key_orders_as_the_numbers_do() {
    let numbers = [
        f32::NEG_INFINITY,
        -1.0e30,
        -2.5,
        -1.0,
        -1.0e-30,
        0.0,
        1.0e-30,
        0.5,
        1.0,
        2.5,
        1.0e30,
        f32::INFINITY,
    ];
    for pair in numbers.windows(2) {
        let low = Score::from_bits(pair[0].to_bits()).rank_key();
        let high = Score::from_bits(pair[1].to_bits()).rank_key();
        assert!(low < high);
    }
}

#[test]
fn precedes_by_score_then_identifier() {
    assert!(scored(9, 2.0).precedes(&scored(1, 1.0)));
    assert!(!scored(1, 1.0).precedes(&scored(9, 2.0)));
    assert!(scored(1, 1.0).precedes(&scored(2, 1.0)));
    assert!(!scored(2, 1.0).precedes(&scored(1, 1.0)));
    assert!(scored(3, 1.0).precedes(&scored(3, 1.0)));
    assert!(scored(7, -5.0).precedes(&scored(1, f32::NAN)));
    assert!(scored(1, 0.0).precedes(&scored(2, -0.0)));
}

#[test]
fn merge_fruits_orders_by_score_descending() {
    let fruits = vec![
        vec![scored(1, 0.5), scored(2, 3.0)],
        vec![],
        vec![scored(3, 1.5)],
        vec![scored(4, 2.0), scored(5, 0.25)],
    ];
    let merged = collector().merge_fruits(fruits);
    assert_eq!(ids(&merged), vec![2, 4, 3, 1, 5]);
    assert_eq!(merged[0], scored(2, 3.0));
}

#[test]
fn merge_fruits_breaks_ties_by_identifier() {
    let fruits = vec![
        vec![scored(9, 1.0), scored(4, 1.0)],
        vec![scored(7, 1.0), scored(1, 0.5), scored(2, 1.0)],
    ];
    let merged = collector().merge_fruits(fruits);
    assert_eq!(ids(&merged), vec![2, 4, 7, 9, 1]);
}

#[test]
fn merge_fruits_puts_what_is_no_number_last() {
    let fruit = vec![scored(1, f32::NAN), scored(2, -1.0), scored(3, f32::NAN), scored(4, 0.0)];
    let fruits = vec![fruit];
    let merged = collector().merge_fruits(fruits);
    assert_eq!(ids(&merged), vec![4, 2, 1, 3]);
}

#[test]
fn merge_fruits_keeps_every_match() {
    let fruits = vec![vec![scored(1, 1.0), scored(1, 1.0)], vec![scored(1, 1.0)]];
    assert_eq!(collector().merge_fruits(fruits).len(), 3);
    assert!(collector().merge_fruits(vec![]).is_empty());
    let many: Vec<ScoredId> = (0..1000u64).map(|id| scored(id, (id % 7) as f32)).collect();
    let merged = collector().merge_fruits(vec![many]);
    assert_eq!(merged.len(), 1000);
    for pair in merged.windows(2) {
        assert!(pair[0].precedes(&pair[1]));
    }
}

#[test]
fn segment_collector_passes_over_matches_without_identifier() {
    let collector = ScoredIds { size_hint: Some(4), id_field: 0 };
    assert!(collector.requires_scoring());
    let mut segment = collector.for_segment();
    assert!(segment.buffer.is_empty());
    segment.collect(Some(5), Score::from_bits(1.0f32.to_bits()));
    segment.collect(None, Score::from_bits(9.0f32.to_bits()));
    segment.collect(Some(3), Score::from_bits(2.0f32.to_bits()));
    assert_eq!(segment.harvest(), vec![scored(5, 1.0), scored(3, 2.0)]);
}

#[test]
fn collect_matches_ranks_what_carries_an_identifier() {
    let raw = vec![
        (1.0f32.to_bits(), Some(8)),
        (5.0f32.to_bits(), None),
        (2.0f32.to_bits(), Some(6)),
        (1.0f32.to_bits(), Some(2)),
    ];
    let out = collect_matches(0, &raw);
    assert_eq!(out, vec![scored(6, 2.0), scored(2, 1.0), scored(8, 1.0)]);
}

#[test]
fn collectors_make_their_fruit_of_the_matches() {
    let matches = vec![scored(4, 2.0), scored(9, 1.0)];
    assert_eq!(Count.fruit(7, &matches), 7);
    assert_eq!(collector().fruit(7, &matches), matches);
    let both = (Count, collector()).fruit(2, &matches);
    assert_eq!(both, (2, matches.clone()));
    let nested = ((Count, Count), collector()).fruit(5, &Vec::new());
    assert_eq!(nested, ((5, 5), Vec::new()));
}
