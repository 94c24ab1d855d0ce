use treasure_odds::engine::{expected_value, probability, SCALE};
use treasure_odds::odds::Rarity;

const TIERS: [Rarity; 3] = [Rarity::Rare, Rarity::VeryRare, Rarity::UltraRare];

/// Independent oracle: survival after `boxes` steps, computed directly as
/// the running product of the per-attempt failure probabilities.
fn survival_oracle(tab: &[u32], start: usize, boxes: usize) -> u64 {
    let mut cum: u64 = SCALE;
    for j in 0..boxes {
        let i = start - 1 + j;
        let o = if i < tab.len() { tab[i] } else { tab[tab.len() - 1] } as u64;
        let p = SCALE * 10 / o;
        cum = cum * (SCALE - p) / SCALE;
    }
    cum
}

#[test]
fn probability_ultra_rare_first_box() {
    // The first UltraRare entry is odds of 100000.0, so one box from
    // position 1 succeeds with probability exactly 1/100000 = 0.00001.
    let p = probability(&Rarity::UltraRare, 1, 1);
    assert_eq!(p, 10_000);
    assert_eq!(p as f64 / SCALE as f64, 0.00001);
}

#[test]
fn expected_value_rare_from_start_regression() {
    // Summing the recurrence over all 50 Rare entries plus the tail term
    // with last odds 1.0 gives exactly this fixed-point value (~12.93).
    assert_eq!(expected_value(&Rarity::Rare, 1), 12_931_480_266);
}

#[test]
fn expected_value_regressions() {
    assert_eq!(expected_value(&Rarity::Rare, 2), 11_932_076_893);
    assert_eq!(expected_value(&Rarity::VeryRare, 1), 22_165_984_022);
    assert_eq!(expected_value(&Rarity::UltraRare, 1), 46_216_767_642);
}

#[test]
fn expected_value_at_least_one_within_table() {
    for r in TIERS {
        for start in 1..=50usize {
            assert!(expected_value(&r, start) >= SCALE);
        }
    }
}

#[test]
fn expected_value_beyond_table_is_last_odds() {
    // Rare ends at odds 1.0, VeryRare at 2.2, UltraRare at 17.0.
    for k in 0..5usize {
        assert_eq!(expected_value(&Rarity::Rare, 51 + k), 1_000_000_000);
        assert_eq!(expected_value(&Rarity::VeryRare, 51 + k), 2_200_000_000);
        assert_eq!(expected_value(&Rarity::UltraRare, 51 + k), 17_000_000_000);
    }
}

#[test]
fn expected_value_near_table_end_approaches_last_odds() {
    // At the last in-table position the value is the last odds up to a few
    // fixed-point units of rounding; for Rare it is exact.
    assert_eq!(expected_value(&Rarity::Rare, 50), 1_000_000_000);
    assert_eq!(expected_value(&Rarity::VeryRare, 50), 2_200_000_001);
    assert_eq!(expected_value(&Rarity::UltraRare, 50), 17_000_000_007);
}

#[test]
fn expected_value_monotone_against_known_tables() {
    // Rare and VeryRare expectations never increase with the position; the
    // UltraRare curve does the same within the table, with a few
    // fixed-point units of tail rounding right at the table's end.
    for r in [Rarity::Rare, Rarity::VeryRare] {
        let mut prev = expected_value(&r, 1);
        for start in 2..=60usize {
            let next = expected_value(&r, start);
            assert!(next <= prev);
            prev = next;
        }
    }
    let mut prev = expected_value(&Rarity::UltraRare, 1);
    for start in 2..=49usize {
        let next = expected_value(&Rarity::UltraRare, start);
        assert!(next <= prev);
        prev = next;
    }
    assert!(expected_value(&Rarity::UltraRare, 50) - 17_000_000_000 <= 10);
}

#[test]
fn probability_zero_boxes_is_zero() {
    for r in TIERS {
        for start in [1usize, 2, 25, 50, 51, 1000] {
            assert_eq!(probability(&r, start, 0), 0);
        }
    }
}

#[test]
fn probability_non_decreasing_and_converges() {
    for r in TIERS {
        for start in [1usize, 7, 50, 51] {
            let mut prev = 0u64;
            for boxes in 1..=80usize {
                let p = probability(&r, start, boxes);
                assert!(p >= prev);
                assert!(p <= SCALE);
                prev = p;
            }
        }
        // With a large budget the success probability converges to 1.
        let p = probability(&r, 1, 10_000);
        assert!(p as f64 / SCALE as f64 > 0.999999);
        assert_eq!(p, SCALE);
    }
}

#[test]
fn probability_consistent_with_survival_product() {
    for r in TIERS {
        let tab = r.odds();
        for (start, boxes) in [(1usize, 7usize), (2, 7), (25, 40), (50, 3), (51, 3), (99, 12)] {
            assert_eq!(probability(&r, start, boxes), SCALE - survival_oracle(&tab, start, boxes));
        }
    }
}

#[test]
fn boundary_one_past_table_uses_last_odds() {
    // One past the table's end the instantaneous odds are the last entry
    // (17.0 for UltraRare), in both operations.
    assert_eq!(probability(&Rarity::UltraRare, 51, 1), SCALE * 10 / 170);
    assert_eq!(probability(&Rarity::UltraRare, 51, 1), 58_823_529);
    assert_eq!(expected_value(&Rarity::UltraRare, 51), 17_000_000_000);
    assert_eq!(probability(&Rarity::Rare, 51, 1), SCALE);
}

#[test]
fn probability_regressions() {
    assert_eq!(probability(&Rarity::Rare, 1, 1), 50_000);
    assert_eq!(probability(&Rarity::Rare, 1, 2), 1_765_180);
    assert_eq!(probability(&Rarity::Rare, 2, 1), 1_715_265);
    assert_eq!(probability(&Rarity::Rare, 2, 2), 7_053_686);
    assert_eq!(probability(&Rarity::VeryRare, 1, 5), 6_938_092);
}
