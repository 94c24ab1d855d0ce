use treasure_odds::decimal::fixed_to_string;
use treasure_odds::engine::{expected_value, probability};
use treasure_odds::odds::Rarity;
use treasure_odds::report::sweep;

#[test]
fn sweep_rare_two_by_two_layout() {
    // Header plus two data rows, each with five fields: position, expected
    // value, a blank, and one probability per attempt budget.
    let rows = sweep(&Rarity::Rare, 2, 2);
    assert_eq!(rows.len(), 3);
    for row in &rows {
        assert_eq!(row.len(), 5);
    }
    assert_eq!(rows[0], vec!["", "", "", "1", "2"]);
    for t in 1..=2usize {
        let row = &rows[t];
        assert_eq!(row[0], t.to_string());
        assert_eq!(row[1], fixed_to_string(expected_value(&Rarity::Rare, t)));
        assert_eq!(row[2], "");
        assert_eq!(row[3], fixed_to_string(probability(&Rarity::Rare, t, 1)));
        assert_eq!(row[4], fixed_to_string(probability(&Rarity::Rare, t, 2)));
    }
}

#[test]
fn sweep_rare_two_by_two_exact_cells() {
    let rows = sweep(&Rarity::Rare, 2, 2);
    assert_eq!(rows[1], vec!["1", "12.931480266", "", "0.00005", "0.00176518"]);
    assert_eq!(rows[2], vec!["2", "11.932076893", "", "0.001715265", "0.007053686"]);
}

#[test]
fn sweep_empty_grid_is_header_only() {
    let rows = sweep(&Rarity::VeryRare, 0, 0);
    assert_eq!(rows.len(), 1);
    assert_eq!(rows[0], vec!["", "", ""]);
}

#[test]
fn sweep_ultra_rare_wide_row() {
    let rows = sweep(&Rarity::UltraRare, 1, 4);
    assert_eq!(rows.len(), 2);
    assert_eq!(rows[0], vec!["", "", "", "1", "2", "3", "4"]);
    let row = &rows[1];
    assert_eq!(row.len(), 7);
    for b in 1..=4usize {
        assert_eq!(row[2 + b], fixed_to_string(probability(&Rarity::UltraRare, 1, b)));
    }
}
