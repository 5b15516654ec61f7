use tiny_feeder::algorithm::{
    average, backwad, max, median, sort_prices, switch_algo, to_hundredths, weighted, DataError,
    PriceList, PRICE_UNIT,
};

const U: u64 = PRICE_UNIT;

#[test]
fn average_ignores_zero_cells() {
    assert_eq!(average(vec![0, 10 * U, 0, 20 * U]), (true, 15 * U));
    assert_eq!(average(vec![10 * U, 20 * U]), (true, 15 * U));
}

#[test]
fn average_fails_on_all_zero_column() {
    assert_eq!(average(vec![0, 0, 0]), (false, 0));
    assert_eq!(average(vec![]), (false, 0));
    let pl = PriceList::new(vec![0, 0], vec![]);
    assert_eq!(pl.average(), Err(DataError::EmptyData));
}

#[test]
fn average_truncates() {
    assert_eq!(average(vec![1, 2]), (true, 1));
}

#[test]
fn median_odd_count_is_middle_after_sort() {
    assert_eq!(median(vec![3 * U, 0, 1 * U, 2 * U]), (true, 2 * U));
}

#[test]
fn median_even_count_is_mean_of_middle_pair() {
    assert_eq!(median(vec![4 * U, 1 * U, 0, 3 * U, 2 * U]), (true, 2 * U + U / 2));
}

#[test]
fn median_empty_fails() {
    assert_eq!(median(vec![0, 0]), (false, 0));
    let pl = PriceList::new(vec![], vec![]);
    assert_eq!(pl.median(), Err(DataError::EmptyData));
}

#[test]
fn sort_prices_orders_ascending() {
    assert_eq!(sort_prices(&vec![5, 1, 4, 1, 3]), vec![1, 1, 3, 4, 5]);
}

#[test]
fn weighted_skips_cells_with_zero_price_or_volume() {
    let data = vec![10 * U, 20 * U, 0, 30 * U];
    let vol = vec![1000, 3000, 5000, 0];
    assert_eq!(weighted(data, vol), (true, 17 * U + U / 2));
}

#[test]
fn weighted_undefined_when_nothing_weighs() {
    assert_eq!(weighted(vec![0, 5 * U], vec![7, 0]), (false, 0));
    let pl = PriceList::new(vec![0, 5 * U], vec![7, 0]);
    assert_eq!(pl.weighted_average(), Err(DataError::WeightedUndefined));
}

#[test]
fn weighted_reports_overflow() {
    let pl = PriceList::new(vec![u64::MAX, u64::MAX], vec![u64::MAX, u64::MAX]);
    assert_eq!(pl.weighted_average(), Err(DataError::Overflow));
}

#[test]
fn max_of_non_zero_prices() {
    assert_eq!(max(vec![0, 3 * U, 9 * U, 2 * U]), (true, 9 * U));
    let pl = PriceList::new(vec![0], vec![]);
    assert_eq!(pl.max(), Err(DataError::EmptyData));
}

#[test]
fn backwad_zero_tolerance_returns_first_quote() {
    assert_eq!(backwad(vec![7 * U, 1 * U, 100 * U, 0], 0, 0), (true, 7 * U));
}

#[test]
fn backwad_uses_second_cell_when_first_is_empty() {
    assert_eq!(backwad(vec![0, 5 * U, 5 * U, 5 * U], 0, 100), (true, 5 * U));
}

#[test]
fn backwad_needs_four_cells() {
    let pl = PriceList::new(vec![1, 2, 3], vec![]);
    assert_eq!(pl.backwad(0, 0), Err(DataError::InsufficientInput(3)));
}

#[test]
fn backwad_master_missing() {
    let pl = PriceList::new(vec![0, 0, 5, 6], vec![]);
    assert_eq!(pl.backwad(0, 0), Err(DataError::MasterPriceMissing));
}

#[test]
fn backwad_consensus_scenario() {
    let col = vec![30000 * U, 30100 * U, 40000 * U, 0, 30050 * U];
    let diff = Some(U / 100);
    assert_eq!(
        switch_algo("backwad", col.clone(), vec![], diff, Some(66 * U / 100)),
        (true, 30000 * U)
    );
    assert_eq!(
        switch_algo("backwad", col.clone(), vec![], diff, Some(80 * U / 100)),
        (false, 0)
    );
    let pl = PriceList::new(col, vec![]);
    assert_eq!(pl.backwad(1, 80), Err(DataError::ConsensusBelowRatio(75)));
}

#[test]
fn selector_converts_fractions_to_hundredths() {
    assert_eq!(to_hundredths(U / 100), 1);
    assert_eq!(to_hundredths(66 * U / 100), 66);
    assert_eq!(to_hundredths(U / 1000), 0);
    assert_eq!(to_hundredths(u64::MAX), 65535);
}

#[test]
fn selector_by_name() {
    let col = vec![1 * U, 0, 3 * U];
    assert_eq!(switch_algo("average", col.clone(), vec![], None, None), (true, 2 * U));
    assert_eq!(switch_algo("median", col.clone(), vec![], None, None), (true, 2 * U));
    assert_eq!(switch_algo("max", col.clone(), vec![], None, None), (true, 3 * U));
    assert_eq!(
        switch_algo("weighted", col.clone(), vec![1, 5, 1], None, None),
        (true, 2 * U)
    );
    assert_eq!(switch_algo("mode", col.clone(), vec![], None, None), (false, 0));
    assert_eq!(switch_algo("backwad", col, vec![], None, Some(0)), (false, 0));
}
