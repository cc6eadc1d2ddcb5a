use lkh::{linear_selection, Bias};

const FIVE_FOURTHS: Bias = Bias { num: 5, den: 4 };

fn ranks(size: u32, bias: Bias, draws: u64) -> Vec<usize> {
    (0..draws).map(|d| linear_selection(size, bias, d)).collect()
}

#[test]
fn of_one_member_that_one_is_selected() {
    assert_eq!(ranks(1, FIVE_FOURTHS, 5), vec![0, 0, 0, 0, 0]);
    assert_eq!(linear_selection(1, FIVE_FOURTHS, u64::MAX), 0);
}

#[test]
fn of_two_members_the_better_has_five_draws_in_eight() {
    assert_eq!(ranks(2, FIVE_FOURTHS, 8), vec![0, 0, 0, 0, 0, 1, 1, 1]);
    assert_eq!(linear_selection(2, FIVE_FOURTHS, 8), 0);
    assert_eq!(linear_selection(2, FIVE_FOURTHS, 13), 1);
}

#[test]
fn of_three_members_the_shares_are_ten_eight_and_six() {
    let all = ranks(3, FIVE_FOURTHS, 24);
    assert_eq!(all.iter().filter(|r| **r == 0).count(), 10);
    assert_eq!(all.iter().filter(|r| **r == 1).count(), 8);
    assert_eq!(all.iter().filter(|r| **r == 2).count(), 6);
    assert_eq!(all[9], 0);
    assert_eq!(all[10], 1);
    assert_eq!(all[17], 1);
    assert_eq!(all[18], 2);
}

#[test]
fn a_bias_of_one_selects_every_rank_alike() {
    let all = ranks(4, Bias { num: 1, den: 1 }, 12);
    assert_eq!(all, vec![0, 0, 0, 1, 1, 1, 2, 2, 2, 3, 3, 3]);
}

#[test]
fn a_bias_of_two_never_selects_the_last_rank() {
    let all = ranks(3, Bias { num: 2, den: 1 }, 12);
    assert_eq!(all, vec![0, 0, 0, 0, 1, 1, 0, 0, 0, 0, 1, 1]);
}

#[test]
fn the_best_rank_is_selected_more_often_than_the_worst() {
    for size in 2u32..9 {
        for bias in [Bias { num: 5, den: 4 }, Bias { num: 3, den: 2 }, Bias { num: 101, den: 100 }] {
            let width = u64::from(size) * u64::from(size - 1) * u64::from(bias.den);
            let all = ranks(size, bias, width);
            let best = all.iter().filter(|r| **r == 0).count();
            let worst = all.iter().filter(|r| **r == (size - 1) as usize).count();
            assert!(best > worst);
            assert!(all.iter().all(|r| *r < size as usize));
        }
    }
}

#[test]
fn the_largest_numbers_do_not_overflow() {
    let bias = Bias { num: u32::MAX, den: u32::MAX / 2 + 1 };
    assert!(bias.is_wf());
    assert!(linear_selection(1000, bias, u64::MAX) < 1000);
    assert!(!Bias { num: 3, den: 1 }.is_wf());
    assert!(!Bias { num: 1, den: 2 }.is_wf());
    assert!(!Bias { num: 0, den: 0 }.is_wf());
}
