use adoptme_processor::bucket::bucket_by_potion_range;
use adoptme_processor::listing::{bucket_floor, group_min_cash};
use adoptme_processor::{AccountEntry, ListingError};

fn acc(name: &str, pots: u64, cash: u64) -> AccountEntry {
    AccountEntry::new(name.to_string(), format!("{}-pw", name), cash, pots)
}

fn pots_of(group: &Vec<AccountEntry>) -> Vec<u64> {
    group.iter().map(|a| a.pots).collect()
}

#[test]
fn scenario_two_buckets_of_twenty() {
    let accounts = vec![acc("a", 41, 100), acc("b", 59, 50), acc("c", 65, 200)];
    let groups = bucket_by_potion_range(&accounts, 20).unwrap();
    assert_eq!(groups.len(), 2);
    assert_eq!(pots_of(&groups[0]), vec![41, 59]);
    assert_eq!(pots_of(&groups[1]), vec![65]);
    assert_eq!(bucket_floor(groups[0][0].pots, 20), 40);
    assert_eq!(bucket_floor(groups[1][0].pots, 20), 60);
    assert_eq!(group_min_cash(&groups[0]), 50);
    assert_eq!(group_min_cash(&groups[1]), 200);
}

#[test]
fn zero_width_is_refused() {
    let accounts = vec![acc("a", 41, 100), acc("b", 3, 7)];
    assert_eq!(bucket_by_potion_range(&accounts, 0).unwrap_err(), ListingError::InvalidConfiguration);
    assert_eq!(bucket_by_potion_range(&[], 0).unwrap_err(), ListingError::InvalidConfiguration);
}

#[test]
fn empty_input_gives_no_groups() {
    let groups = bucket_by_potion_range(&[], 20).unwrap();
    assert!(groups.is_empty());
}

#[test]
fn groups_ascend_and_keep_input_order() {
    let accounts = vec![
        acc("a", 95, 1),
        acc("b", 12, 2),
        acc("c", 90, 3),
        acc("d", 0, 4),
        acc("e", 19, 5),
        acc("f", 250, 6),
    ];
    let groups = bucket_by_potion_range(&accounts, 20).unwrap();
    let shape: Vec<Vec<u64>> = groups.iter().map(pots_of).collect();
    assert_eq!(shape, vec![vec![12, 0, 19], vec![95, 90], vec![250]]);
    let names: Vec<String> = groups[0].iter().map(|a| a.username.clone()).collect();
    assert_eq!(names, vec!["b", "d", "e"]);
    let total: usize = groups.iter().map(|g| g.len()).sum();
    assert_eq!(total, accounts.len());
    for g in &groups {
        let start = bucket_floor(g[0].pots, 20);
        assert_eq!(start % 20, 0);
        for a in g {
            assert!(start <= a.pots && a.pots < start + 20);
        }
    }
}

#[test]
fn width_one_puts_each_count_apart() {
    let accounts = vec![acc("a", 3, 1), acc("b", 3, 2), acc("c", 1, 3)];
    let groups = bucket_by_potion_range(&accounts, 1).unwrap();
    let shape: Vec<Vec<u64>> = groups.iter().map(pots_of).collect();
    assert_eq!(shape, vec![vec![1], vec![3, 3]]);
}

#[test]
fn largest_counts_do_not_overflow() {
    let accounts = vec![acc("a", u64::MAX, u64::MAX), acc("b", u64::MAX - 1, 0)];
    let groups = bucket_by_potion_range(&accounts, u64::MAX).unwrap();
    assert_eq!(groups.len(), 2);
    assert_eq!(bucket_floor(groups[0][0].pots, u64::MAX), 0);
    assert_eq!(bucket_floor(groups[1][0].pots, u64::MAX), u64::MAX);
    assert_eq!(group_min_cash(&groups[0]), 0);
}

#[test]
fn min_cash_of_empty_group_is_zero() {
    assert_eq!(group_min_cash(&Vec::new()), 0);
}

#[test]
fn clone_keeps_every_field() {
    let a = acc("x", 7, 9);
    let b = a.clone();
    assert_eq!(b.username, "x");
    assert_eq!(b.password, "x-pw");
    assert_eq!(b.pots, 7);
    assert_eq!(b.cash, 9);
}
