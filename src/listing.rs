use vstd::prelude::*;

use crate::account::AccountEntry;
use crate::bucket::bucket_start;
use crate::template::{
    join_lines, joined, resolve_account_string_with_references, resolve_group_string_with_references,
    resolved_account, resolved_group, texts,
};

verus! {

/// What a run is configured with, apart from the unit price: the bucket width and
/// the templates of each listing's text.
pub struct ProcessorSettings {
    pub potion_grouping: u32,
    pub image_path: String,
    pub title: String,
    pub description: Vec<String>,
    pub sold_message: Vec<String>,
}

/// One marketplace listing, made from one group of accounts.
#[derive(Debug)]
pub struct EldoradoListing {
    pub title: String,
    pub min_potions: u64,
    pub min_bucks: u64,
    pub image_path: String,
    pub description: String,
    pub accounts: Vec<String>,
    pub sell_price: String,
}

/// The least cash among the accounts; zero when there are none.
pub open spec fn min_cash(group: Seq<AccountEntry>) -> u64
    decreases group.len(),
{
    if group.len() == 0 {
        0
    } else if group.len() == 1 {
        group[0].cash
    } else {
        let rest = min_cash(group.drop_last());
        if group.last().cash < rest { group.last().cash } else { rest }
    }
}

/// The first item count of the bucket of width `group_size` that holds `pots`.
pub fn bucket_floor(pots: u64, group_size: u64) -> (r: u64)
    requires
        group_size > 0,
    ensures
        r == bucket_start(pots, group_size),
{
    let q = pots / group_size;
    assert(q * group_size <= pots) by (nonlinear_arith)
        requires q == pots / group_size, group_size > 0;
    q * group_size
}

/// The least cash among the accounts of a group; zero for an empty group.
pub fn group_min_cash(group: &Vec<AccountEntry>) -> (r: u64)
    ensures
        r == min_cash(group@),
{
    if group.len() == 0 {
        return 0;
    }
    let mut best: u64 = group[0].cash;
    let mut i: usize = 1;
    while i < group.len()
        invariant
            1 <= i <= group@.len(),
            best == min_cash(group@.subrange(0, i as int)),
        decreases group@.len() - i,
    {
        let ghost after = group@.subrange(0, i as int + 1);
        assert(after.drop_last() =~= group@.subrange(0, i as int));
        if group[i].cash < best {
            best = group[i].cash;
        }
        i += 1;
    }
    assert(group@.subrange(0, group@.len() as int) =~= group@);
    best
}

/// One sold message per account, in account order: the template with the account's
/// username and password filled in.
pub fn sold_messages(group: &Vec<AccountEntry>, sold: &String) -> (accounts: Vec<String>)
    ensures
        accounts@.len() == group@.len(),
        forall|j: int| 0 <= j < group@.len() ==> #[trigger] accounts@[j]@ == resolved_account(
            group@[j].username@,
            group@[j].password@,
            sold@,
        ),
{
    let mut accounts: Vec<String> = Vec::new();
    let mut i: usize = 0;
    while i < group.len()
        invariant
            i <= group@.len(),
            accounts@.len() == i,
            forall|j: int| 0 <= j < i ==> #[trigger] accounts@[j]@ == resolved_account(
                group@[j].username@,
                group@[j].password@,
                sold@,
            ),
        decreases group@.len() - i,
    {
        let message = resolve_account_string_with_references(
            group[i].username.as_str(),
            group[i].password.as_str(),
            sold.as_str(),
        );
        accounts.push(message);
        i += 1;
    }
    accounts
}

/// Builds the listing of one non-empty group: the bucket start and least cash, the
/// title resolved with an empty title, the description and image path resolved with
/// that title, and one sold message per member, in member order.
pub fn build_listing(group: &Vec<AccountEntry>, settings: &ProcessorSettings, sell_price: String) -> (r: EldoradoListing)
    requires
        group@.len() > 0,
        settings.potion_grouping > 0,
    ensures
        r.min_potions == bucket_start(group@[0].pots, settings.potion_grouping as u64),
        r.min_bucks == min_cash(group@),
        r.title@ == resolved_group(Seq::empty(), r.min_potions, r.min_bucks, settings.title@),
        r.description@ == resolved_group(r.title@, r.min_potions, r.min_bucks, joined(texts(settings.description@))),
        r.image_path@ == resolved_group(r.title@, r.min_potions, r.min_bucks, settings.image_path@),
        r.accounts@.len() == group@.len(),
        forall|i: int| 0 <= i < group@.len() ==> #[trigger] r.accounts@[i]@ == resolved_account(
            group@[i].username@,
            group@[i].password@,
            joined(texts(settings.sold_message@)),
        ),
        r.sell_price == sell_price,
{
    let min_potions = bucket_floor(group[0].pots, settings.potion_grouping as u64);
    let min_bucks = group_min_cash(group);
    let empty = "";
    proof {
        reveal_strlit("");
    }
    assert(empty@ =~= Seq::<char>::empty());
    let title = resolve_group_string_with_references(empty, min_potions, min_bucks, settings.title.as_str());
    let sold = join_lines(&settings.sold_message);
    let accounts = sold_messages(group, &sold);
    let description_text = join_lines(&settings.description);
    let description = resolve_group_string_with_references(
        title.as_str(),
        min_potions,
        min_bucks,
        description_text.as_str(),
    );
    let image_path = resolve_group_string_with_references(
        title.as_str(),
        min_potions,
        min_bucks,
        settings.image_path.as_str(),
    );
    EldoradoListing {
        title,
        min_potions,
        min_bucks,
        image_path,
        description,
        accounts,
        sell_price,
    }
}

} // verus!
