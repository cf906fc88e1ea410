use vstd::prelude::*;

use crate::account::AccountEntry;
use crate::error::ListingError;

verus! {

/// The first item count of the bucket of width `group_size` that holds `pots`.
pub open spec fn bucket_start(pots: u64, group_size: u64) -> int {
    (pots as int / group_size as int) * group_size as int
}

/// The accounts of `accounts` whose bucket starts at `start`, in input order.
pub open spec fn members(accounts: Seq<AccountEntry>, start: int, group_size: u64) -> Seq<AccountEntry>
    decreases accounts.len(),
{
    if accounts.len() == 0 {
        Seq::empty()
    } else {
        let rest = members(accounts.drop_last(), start, group_size);
        if bucket_start(accounts.last().pots, group_size) == start {
            rest.push(accounts.last())
        } else {
            rest
        }
    }
}

/// The bucket start shared by the members of a group.
pub open spec fn group_start(group: Vec<AccountEntry>, group_size: u64) -> int {
    bucket_start(group@[0].pots, group_size)
}

/// `groups` is the bucketing of `accounts`: one non-empty group per occupied bucket,
/// ordered by ascending bucket start, each holding exactly the accounts of its
/// bucket in input order.
pub open spec fn is_bucketing(accounts: Seq<AccountEntry>, group_size: u64, groups: Seq<Vec<AccountEntry>>) -> bool {
    &&& forall|i: int| 0 <= i < groups.len() ==> #[trigger] groups[i]@.len() > 0
    &&& forall|i: int| 0 <= i < groups.len() ==>
        #[trigger] groups[i]@ == members(accounts, group_start(groups[i], group_size), group_size)
    &&& forall|i: int, j: int| 0 <= i < j < groups.len() ==>
        group_start(#[trigger] groups[i], group_size) < group_start(#[trigger] groups[j], group_size)
    &&& forall|k: int| 0 <= k < accounts.len() ==>
        exists|i: int| 0 <= i < groups.len() && group_start(#[trigger] groups[i], group_size)
            == bucket_start(#[trigger] accounts[k].pots, group_size)
}

proof fn lemma_members_push(accounts: Seq<AccountEntry>, a: AccountEntry, start: int, group_size: u64)
    ensures
        members(accounts.push(a), start, group_size) == if bucket_start(a.pots, group_size) == start {
            members(accounts, start, group_size).push(a)
        } else {
            members(accounts, start, group_size)
        },
{
    assert(accounts.push(a).drop_last() =~= accounts);
}

proof fn lemma_members_none(accounts: Seq<AccountEntry>, start: int, group_size: u64)
    requires
        forall|j: int| 0 <= j < accounts.len() ==> bucket_start(#[trigger] accounts[j].pots, group_size) != start,
    ensures
        members(accounts, start, group_size) == Seq::<AccountEntry>::empty(),
    decreases accounts.len(),
{
    if accounts.len() > 0 {
        let rest = accounts.drop_last();
        assert forall|j: int| 0 <= j < rest.len() implies bucket_start(#[trigger] rest[j].pots, group_size) != start by {
            assert(rest[j] == accounts[j]);
        }
        lemma_members_none(rest, start, group_size);
        assert(bucket_start(accounts[accounts.len() - 1].pots, group_size) != start);
    }
}

proof fn lemma_bucket_start_bounds(pots: u64, group_size: u64)
    requires
        group_size > 0,
    ensures
        0 <= bucket_start(pots, group_size) <= pots,
        bucket_start(pots, group_size) % group_size as int == 0,
{
    let q = pots as int / group_size as int;
    let g = group_size as int;
    assert(0 <= q * g <= pots) by (nonlinear_arith)
        requires q == pots as int / g, g > 0, pots >= 0;
    assert((q * g) % g == 0) by (nonlinear_arith)
        requires g > 0, q >= 0;
}

/// The number of accounts held by all the groups together.
pub open spec fn total_size(groups: Seq<Vec<AccountEntry>>) -> nat
    decreases groups.len(),
{
    if groups.len() == 0 {
        0
    } else {
        total_size(groups.drop_last()) + groups.last()@.len()
    }
}

spec fn sum_members(accounts: Seq<AccountEntry>, starts: Seq<int>, group_size: u64) -> nat
    decreases starts.len(),
{
    if starts.len() == 0 {
        0
    } else {
        sum_members(accounts, starts.drop_last(), group_size) + members(accounts, starts.last(), group_size).len()
    }
}

spec fn hits(starts: Seq<int>, s: int) -> nat
    decreases starts.len(),
{
    if starts.len() == 0 {
        0
    } else {
        hits(starts.drop_last(), s) + if starts.last() == s { 1nat } else { 0nat }
    }
}

proof fn lemma_sum_push(accounts: Seq<AccountEntry>, a: AccountEntry, starts: Seq<int>, group_size: u64)
    ensures
        sum_members(accounts.push(a), starts, group_size)
            == sum_members(accounts, starts, group_size) + hits(starts, bucket_start(a.pots, group_size)),
    decreases starts.len(),
{
    if starts.len() > 0 {
        lemma_sum_push(accounts, a, starts.drop_last(), group_size);
        lemma_members_push(accounts, a, starts.last(), group_size);
    }
}

proof fn lemma_hits_none(starts: Seq<int>, s: int)
    requires
        forall|i: int| 0 <= i < starts.len() ==> starts[i] != s,
    ensures
        hits(starts, s) == 0,
    decreases starts.len(),
{
    if starts.len() > 0 {
        lemma_hits_none(starts.drop_last(), s);
    }
}

proof fn lemma_hits_one(starts: Seq<int>, s: int, k: int)
    requires
        0 <= k < starts.len(),
        starts[k] == s,
        forall|i: int, j: int| 0 <= i < j < starts.len() ==> starts[i] < starts[j],
    ensures
        hits(starts, s) == 1,
    decreases starts.len(),
{
    let rest = starts.drop_last();
    if k == starts.len() - 1 {
        assert forall|i: int| 0 <= i < rest.len() implies rest[i] != s by {
            assert(starts[i] < starts[k]);
        }
        lemma_hits_none(rest, s);
    } else {
        assert(starts.last() != s) by {
            assert(starts[k] < starts[starts.len() - 1]);
        }
        lemma_hits_one(rest, s, k);
    }
}

proof fn lemma_sum_total(accounts: Seq<AccountEntry>, starts: Seq<int>, group_size: u64)
    requires
        forall|i: int, j: int| 0 <= i < j < starts.len() ==> starts[i] < starts[j],
        forall|k: int| 0 <= k < accounts.len() ==> starts.contains(bucket_start(#[trigger] accounts[k].pots, group_size)),
    ensures
        sum_members(accounts, starts, group_size) == accounts.len(),
    decreases accounts.len(),
{
    if accounts.len() == 0 {
        lemma_sum_empty(starts, group_size);
        assert(accounts =~= Seq::<AccountEntry>::empty());
    } else {
        let rest = accounts.drop_last();
        let a = accounts.last();
        assert forall|k: int| 0 <= k < rest.len() implies starts.contains(bucket_start(#[trigger] rest[k].pots, group_size)) by {
            assert(rest[k] == accounts[k]);
        }
        lemma_sum_total(rest, starts, group_size);
        assert(rest.push(a) =~= accounts);
        lemma_sum_push(rest, a, starts, group_size);
        assert(a == accounts[accounts.len() - 1]);
        assert(starts.contains(bucket_start(accounts[accounts.len() - 1].pots, group_size)));
        let i = choose|i: int| 0 <= i < starts.len() && #[trigger] starts[i] == bucket_start(a.pots, group_size);
        lemma_hits_one(starts, bucket_start(a.pots, group_size), i);
    }
}

proof fn lemma_sum_empty(starts: Seq<int>, group_size: u64)
    ensures
        sum_members(Seq::empty(), starts, group_size) == 0,
    decreases starts.len(),
{
    if starts.len() > 0 {
        lemma_sum_empty(starts.drop_last(), group_size);
    }
}

spec fn starts_of(groups: Seq<Vec<AccountEntry>>, group_size: u64) -> Seq<int> {
    groups.map_values(|gr: Vec<AccountEntry>| group_start(gr, group_size))
}

proof fn lemma_total_is_sum(accounts: Seq<AccountEntry>, groups: Seq<Vec<AccountEntry>>, group_size: u64)
    requires
        forall|i: int| 0 <= i < groups.len() ==>
            #[trigger] groups[i]@ == members(accounts, group_start(groups[i], group_size), group_size),
    ensures
        total_size(groups) == sum_members(accounts, starts_of(groups, group_size), group_size),
    decreases groups.len(),
{
    if groups.len() > 0 {
        let rest = groups.drop_last();
        assert forall|i: int| 0 <= i < rest.len() implies
            #[trigger] rest[i]@ == members(accounts, group_start(rest[i], group_size), group_size) by {
            assert(rest[i] == groups[i]);
        }
        lemma_total_is_sum(accounts, rest, group_size);
        assert(starts_of(groups, group_size).drop_last() =~= starts_of(rest, group_size));
        assert(groups.last() == groups[groups.len() - 1]);
    }
}

proof fn lemma_members_have_start(accounts: Seq<AccountEntry>, start: int, group_size: u64, x: AccountEntry)
    requires
        members(accounts, start, group_size).contains(x),
    ensures
        bucket_start(x.pots, group_size) == start,
    decreases accounts.len(),
{
    if accounts.len() > 0 {
        let rest = members(accounts.drop_last(), start, group_size);
        if bucket_start(accounts.last().pots, group_size) == start && x == accounts.last() {
        } else {
            if bucket_start(accounts.last().pots, group_size) == start {
                let j = choose|j: int| 0 <= j < rest.push(accounts.last()).len() && rest.push(accounts.last())[j] == x;
                assert(j < rest.len());
                assert(rest[j] == x);
            }
            lemma_members_have_start(accounts.drop_last(), start, group_size, x);
        }
    }
}

proof fn lemma_members_hold(accounts: Seq<AccountEntry>, start: int, group_size: u64, k: int)
    requires
        0 <= k < accounts.len(),
        bucket_start(accounts[k].pots, group_size) == start,
    ensures
        members(accounts, start, group_size).contains(accounts[k]),
    decreases accounts.len(),
{
    let m = members(accounts, start, group_size);
    if k == accounts.len() - 1 {
        assert(m.last() == accounts[k]);
        assert(m[m.len() - 1] == accounts[k]);
    } else {
        let rest = accounts.drop_last();
        assert(rest[k] == accounts[k]);
        lemma_members_hold(rest, start, group_size, k);
        let mr = members(rest, start, group_size);
        let j = choose|j: int| 0 <= j < mr.len() && mr[j] == accounts[k];
        if bucket_start(accounts.last().pots, group_size) == start {
            assert(m[j] == accounts[k]);
        }
    }
}

/// The bucketing partitions the accounts: each account lies in exactly one group,
/// the group of its own bucket start, and every member of a group has that group's
/// start; each start is a multiple of the width; the starts ascend; and the group
/// sizes add up to the number of accounts.
pub proof fn law_bucketing_partitions(accounts: Seq<AccountEntry>, group_size: u64, groups: Seq<Vec<AccountEntry>>)
    requires
        group_size > 0,
        is_bucketing(accounts, group_size, groups),
    ensures
        forall|k: int| 0 <= k < accounts.len() ==> exists|i: int| 0 <= i < groups.len()
            && group_start(groups[i], group_size) == bucket_start(#[trigger] accounts[k].pots, group_size)
            && groups[i]@.contains(accounts[k]),
        forall|k: int, i: int, j: int| 0 <= k < accounts.len() && 0 <= i < groups.len() && 0 <= j < groups.len()
            && group_start(#[trigger] groups[i], group_size) == bucket_start(#[trigger] accounts[k].pots, group_size)
            && group_start(#[trigger] groups[j], group_size) == bucket_start(accounts[k].pots, group_size) ==> i == j,
        forall|i: int, x: AccountEntry| 0 <= i < groups.len() && #[trigger] groups[i]@.contains(x)
            ==> bucket_start(x.pots, group_size) == group_start(groups[i], group_size),
        forall|i: int| 0 <= i < groups.len() ==> #[trigger] group_start(groups[i], group_size) % group_size as int == 0,
        forall|i: int, j: int| 0 <= i < j < groups.len() ==>
            group_start(#[trigger] groups[i], group_size) < group_start(#[trigger] groups[j], group_size),
        total_size(groups) == accounts.len(),
{
    assert forall|k: int| 0 <= k < accounts.len() implies exists|i: int| 0 <= i < groups.len()
        && group_start(groups[i], group_size) == bucket_start(#[trigger] accounts[k].pots, group_size)
        && groups[i]@.contains(accounts[k]) by {
        let i = choose|i: int| 0 <= i < groups.len() && group_start(#[trigger] groups[i], group_size)
            == bucket_start(accounts[k].pots, group_size);
        assert(groups[i]@ == members(accounts, group_start(groups[i], group_size), group_size));
        lemma_members_hold(accounts, group_start(groups[i], group_size), group_size, k);
    }
    assert forall|k: int, i: int, j: int| 0 <= k < accounts.len() && 0 <= i < groups.len() && 0 <= j < groups.len()
        && group_start(#[trigger] groups[i], group_size) == bucket_start(#[trigger] accounts[k].pots, group_size)
        && group_start(#[trigger] groups[j], group_size) == bucket_start(accounts[k].pots, group_size) implies i == j by {
        if i < j {
            assert(group_start(groups[i], group_size) < group_start(groups[j], group_size));
        } else if j < i {
            assert(group_start(groups[j], group_size) < group_start(groups[i], group_size));
        }
    }
    assert forall|i: int, x: AccountEntry| 0 <= i < groups.len() && #[trigger] groups[i]@.contains(x)
        implies bucket_start(x.pots, group_size) == group_start(groups[i], group_size) by {
        assert(groups[i]@ == members(accounts, group_start(groups[i], group_size), group_size));
        lemma_members_have_start(accounts, group_start(groups[i], group_size), group_size, x);
    }
    assert forall|i: int| 0 <= i < groups.len() implies #[trigger] group_start(groups[i], group_size) % group_size as int == 0 by {
        lemma_bucket_start_bounds(groups[i]@[0].pots, group_size);
    }
    let starts = starts_of(groups, group_size);
    assert forall|k: int| 0 <= k < accounts.len() implies starts.contains(bucket_start(#[trigger] accounts[k].pots, group_size)) by {
        let i = choose|i: int| 0 <= i < groups.len() && group_start(#[trigger] groups[i], group_size)
            == bucket_start(accounts[k].pots, group_size);
        assert(starts[i] == group_start(groups[i], group_size));
    }
    assert forall|i: int, j: int| 0 <= i < j < starts.len() implies starts[i] < starts[j] by {
        assert(starts[i] == group_start(groups[i], group_size));
        assert(starts[j] == group_start(groups[j], group_size));
    }
    lemma_sum_total(accounts, starts, group_size);
    lemma_total_is_sum(accounts, groups, group_size);
}

/// Groups the accounts by the bucket of width `group_size` that holds their item
/// count: groups come in ascending bucket order and keep the input order inside.
/// A width of zero is refused.
#[verifier::loop_isolation(false)]
#[verifier::spinoff_prover]
#[verifier::rlimit(50)]
pub fn bucket_by_potion_range(accounts: &[AccountEntry], group_size: u64) -> (r: Result<Vec<Vec<AccountEntry>>, ListingError>)
    ensures
        group_size == 0 <==> r == Err::<Vec<Vec<AccountEntry>>, ListingError>(ListingError::InvalidConfiguration),
        group_size > 0 ==> r.is_ok() && is_bucketing(accounts@, group_size, r.unwrap()@),
{
    if group_size == 0 {
        return Err(ListingError::InvalidConfiguration);
    }
    let mut groups: Vec<Vec<AccountEntry>> = Vec::new();
    let mut starts: Vec<u64> = Vec::new();
    let mut k: usize = 0;
    while k < accounts.len()
        invariant
            0 <= k <= accounts@.len(),
            starts@.len() == groups@.len(),
            forall|i: int| 0 <= i < starts@.len() ==> #[trigger] groups@[i]@.len() > 0,
            forall|i: int| 0 <= i < starts@.len() ==> #[trigger] starts@[i] == group_start(groups@[i], group_size),
            forall|i: int| 0 <= i < starts@.len() ==>
                #[trigger] groups@[i]@ == members(accounts@.subrange(0, k as int), starts@[i] as int, group_size),
            forall|i: int, j: int| 0 <= i < j < starts@.len() ==> #[trigger] starts@[i] < #[trigger] starts@[j],
            forall|j: int| 0 <= j < k ==>
                exists|i: int| 0 <= i < starts@.len() && #[trigger] starts@[i] == bucket_start(#[trigger] accounts@[j].pots, group_size),
        decreases accounts@.len() - k,
    {
        let acc = &accounts[k];
        proof {
            lemma_bucket_start_bounds(acc.pots, group_size);
        }
        let start: u64 = (acc.pots / group_size) * group_size;
        let mut p: usize = 0;
        while p < starts.len() && starts[p] < start
            invariant
                p <= starts@.len(),
                forall|i: int| 0 <= i < p ==> #[trigger] starts@[i] < start,
            decreases starts@.len() - p,
        {
            p += 1;
        }
        let ghost prev = accounts@.subrange(0, k as int);
        let ghost next = accounts@.subrange(0, k as int + 1);
        assert(next =~= prev.push(*acc));
        let ghost old_starts = starts@;
        let ghost old_groups = groups@;
        if p < starts.len() && starts[p] == start {
            let mut grp = groups.remove(p);
            grp.push(acc.clone());
            groups.insert(p, grp);
            assert forall|i: int| 0 <= i < starts@.len() implies
                #[trigger] groups@[i]@ == members(next, starts@[i] as int, group_size) by {
                lemma_members_push(prev, *acc, starts@[i] as int, group_size);
                if i != p {
                    assert(groups@[i] == old_groups[i]);
                }
            }
            assert forall|i: int| 0 <= i < starts@.len() implies #[trigger] starts@[i] == group_start(groups@[i], group_size) by {
                if i != p {
                    assert(groups@[i] == old_groups[i]);
                } else {
                    assert(groups@[i]@[0] == old_groups[i]@[0]);
                }
            }
            assert forall|i: int| 0 <= i < starts@.len() implies #[trigger] groups@[i]@.len() > 0 by {
                if i != p {
                    assert(groups@[i] == old_groups[i]);
                }
            }
            assert(starts@[p as int] == bucket_start(accounts@[k as int].pots, group_size));
        } else {
            assert forall|j: int| 0 <= j < prev.len() implies bucket_start(#[trigger] prev[j].pots, group_size) != start by {
                assert(prev[j] == accounts@[j]);
                let i = choose|i: int| 0 <= i < starts@.len() && #[trigger] starts@[i] == bucket_start(accounts@[j].pots, group_size);
                if i < p {
                } else if i > p {
                    assert(starts@[p as int] < starts@[i]);
                }
            }
            proof {
                lemma_members_none(prev, start as int, group_size);
                lemma_members_push(prev, *acc, start as int, group_size);
            }
            starts.insert(p, start);
            groups.insert(p, vec![acc.clone()]);
            assert(groups@[p as int]@ =~= Seq::<AccountEntry>::empty().push(*acc));
            assert forall|i: int| 0 <= i < starts@.len() implies
                #[trigger] groups@[i]@ == members(next, starts@[i] as int, group_size)
                && groups@[i]@.len() > 0
                && starts@[i] == group_start(groups@[i], group_size) by {
                if i < p {
                    assert(groups@[i] == old_groups[i]);
                    assert(starts@[i] == old_starts[i]);
                    lemma_members_push(prev, *acc, starts@[i] as int, group_size);
                } else if i > p {
                    assert(groups@[i] == old_groups[i - 1]);
                    assert(starts@[i] == old_starts[i - 1]);
                    lemma_members_push(prev, *acc, starts@[i] as int, group_size);
                }
            }
            assert forall|i: int, j: int| 0 <= i < j < starts@.len() implies #[trigger] starts@[i] < #[trigger] starts@[j] by {
                if j < p {
                    assert(starts@[i] == old_starts[i] && starts@[j] == old_starts[j]);
                } else if j == p {
                    assert(starts@[i] == old_starts[i]);
                } else if i > p {
                    assert(starts@[i] == old_starts[i - 1] && starts@[j] == old_starts[j - 1]);
                } else if i == p {
                    assert(starts@[j] == old_starts[j - 1]);
                } else {
                    assert(starts@[i] == old_starts[i] && starts@[j] == old_starts[j - 1]);
                    assert(old_starts[i] < old_starts[p as int]);
                }
            }
            assert forall|j: int| 0 <= j < k + 1 implies
                exists|i: int| 0 <= i < starts@.len() && #[trigger] starts@[i] == bucket_start(#[trigger] accounts@[j].pots, group_size) by {
                if j < k {
                    let i0 = choose|i: int| 0 <= i < old_starts.len() && #[trigger] old_starts[i] == bucket_start(accounts@[j].pots, group_size);
                    if i0 < p {
                        assert(starts@[i0] == old_starts[i0]);
                    } else {
                        assert(starts@[i0 + 1] == old_starts[i0]);
                    }
                } else {
                    assert(starts@[p as int] == start);
                }
            }
        }
        k += 1;
    }
    assert(accounts@.subrange(0, accounts@.len() as int) =~= accounts@);
    assert forall|k: int| 0 <= k < accounts@.len() implies
        exists|i: int| 0 <= i < groups@.len() && group_start(#[trigger] groups@[i], group_size)
            == bucket_start(#[trigger] accounts@[k].pots, group_size) by {
        let i = choose|i: int| 0 <= i < starts@.len() && #[trigger] starts@[i] == bucket_start(accounts@[k].pots, group_size);
        assert(group_start(groups@[i], group_size) == starts@[i]);
    }
    assert forall|i: int, j: int| 0 <= i < j < groups@.len() implies
        group_start(#[trigger] groups@[i], group_size) < group_start(#[trigger] groups@[j], group_size) by {
        assert(starts@[i] < starts@[j]);
    }
    Ok(groups)
}

} // verus!
