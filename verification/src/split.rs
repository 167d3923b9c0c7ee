//! The split calculator: who owes how much of an expense.
//!
//! An equal split gives every member the whole quotient of the amount by the
//! number of members; the remainder goes, one unit each, to the members that
//! come first in the list, which for a group are those who joined it first.
//! The shares therefore add up to the amount exactly.

use vstd::prelude::*;
use vstd::arithmetic::div_mod::lemma_fundamental_div_mod;
use crate::datamodel::{split_type_of_code, views, Expense, SplitType, User, UserView};
use crate::error::DataError;

verus! {

/// What the member at position `index` owes when `amount` is split equally
/// among `count` members.
pub open spec fn equal_share(amount: int, count: int, index: int) -> int {
    amount / count + if index < amount % count {
        1int
    } else {
        0int
    }
}

/// The equal split of `amount` among `members`: one share for each, in the
/// order of the list.
pub open spec fn equal_split(amount: u32, members: Seq<UserView>) -> Seq<(Seq<char>, u32)> {
    Seq::new(
        members.len(),
        |i: int| (members[i].user_id, equal_share(amount as int, members.len() as int, i) as u32),
    )
}

/// The split of `amount` among `members` under the rule stored as
/// `split_code`. Only the equal split of a list that is not empty is
/// supported; everything else is an invalid input.
pub open spec fn split_of(amount: u32, split_code: u32, members: Seq<UserView>) -> Result<
    Seq<(Seq<char>, u32)>,
    DataError,
> {
    if split_type_of_code(split_code) == Ok::<SplitType, DataError>(SplitType::Equal)
        && members.len() > 0 {
        Ok(equal_split(amount, members))
    } else {
        Err(DataError::InvalidInput)
    }
}

/// The sum of the amounts of a list of shares.
pub open spec fn total_of(shares: Seq<(Seq<char>, u32)>) -> int
    decreases shares.len(),
{
    if shares.len() == 0 {
        0
    } else {
        total_of(shares.drop_last()) + shares.last().1
    }
}

/// The shares as plain values.
pub open spec fn share_views(shares: Seq<(String, u32)>) -> Seq<(Seq<char>, u32)> {
    shares.map_values(|share: (String, u32)| (share.0@, share.1))
}

/// An equal share lies between nothing and the whole amount.
pub proof fn lemma_equal_share_bounds(amount: int, count: int, index: int)
    requires
        0 <= amount,
        0 < count,
        0 <= index < count,
    ensures
        0 <= amount / count <= equal_share(amount, count, index) <= amount / count + 1,
        equal_share(amount, count, index) <= amount,
{
    lemma_fundamental_div_mod(amount, count);
    let quotient = amount / count;
    assert(0 <= quotient && quotient <= count * quotient) by (nonlinear_arith)
        requires
            0 <= amount,
            0 < count,
            quotient == amount / count,
    ;
}

/// The first `n` shares of an equal split add up to `n` quotients and as
/// many units of the remainder as fall among them.
proof fn lemma_equal_split_prefix(amount: u32, members: Seq<UserView>, n: int)
    requires
        0 <= n <= members.len(),
        members.len() > 0,
    ensures
        total_of(equal_split(amount, members).take(n)) == n * (amount as int / members.len() as int)
            + if n < amount as int % members.len() as int {
            n
        } else {
            amount as int % members.len() as int
        },
    decreases n,
{
    let count = members.len() as int;
    let quotient = amount as int / count;
    let shares = equal_split(amount, members);
    if n > 0 {
        lemma_equal_split_prefix(amount, members, n - 1);
        lemma_equal_share_bounds(amount as int, count, n - 1);
        assert(shares.take(n).drop_last() =~= shares.take(n - 1));
        assert(shares.take(n).last() == shares[n - 1]);
        assert(n * quotient == (n - 1) * quotient + quotient) by (nonlinear_arith);
    } else {
        assert(shares.take(n).len() == 0);
        assert(n * quotient == 0) by (nonlinear_arith)
            requires
                n == 0,
        ;
    }
}

/// The shares of an equal split add up to the amount, whether or not the
/// amount is a multiple of the number of members.
pub proof fn lemma_equal_split_total(amount: u32, members: Seq<UserView>)
    requires
        members.len() > 0,
    ensures
        equal_split(amount, members).len() == members.len(),
        total_of(equal_split(amount, members)) == amount,
{
    let count = members.len() as int;
    let shares = equal_split(amount, members);
    lemma_equal_split_prefix(amount, members, count);
    lemma_fundamental_div_mod(amount as int, count);
    assert(shares.take(count) =~= shares);
    assert(count * (amount as int / count) == (amount as int / count) * count) by (nonlinear_arith);
}

/// Every share of an equal split is what `equal_share` gives, without loss.
pub proof fn lemma_equal_split_shares(amount: u32, members: Seq<UserView>)
    requires
        members.len() > 0,
    ensures
        forall|i: int|
            0 <= i < members.len() ==> (#[trigger] equal_split(amount, members)[i]).1 == equal_share(
                amount as int,
                members.len() as int,
                i,
            ),
{
    assert forall|i: int| 0 <= i < members.len() implies (#[trigger] equal_split(amount, members)[i]).1
        == equal_share(amount as int, members.len() as int, i) by {
        lemma_equal_share_bounds(amount as int, members.len() as int, i);
    }
}

/// Every split that succeeds has one share for each member, and its shares
/// add up to the amount.
pub proof fn lemma_split_total(amount: u32, split_code: u32, members: Seq<UserView>)
    ensures
        split_of(amount, split_code, members) matches Ok(shares) ==> shares.len() == members.len()
            && total_of(shares) == amount,
{
    if split_of(amount, split_code, members) is Ok {
        lemma_equal_split_total(amount, members);
    }
}

/// Divides the amount of `expense` among `users` under the expense's split
/// rule. The shares come in the order of `users` and add up to the amount.
pub fn calculate_split(expense: &Expense, users: &[User]) -> (split: Result<
    Vec<(String, u32)>,
    DataError,
>)
    ensures
        match split {
            Ok(shares) => split_of(expense.amount, expense.split_type, views(users@))
                == Ok::<Seq<(Seq<char>, u32)>, DataError>(share_views(shares@)),
            Err(e) => split_of(expense.amount, expense.split_type, views(users@))
                == Err::<Seq<(Seq<char>, u32)>, DataError>(e),
        },
        split matches Ok(shares) ==> shares@.len() == users@.len() && total_of(share_views(shares@))
            == expense.amount,
{
    proof {
        lemma_split_total(expense.amount, expense.split_type, views(users@));
    }
    let split_type = match SplitType::try_from(expense.split_type) {
        Ok(split_type) => split_type,
        Err(e) => {
            return Err(e);
        },
    };
    match split_type {
        SplitType::Equal => {
            let users_count: usize = users.len();
            if users_count == 0 {
                return Err(DataError::InvalidInput);
            }
            let amount: u64 = expense.amount as u64;
            let final_amount: u64 = amount / (users_count as u64);
            let remainder: u64 = amount % (users_count as u64);
            let ghost members = views(users@);
            let mut split: Vec<(String, u32)> = Vec::new();
            let mut i: usize = 0;
            while i < users_count
                invariant
                    i <= users_count,
                    users_count == users@.len(),
                    users_count > 0,
                    amount == expense.amount,
                    final_amount == amount / (users_count as u64),
                    remainder == amount % (users_count as u64),
                    members == views(users@),
                    share_views(split@) == equal_split(expense.amount, members).take(i as int),
                decreases users_count - i,
            {
                proof {
                    lemma_equal_share_bounds(amount as int, users_count as int, i as int);
                }
                let share: u64 = if (i as u64) < remainder {
                    final_amount + 1
                } else {
                    final_amount
                };
                let ghost before = split@;
                split.push((users[i].user_id.clone(), share as u32));
                proof {
                    let expected = equal_split(expense.amount, members);
                    assert(share_views(split@) =~= share_views(before).push(
                        (users@[i as int].user_id@, share as u32),
                    ));
                    assert(expected.take(i + 1) =~= expected.take(i as int).push(expected[i as int]));
                }
                i = i + 1;
            }
            proof {
                let expected = equal_split(expense.amount, members);
                assert(expected.take(users_count as int) =~= expected);
            }
            Ok(split)
        },
        _ => Err(DataError::InvalidInput),
    }
}

} // verus!
