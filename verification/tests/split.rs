use entelur::datamodel::{Expense, SplitType, User};
use entelur::error::DataError;
use entelur::split::calculate_split;

fn user(id: &str) -> User {
    User::new(id.to_string(), id.to_uppercase(), format!("@{}", id))
}

fn expense(amount: u32) -> Expense {
    Expense::new("alice".to_string(), 1, amount, "dinner".to_string(), "".to_string())
}

fn amounts(split: &[(String, u32)]) -> Vec<u32> {
    split.iter().map(|share| share.1).collect()
}

#[test]
fn equal_split_without_remainder() {
    let users = vec![user("alice"), user("bob")];
    let split = calculate_split(&expense(100), &users).unwrap();
    assert_eq!(split, vec![("alice".to_string(), 50), ("bob".to_string(), 50)]);
}

#[test]
fn equal_split_gives_the_remainder_to_the_first_members() {
    let users = vec![user("alice"), user("bob"), user("carol")];
    let split = calculate_split(&expense(10), &users).unwrap();
    assert_eq!(
        split,
        vec![("alice".to_string(), 4), ("bob".to_string(), 3), ("carol".to_string(), 3)]
    );
    assert_eq!(amounts(&split).iter().sum::<u32>(), 10);
}

#[test]
fn equal_split_of_eleven_among_three() {
    let users = vec![user("a"), user("b"), user("c")];
    let split = calculate_split(&expense(11), &users).unwrap();
    assert_eq!(amounts(&split), vec![4, 4, 3]);
}

#[test]
fn equal_split_of_less_than_one_each() {
    let users = vec![user("a"), user("b"), user("c"), user("d")];
    let split = calculate_split(&expense(2), &users).unwrap();
    assert_eq!(amounts(&split), vec![1, 1, 0, 0]);
}

#[test]
fn equal_split_of_nothing() {
    let users = vec![user("a"), user("b")];
    let split = calculate_split(&expense(0), &users).unwrap();
    assert_eq!(amounts(&split), vec![0, 0]);
}

#[test]
fn equal_split_for_a_single_member() {
    let users = vec![user("solo")];
    let split = calculate_split(&expense(77), &users).unwrap();
    assert_eq!(split, vec![("solo".to_string(), 77)]);
}

#[test]
fn equal_split_of_the_largest_amount() {
    let users = vec![user("a"), user("b"), user("c")];
    let split = calculate_split(&expense(u32::MAX), &users).unwrap();
    assert_eq!(amounts(&split), vec![1431655765, 1431655765, 1431655765]);
    let users = vec![user("a"), user("b")];
    let split = calculate_split(&expense(u32::MAX), &users).unwrap();
    assert_eq!(amounts(&split), vec![2147483648, 2147483647]);
}

#[test]
fn equal_split_sums_to_the_amount() {
    for count in 1..8usize {
        let users: Vec<User> = (0..count).map(|i| user(&format!("u{}", i))).collect();
        for amount in [0u32, 1, 2, 3, 7, 10, 99, 100, 101, 1000, 65537] {
            let split = calculate_split(&expense(amount), &users).unwrap();
            assert_eq!(split.len(), count);
            let total: u64 = split.iter().map(|share| share.1 as u64).sum();
            assert_eq!(total, amount as u64);
        }
    }
}

#[test]
fn split_among_nobody_is_invalid() {
    let users: Vec<User> = Vec::new();
    assert_eq!(calculate_split(&expense(10), &users), Err(DataError::InvalidInput));
    assert_eq!(calculate_split(&expense(0), &users), Err(DataError::InvalidInput));
}

#[test]
fn percent_and_amount_splits_are_not_supported() {
    let users = vec![user("alice"), user("bob")];
    let mut by_percent = expense(100);
    by_percent.split_type = SplitType::Percent.try_into().unwrap();
    assert_eq!(calculate_split(&by_percent, &users), Err(DataError::InvalidInput));
    let mut by_amount = expense(100);
    by_amount.split_type = SplitType::Amount.try_into().unwrap();
    assert_eq!(calculate_split(&by_amount, &users), Err(DataError::InvalidInput));
}

#[test]
fn unknown_split_code_is_invalid() {
    let users = vec![user("alice"), user("bob")];
    let mut odd = expense(100);
    odd.split_type = 3;
    assert_eq!(calculate_split(&odd, &users), Err(DataError::InvalidInput));
    odd.split_type = u32::MAX;
    assert_eq!(calculate_split(&odd, &users), Err(DataError::InvalidInput));
}

#[test]
fn split_codes_round_trip() {
    assert_eq!(SplitType::try_from(0u32), Ok(SplitType::Equal));
    assert_eq!(SplitType::try_from(1u32), Ok(SplitType::Percent));
    assert_eq!(SplitType::try_from(2u32), Ok(SplitType::Amount));
    assert_eq!(SplitType::try_from(3u32), Err(DataError::InvalidInput));
    assert_eq!(SplitType::Equal.try_into(), Ok(0));
    assert_eq!(SplitType::Percent.try_into(), Ok(1));
    assert_eq!(SplitType::Amount.try_into(), Ok(2));
    for split_type in [SplitType::Equal, SplitType::Percent, SplitType::Amount] {
        let code = split_type.try_into().unwrap();
        assert_eq!(SplitType::try_from(code), Ok(split_type));
    }
}
