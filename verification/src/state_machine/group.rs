//! Creating a group, and choosing the group that a user is to be added to.

use vstd::prelude::*;
use crate::datamodel::{Group, GroupId, UserId};
use crate::error::DataError;
use crate::state_machine::state::State;
use crate::state_machine::{reads, Reply, Request, Step, CANCEL, CONFIRM, EDIT};

verus! {

/// `step` is what the message that should hold the name of a new group
/// leads to: without text the question is put again; with text the group
/// is begun, under that name and without a description yet, as created by
/// the sender, and its description is asked for.
pub open spec fn is_group_named(step: Step, text: Option<String>, chat_id: UserId) -> bool {
    match text {
        None => step == Step::saying(Reply::EnterGroupName),
        Some(name) => {
            &&& step.reply == Some(Reply::EnterGroupDescription)
            &&& step.request is None
            &&& step.next matches Some(State::RecieveGroupDescription { group })
            &&& group.group_id == 0
            &&& group.name == name
            &&& group.description@ == Seq::<char>::empty()
            &&& group.created_by == chat_id
        },
    }
}

/// Takes the name of a new group.
pub fn create_group(text: Option<String>, chat_id: UserId) -> (step: Step)
    ensures
        is_group_named(step, text, chat_id),
{
    match text {
        Some(name) => {
            let group = Group { name, description: String::new(), created_by: chat_id, group_id: 0 };
            Step::say_and_go(Reply::EnterGroupDescription, State::RecieveGroupDescription { group })
        },
        None => Step::say(Reply::EnterGroupName),
    }
}

/// What the message that should hold the description of a new group leads
/// to: without text the question is put again; with text the group, now
/// described, is shown for confirmation.
pub open spec fn description_step(group: Group, text: Option<String>) -> Step {
    match text {
        None => Step::saying(Reply::EnterADescription),
        Some(description) => Step::saying_and_going(
            Reply::ConfirmGroupDetails { name: group.name, description },
            State::ConfirmGroup { group: Group { description, ..group } },
        ),
    }
}

/// Takes the description of a new group.
pub fn recieve_group_description(group: Group, text: Option<String>) -> (step: Step)
    ensures
        step == description_step(group, text),
{
    match text {
        Some(description) => {
            let mut group = group;
            group.description = description;
            Step::say_and_go(
                Reply::ConfirmGroupDetails {
                    name: group.name.clone(),
                    description: group.description.clone(),
                },
                State::ConfirmGroup { group },
            )
        },
        None => Step::say(Reply::EnterADescription),
    }
}

/// What the answer to the confirmation of a new group leads to: `CONFIRM`
/// has the group stored, `EDIT` begins again at its name, `CANCEL` ends the
/// creation, and anything else is passed over. An answer without a choice
/// changes nothing.
pub open spec fn confirmation_step(group: Group, option: Option<String>) -> Step {
    match option {
        None => Step::saying(Reply::CallbackNotFound),
        Some(option) => if option@ == CONFIRM@ {
            Step { reply: None, next: None, request: Some(Request::AddGroup { group }) }
        } else if option@ == EDIT@ {
            Step::saying_and_going(Reply::EnterTheGroupName, State::CreateGroup)
        } else if option@ == CANCEL@ {
            Step::saying_and_going(Reply::GroupCreationCanceled, State::Start)
        } else {
            Step::nothing()
        },
    }
}

/// Takes the answer to the confirmation of a new group.
pub fn confirm_group(group: Group, option: Option<String>) -> (step: Step)
    ensures
        step == confirmation_step(group, option),
{
    let option = match option {
        Some(option) => option,
        None => {
            return Step::say(Reply::CallbackNotFound);
        },
    };
    if reads(&option, CONFIRM) {
        Step { reply: None, next: None, request: Some(Request::AddGroup { group }) }
    } else if reads(&option, EDIT) {
        Step::say_and_go(Reply::EnterTheGroupName, State::CreateGroup)
    } else if reads(&option, CANCEL) {
        Step::say_and_go(Reply::GroupCreationCanceled, State::Start)
    } else {
        Step::none()
    }
}

/// A group is stored only when its creation was confirmed, and then it is
/// the group that was shown.
pub proof fn lemma_group_stored_only_on_confirm(group: Group, option: Option<String>)
    ensures
        confirmation_step(group, option).request is Some <==> (option matches Some(word) && word@
            == CONFIRM@),
        confirmation_step(group, option).request matches Some(request) ==> request == (
        Request::AddGroup { group }),
{
}

/// Continues `confirm_group` with what the store made of the new group: a
/// group that was stored is announced and the conversation is over;
/// otherwise the failure is reported and the confirmation still stands.
pub fn group_created(stored: Result<(), DataError>) -> (step: Step)
    ensures
        step == match stored {
            Ok(()) => Step::saying_and_going(Reply::GroupCreated, State::Start),
            Err(_) => Step::saying(Reply::GroupCreationFailed),
        },
{
    match stored {
        Ok(()) => Step::say_and_go(Reply::GroupCreated, State::Start),
        Err(_) => Step::say(Reply::GroupCreationFailed),
    }
}

/// The value of a decimal digit, if the character is one.
pub open spec fn digit_value(c: char) -> Option<nat> {
    if '0' <= c && c <= '9' {
        Some((c as nat - '0' as nat) as nat)
    } else {
        None
    }
}

/// Every character of `text` is a decimal digit.
pub open spec fn all_digits(text: Seq<char>) -> bool {
    forall|i: int| 0 <= i < text.len() ==> digit_value(#[trigger] text[i]) is Some
}

/// The number that the digits of `text` write in base ten.
pub open spec fn decimal_value(text: Seq<char>) -> nat
    decreases text.len(),
{
    if text.len() == 0 {
        0
    } else {
        decimal_value(text.drop_last()) * 10 + match digit_value(text.last()) {
            Some(value) => value,
            None => 0,
        }
    }
}

/// The digits of a written number: the text itself, or what follows a plus
/// sign at its front.
pub open spec fn digits_of(text: Seq<char>) -> Seq<char> {
    if text.len() > 0 && text[0] == '+' {
        text.skip(1)
    } else {
        text
    }
}

/// The identity of a group as `text` writes it: one or more decimal digits,
/// with or without a plus sign in front, that write a number within the
/// range of an identity. Anything else writes none.
pub open spec fn group_id_of(text: Seq<char>) -> Option<GroupId> {
    let digits = digits_of(text);
    if digits.len() > 0 && all_digits(digits) && decimal_value(digits) <= u32::MAX {
        Some(decimal_value(digits) as u32)
    } else {
        None
    }
}

/// The value of a number grows with every digit that is written after it.
proof fn lemma_decimal_value_grows(text: Seq<char>, n: int)
    requires
        0 <= n <= text.len(),
    ensures
        decimal_value(text.take(n)) <= decimal_value(text),
    decreases text.len() - n,
{
    if n < text.len() {
        lemma_decimal_value_grows(text, n + 1);
        assert(text.take(n + 1).drop_last() =~= text.take(n));
    } else {
        assert(text.take(n) =~= text);
    }
}

/// Reads the identity of a group.
pub fn parse_group_id(text: &String) -> (group_id: Option<GroupId>)
    ensures
        group_id == group_id_of(text@),
{
    let written = text.as_str();
    let length: usize = written.unicode_len();
    if length == 0 {
        return None;
    }
    let start: usize = if written.get_char(0) == '+' {
        1
    } else {
        0
    };
    if start == length {
        return None;
    }
    let ghost digits = digits_of(text@);
    assert(digits =~= text@.skip(start as int));
    let mut value: u64 = 0;
    let mut i: usize = start;
    while i < length
        invariant
            start <= i <= length,
            written@ == text@,
            length == text@.len(),
            digits == digits_of(text@),
            digits == text@.skip(start as int),
            all_digits(digits.take(i - start)),
            value == decimal_value(digits.take(i - start)),
            value <= u32::MAX,
        decreases length - i,
    {
        let c = written.get_char(i);
        let ghost prefix = digits.take(i - start);
        let ghost longer = digits.take(i - start + 1);
        proof {
            assert(digits[i - start] == c);
            assert(longer.drop_last() =~= prefix);
            assert(longer.last() == c);
        }
        if c < '0' || c > '9' {
            assert(digit_value(digits[i - start]) is None);
            return None;
        }
        let digit: u64 = (c as u64) - ('0' as u64);
        value = value * 10 + digit;
        proof {
            assert forall|k: int| 0 <= k < longer.len() implies digit_value(#[trigger] longer[k]) is Some by {
                if k < prefix.len() {
                    assert(longer[k] == prefix[k]);
                }
            }
        }
        if value > 0xffff_ffff {
            proof {
                lemma_decimal_value_grows(digits, i - start + 1);
            }
            return None;
        }
        i = i + 1;
    }
    proof {
        assert(digits.take(length - start) =~= digits);
    }
    Some(value as u32)
}

/// What the choice of a group leads to: the group that the choice names is
/// looked up; a choice that names none is passed over; an answer without a
/// choice ends the task.
pub open spec fn choice_step(option: Option<String>) -> Step {
    match option {
        None => Step::saying_and_going(Reply::GroupNotInResponse, State::Start),
        Some(option) => match group_id_of(option@) {
            Some(group_id) => Step {
                reply: None,
                next: None,
                request: Some(Request::GetGroup { group_id }),
            },
            None => Step::nothing(),
        },
    }
}

/// Takes the choice of the group that a user is to be added to.
pub fn recieve_group_user_add(option: Option<String>) -> (step: Step)
    ensures
        step == choice_step(option),
{
    let option = match option {
        Some(option) => option,
        None => {
            return Step::say_and_go(Reply::GroupNotInResponse, State::Start);
        },
    };
    match parse_group_id(&option) {
        Some(group_id) => Step {
            reply: None,
            next: None,
            request: Some(Request::GetGroup { group_id }),
        },
        None => Step::none(),
    }
}

/// Continues `recieve_group_user_add` with what the store returned for the
/// chosen group: for a group that exists the user to add is asked for; a
/// group that is not there ends the task.
pub fn group_chosen(found: Result<Group, DataError>) -> (step: Step)
    ensures
        step == match found {
            Ok(group) => Step::saying_and_going(
                Reply::SelectUserToAdd,
                State::RecieveUserToAdd { group },
            ),
            Err(_) => Step::saying_and_going(Reply::GroupNotInDatabase, State::Start),
        },
{
    match found {
        Ok(group) => Step::say_and_go(Reply::SelectUserToAdd, State::RecieveUserToAdd { group }),
        Err(_) => Step::say_and_go(Reply::GroupNotInDatabase, State::Start),
    }
}

} // verus!
