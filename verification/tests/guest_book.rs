use guest_book::{GuestBook, PostedMessage};
use near_sdk::json_types::U128;
#[allow(deprecated)]
use near_sdk::test_utils::testing_env_with_promise_results;
use near_sdk::test_utils::{accounts, VMContextBuilder};
use near_sdk::{NearToken, PromiseResult};

const BOB: &str = "bob.near";

fn post(book: &mut GuestBook, text: &str) {
    book.add_message(text.to_string(), BOB.to_string(), 0);
}

/// Posts the way a contract does: the sender and the deposit are those of the
/// call that is being executed.
fn post_from_call(book: &mut GuestBook, text: String) {
    let sender = near_sdk::env::predecessor_account_id();
    let attached_deposit = near_sdk::env::attached_deposit();
    book.add_message(text, sender.to_string(), attached_deposit.as_yoctonear());
}

#[allow(deprecated)]
fn next_call(sender: usize, attached_deposit: NearToken) {
    let context = VMContextBuilder::new()
        .predecessor_account_id(accounts(sender))
        .attached_deposit(attached_deposit)
        .build();
    testing_env_with_promise_results(context, PromiseResult::Successful(Vec::new()));
}

fn texts(page: &[PostedMessage]) -> Vec<String> {
    page.iter().map(|message| message.text.clone()).collect()
}

#[test]
fn add_message() {
    let mut contract = GuestBook::default();
    post_from_call(&mut contract, "A message".to_string());

    let posted_message = &contract.get_messages(None, None)[0];
    assert_eq!(posted_message.premium, false);
    assert_eq!(posted_message.text, "A message".to_string());
    assert_eq!(posted_message.sender, BOB.to_string());
}

#[test]
fn iters_messages() {
    let mut contract = GuestBook::default();
    post_from_call(&mut contract, "1st message".to_string());
    post_from_call(&mut contract, "2nd message".to_string());
    post_from_call(&mut contract, "3rd message".to_string());

    let total = &contract.total_messages();
    assert!(*total == 3);

    let last_message = &contract.get_messages(Some(u128::from(U128::from(1))), Some(2))[1];
    assert_eq!(last_message.premium, false);
    assert_eq!(last_message.text, "3rd message".to_string());
    assert_eq!(last_message.sender, BOB.to_string());
}

#[test]
fn messages_from_different_calls() {
    let mut contract = GuestBook::default();
    next_call(0, NearToken::from_millinear(100));
    post_from_call(&mut contract, "paid".to_string());
    next_call(2, NearToken::from_millinear(99));
    post_from_call(&mut contract, "almost paid".to_string());
    next_call(1, NearToken::from_near(1));
    post_from_call(&mut contract, "paid well".to_string());

    let page = contract.get_messages(None, None);
    let expected = vec![
        PostedMessage { premium: true, sender: "alice".to_string(), text: "paid".to_string() },
        PostedMessage {
            premium: false,
            sender: "charlie".to_string(),
            text: "almost paid".to_string(),
        },
        PostedMessage { premium: true, sender: "bob".to_string(), text: "paid well".to_string() },
    ];
    assert_eq!(page, expected);
}

#[test]
fn explicit_and_default_context_agree() {
    let mut from_call = GuestBook::default();
    post_from_call(&mut from_call, "A message".to_string());
    let mut by_hand = GuestBook::default();
    by_hand.add_message("A message".to_string(), BOB.to_string(), 0);
    assert_eq!(from_call.get_messages(None, None), by_hand.get_messages(None, None));
}

#[test]
fn new_book_is_empty() {
    let book = GuestBook::new();
    assert_eq!(book.total_messages(), 0);
    assert!(book.get_messages(None, None).is_empty());
    assert!(book.get_messages(Some(0), Some(u64::MAX)).is_empty());

    let book = GuestBook::default();
    assert_eq!(book.total_messages(), 0);
    assert!(book.get_messages(None, None).is_empty());
}

#[test]
fn count_grows_by_one_per_call() {
    let mut book = GuestBook::new();
    for n in 0..25u64 {
        assert_eq!(book.total_messages(), n);
        post(&mut book, &format!("message {n}"));
        assert_eq!(book.total_messages(), n + 1);
        let newest = book.get_messages(Some(u128::from(n)), Some(1));
        assert_eq!(texts(&newest), vec![format!("message {n}")]);
    }
}

#[test]
fn earlier_messages_are_never_overwritten() {
    let mut book = GuestBook::new();
    let mut expected: Vec<String> = Vec::new();
    for n in 0..12u64 {
        let text = format!("entry #{n}");
        post(&mut book, &text);
        expected.push(text);
        let all = book.get_messages(Some(0), Some(u64::MAX));
        assert_eq!(texts(&all), expected);
    }
}

#[test]
fn sender_is_the_account_that_posted() {
    let mut book = GuestBook::new();
    book.add_message("alice.near".to_string(), "carol.testnet".to_string(), 0);
    book.add_message("sender: mallory.near".to_string(), "dave.near".to_string(), 7);

    let page = book.get_messages(None, None);
    assert_eq!(page[0].sender, "carol.testnet");
    assert_eq!(page[0].text, "alice.near");
    assert_eq!(page[1].sender, "dave.near");
    assert_eq!(page[1].text, "sender: mallory.near");
}

#[test]
fn posted_message_comes_back_unchanged() {
    let samples = [
        "",
        " ",
        "plain text",
        "line one\nline two\r\n\ttabbed",
        "quotes \" and \\ backslashes",
        "snowman \u{2603}, crab \u{1F980}, e\u{301}",
        "\0 nul inside",
    ];
    let mut book = GuestBook::new();
    for (index, text) in samples.iter().enumerate() {
        book.add_message(text.to_string(), BOB.to_string(), 0);
        let page = book.get_messages(Some(index as u128), Some(1));
        assert_eq!(page.len(), 1);
        assert_eq!(page[0].text.as_bytes(), text.as_bytes());
        assert_eq!(page[0].sender, BOB);
        assert_eq!(page[0].premium, false);
    }
    let all = book.get_messages(Some(0), Some(100));
    assert_eq!(texts(&all), samples.iter().map(|text| text.to_string()).collect::<Vec<_>>());
}

#[test]
fn long_text_is_accepted() {
    let text = "x".repeat(100_000);
    let mut book = GuestBook::new();
    book.add_message(text.clone(), BOB.to_string(), 0);
    assert_eq!(book.total_messages(), 1);
    assert_eq!(book.get_messages(None, None)[0].text, text);
}

#[test]
fn listing_does_not_change_the_book() {
    let mut book = GuestBook::new();
    post(&mut book, "one");
    post(&mut book, "two");
    let first = texts(&book.get_messages(None, None));
    let _ = book.get_messages(Some(1), Some(1));
    let _ = book.get_messages(Some(5), None);
    let second = texts(&book.get_messages(None, None));
    assert_eq!(first, second);
    assert_eq!(book.total_messages(), 2);
}

#[test]
fn clone_keeps_every_field() {
    let message = PostedMessage::new("hello".to_string(), BOB.to_string(), u128::MAX);
    let copy = message.clone();
    assert_eq!(copy.premium, true);
    assert_eq!(copy.sender, "bob.near");
    assert_eq!(copy.text, "hello");
    assert_eq!(message.text, "hello");
}
