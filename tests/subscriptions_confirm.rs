use zero2prod::store::{SubscriberStore, SubscriptionStatus};
use zero2prod::workflow::{confirm, confirmation_delivery, subscribe, ApiError};

const BASE: &str = "http://127.0.0.1:8000";

fn token_in_link(body: &str) -> String {
    let key = "subscription_token=";
    let start = body.find(key).unwrap() + key.len();
    let rest = &body[start..];
    let end = rest.find(|c: char| !c.is_ascii_alphanumeric()).unwrap_or(rest.len());
    rest[..end].to_string()
}

fn subscribe_ursula(store: &mut SubscriberStore) -> String {
    let mail = subscribe(
        store,
        Some("ursula_le_guin@gmail.com".to_string()),
        Some("le guin".to_string()),
        "q8Wn2ZkP0sLmX4vB7yR1tC9dE3".to_string(),
        42,
        BASE,
    )
    .unwrap();
    assert_eq!(confirmation_delivery(true), Ok(()));
    token_in_link(&mail.html_body)
}

fn status(r: &Result<(), ApiError>) -> u16 {
    match r {
        Ok(()) => 200,
        Err(e) => e.status(),
    }
}

#[test]
fn confirmations_without_token_are_rejected_with_a_400() {
    let mut store = SubscriberStore::new();
    subscribe_ursula(&mut store);
    let r = confirm(&mut store, None);
    assert_eq!(status(&r), 400);
    assert_eq!(store.find_by_subscriber_id(0).unwrap().status, SubscriptionStatus::PendingConfirmation);
}

#[test]
fn the_link_returned_by_subscribe_returns_a_200_if_called() {
    let mut store = SubscriberStore::new();
    let token = subscribe_ursula(&mut store);
    let r = confirm(&mut store, Some(token));
    assert_eq!(status(&r), 200, "should return a 200");
}

#[test]
fn clicking_on_the_confirmation_link_confirms_a_subscriber() {
    let mut store = SubscriberStore::new();
    let token = subscribe_ursula(&mut store);
    confirm(&mut store, Some(token)).unwrap();
    let saved = store.find_by_subscriber_id(0).unwrap();
    assert_eq!(saved.email, "ursula_le_guin@gmail.com", "email is not equal");
    assert_eq!(saved.name, "le guin", "name is not equal");
    assert_eq!(saved.status, SubscriptionStatus::Confirmed);
}

#[test]
fn confirming_twice_is_harmless() {
    let mut store = SubscriberStore::new();
    let token = subscribe_ursula(&mut store);
    assert_eq!(status(&confirm(&mut store, Some(token.clone()))), 200);
    assert_eq!(status(&confirm(&mut store, Some(token))), 200);
    assert_eq!(store.find_by_subscriber_id(0).unwrap().status, SubscriptionStatus::Confirmed);
    assert_eq!(store.subscriber_count(), 1);
}

#[test]
fn a_token_never_issued_is_rejected() {
    let mut store = SubscriberStore::new();
    subscribe_ursula(&mut store);
    let r = confirm(&mut store, Some("NeverIssuedNeverIssuedNeverX".to_string()));
    assert_eq!(r, Err(ApiError::InvalidToken));
    assert_eq!(status(&r), 400);
    let r = confirm(&mut store, Some(String::new()));
    assert_eq!(status(&r), 400);
    assert_eq!(store.find_by_subscriber_id(0).unwrap().status, SubscriptionStatus::PendingConfirmation);
}

#[test]
fn a_failed_delivery_is_a_500() {
    let r = confirmation_delivery(false);
    assert_eq!(r, Err(ApiError::DeliveryFault));
    assert_eq!(r.unwrap_err().status(), 500);
}

#[test]
fn end_to_end_subscribe_then_confirm() {
    let mut store = SubscriberStore::new();
    let mail = subscribe(
        &mut store,
        Some("ursula_le_guin@gmail.com".to_string()),
        Some("le guin".to_string()),
        "AAAAAbbbbbCCCCCddddd01234".to_string(),
        7,
        BASE,
    )
    .unwrap();
    assert_eq!(store.find_by_subscriber_id(0).unwrap().status, SubscriptionStatus::PendingConfirmation);
    let token = token_in_link(&mail.text_body);
    assert_eq!(token, "AAAAAbbbbbCCCCCddddd01234");
    assert_eq!(confirm(&mut store, Some(token)), Ok(()));
    assert_eq!(store.find_by_subscriber_id(0).unwrap().status, SubscriptionStatus::Confirmed);
}
