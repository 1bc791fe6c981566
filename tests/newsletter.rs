use zero2prod::domain::{Field, InputError, RawContent, RawNewsletter};
use zero2prod::store::SubscriberStore;
use zero2prod::workflow::{confirm, publish_newsletter, subscribe, ApiError, OutgoingEmail};

fn newsletter_body() -> RawNewsletter {
    RawNewsletter {
        title: Some("Newsletter title".to_string()),
        content: Some(RawContent {
            text: Some("Newsletter body as plain text".to_string()),
            html: Some("<p>Newsletter body as HTML</p>".to_string()),
        }),
    }
}

fn create_unconfirmed_subscriber(store: &mut SubscriberStore) -> String {
    subscribe(
        store,
        Some("ursula_le_guin@gmail.com".to_string()),
        Some("le guin".to_string()),
        "Tok3nTok3nTok3nTok3nTok3n".to_string(),
        1,
        "http://localhost",
    )
    .unwrap();
    "Tok3nTok3nTok3nTok3nTok3n".to_string()
}

fn create_confirmed_subscriber(store: &mut SubscriberStore) {
    let token = create_unconfirmed_subscriber(store);
    confirm(store, Some(token)).unwrap();
}

fn status(r: &Result<Vec<OutgoingEmail>, ApiError>) -> u16 {
    match r {
        Ok(_) => 200,
        Err(e) => e.status(),
    }
}

#[test]
fn newsletters_are_not_delivered_to_unconfirmed_subscribers() {
    let mut store = SubscriberStore::new();
    create_unconfirmed_subscriber(&mut store);
    let r = publish_newsletter(&store, newsletter_body());
    assert_eq!(status(&r), 200);
    assert_eq!(r.unwrap().len(), 0);
}

#[test]
fn newsletters_are_delivered_to_confirmed_subscribers() {
    let mut store = SubscriberStore::new();
    create_confirmed_subscriber(&mut store);
    let r = publish_newsletter(&store, newsletter_body());
    assert_eq!(status(&r), 200);
    let mails = r.unwrap();
    assert_eq!(mails.len(), 1);
    assert_eq!(mails[0].recipient, "ursula_le_guin@gmail.com");
    assert_eq!(mails[0].subject, "Newsletter title");
    assert_eq!(mails[0].text_body, "Newsletter body as plain text");
    assert_eq!(mails[0].html_body, "<p>Newsletter body as HTML</p>");
}

#[test]
fn newsletters_returns_400_for_invalid_data() {
    let s = |x: &str| Some(x.to_string());
    let cases: Vec<(RawNewsletter, InputError, &str)> = vec![
        (RawNewsletter { title: None, content: None }, InputError::Missing(Field::Title), "empty body"),
        (
            RawNewsletter {
                title: None,
                content: Some(RawContent {
                    text: s("Newsletter body as plain text"),
                    html: s("<p>Newsletter body as HTML</p>"),
                }),
            },
            InputError::Missing(Field::Title),
            "missing title",
        ),
        (RawNewsletter { title: s("Newsletter!"), content: None }, InputError::Missing(Field::Content), "missing content"),
        (
            RawNewsletter { title: s("Newsletter!"), content: Some(RawContent { text: None, html: None }) },
            InputError::Missing(Field::Text),
            "empty content",
        ),
        (
            RawNewsletter {
                title: s("Newsletter!"),
                content: Some(RawContent { text: None, html: s("<p>Newsletter body as HTML</p>") }),
            },
            InputError::Missing(Field::Text),
            "missing content's text",
        ),
        (
            RawNewsletter {
                title: s("Newsletter!"),
                content: Some(RawContent { text: s("Newsletter body as plain text"), html: None }),
            },
            InputError::Missing(Field::Html),
            "missing content's html",
        ),
    ];
    let mut store = SubscriberStore::new();
    create_confirmed_subscriber(&mut store);
    for (body, expected, message) in cases {
        let r = publish_newsletter(&store, body);
        assert_eq!(400, status(&r), "The API did not fail with 400 Bad Request when the payload was {}.", message);
        assert!(matches!(r, Err(ApiError::InvalidInput(e)) if e == expected));
    }
}

#[test]
fn newsletter_with_empty_fields_is_rejected() {
    let store = SubscriberStore::new();
    let mut body = newsletter_body();
    body.title = Some(String::new());
    assert!(matches!(publish_newsletter(&store, body), Err(ApiError::InvalidInput(InputError::Empty(Field::Title)))));
    let mut body = newsletter_body();
    body.content = Some(RawContent { text: Some("t".to_string()), html: Some(String::new()) });
    assert!(matches!(publish_newsletter(&store, body), Err(ApiError::InvalidInput(InputError::Empty(Field::Html)))));
}

#[test]
fn newsletter_with_no_subscribers_sends_nothing() {
    let store = SubscriberStore::new();
    let r = publish_newsletter(&store, newsletter_body());
    assert_eq!(status(&r), 200);
    assert!(r.unwrap().is_empty());
}

#[test]
fn newsletter_reaches_only_confirmed_among_several() {
    let mut store = SubscriberStore::new();
    create_confirmed_subscriber(&mut store);
    subscribe(
        &mut store,
        Some("octavia@example.org".to_string()),
        Some("Octavia".to_string()),
        "OtherTokenOtherTokenOther".to_string(),
        2,
        "http://localhost",
    )
    .unwrap();
    let mails = publish_newsletter(&store, newsletter_body()).unwrap();
    assert_eq!(mails.len(), 1);
    assert_eq!(mails[0].recipient, "ursula_le_guin@gmail.com");
}
