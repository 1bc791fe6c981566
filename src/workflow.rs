//! The three entry points: subscribe, confirm, and publish a newsletter.
//! Each takes the store and plain values and decides the outcome; sending
//! email is left to the caller, which receives the messages to send.
use vstd::prelude::*;
use vstd::string::StringExecFns;
use crate::domain::{
    InputError, RawNewsletter, opt_view, parse_newsletter, parse_subscription,
    spec_newsletter_error, spec_subscription_error,
};
use crate::store::{
    StoreError, SubscriberStore, SubscriberView, SubscriptionStatus, confirmed_emails,
    insert_error, mark_confirmed_model, token_owner,
};

verus! {

/// How a request fails.
#[derive(PartialEq, Eq, Structural, Clone, Copy, Debug)]
pub enum ApiError {
    InvalidInput(InputError),
    InvalidToken,
    DuplicateSubscriber,
    StorageFault,
    DeliveryFault,
}

pub open spec fn spec_status(e: ApiError) -> u16 {
    match e {
        ApiError::InvalidInput(_) | ApiError::InvalidToken | ApiError::DuplicateSubscriber => 400,
        ApiError::StorageFault | ApiError::DeliveryFault => 500,
    }
}

impl ApiError {
    /// The HTTP status that the failure is answered with.
    pub fn status(&self) -> (r: u16)
        ensures
            r == spec_status(*self),
    {
        match self {
            ApiError::InvalidInput(_) | ApiError::InvalidToken | ApiError::DuplicateSubscriber => 400,
            ApiError::StorageFault | ApiError::DeliveryFault => 500,
        }
    }
}

pub open spec fn spec_from_store(e: StoreError) -> ApiError {
    match e {
        StoreError::DuplicateSubscriber => ApiError::DuplicateSubscriber,
        StoreError::InvalidToken | StoreError::NotFound => ApiError::InvalidToken,
        StoreError::StorageFault => ApiError::StorageFault,
    }
}

fn from_store(e: StoreError) -> (r: ApiError)
    ensures
        r == spec_from_store(e),
{
    match e {
        StoreError::DuplicateSubscriber => ApiError::DuplicateSubscriber,
        StoreError::InvalidToken | StoreError::NotFound => ApiError::InvalidToken,
        StoreError::StorageFault => ApiError::StorageFault,
    }
}

/// A message for the email sender.
pub struct OutgoingEmail {
    pub recipient: String,
    pub subject: String,
    pub html_body: String,
    pub text_body: String,
}

pub open spec fn confirmation_link(base_url: Seq<char>, token: Seq<char>) -> Seq<char> {
    base_url + "/subscriptions/confirm?subscription_token="@ + token
}

pub open spec fn confirmation_text(link: Seq<char>) -> Seq<char> {
    "Welcome to our newsletter!\nVisit "@ + link + " to confirm your subscription."@
}

pub open spec fn confirmation_html(link: Seq<char>) -> Seq<char> {
    "Welcome to our newsletter!<br />Click <a href=\""@ + link + "\">here</a> to confirm your subscription."@
}

/// `needle` occurs in `hay` as a contiguous run.
pub open spec fn contains_run(hay: Seq<char>, needle: Seq<char>) -> bool {
    exists|i: int| 0 <= i && i + needle.len() <= hay.len() && #[trigger] hay.subrange(i, i + needle.len()) == needle
}

pub open spec fn new_pending(email: Seq<char>, name: Seq<char>, id: u64, now: u64) -> SubscriberView {
    SubscriberView {
        id,
        email,
        name,
        status: SubscriptionStatus::PendingConfirmation,
        subscribed_at: now,
    }
}

pub fn build_confirmation_email(recipient: String, base_url: &str, token: &str) -> (r: OutgoingEmail)
    ensures
        r.recipient@ == recipient@,
        r.subject@ == "Welcome!"@,
        r.text_body@ == confirmation_text(confirmation_link(base_url@, token@)),
        r.html_body@ == confirmation_html(confirmation_link(base_url@, token@)),
{
    let mut link = String::from_str(base_url);
    link.append("/subscriptions/confirm?subscription_token=");
    link.append(token);
    let mut text = String::from_str("Welcome to our newsletter!\nVisit ");
    text.append(link.as_str());
    text.append(" to confirm your subscription.");
    let mut html = String::from_str("Welcome to our newsletter!<br />Click <a href=\"");
    html.append(link.as_str());
    html.append("\">here</a> to confirm your subscription.");
    OutgoingEmail { recipient, subject: String::from_str("Welcome!"), html_body: html, text_body: text }
}

/// Validates the form, stores a pending subscriber together with `token`, and
/// returns the confirmation email to send. On failure nothing is stored.
pub fn subscribe(
    store: &mut SubscriberStore,
    email: Option<String>,
    name: Option<String>,
    token: String,
    now: u64,
    base_url: &str,
) -> (r: Result<OutgoingEmail, ApiError>)
    requires
        old(store).wf(),
    ensures
        final(store).wf(),
        match spec_subscription_error(opt_view(email), opt_view(name)) {
            Some(e) => r == Err::<OutgoingEmail, ApiError>(ApiError::InvalidInput(e)) && *final(store) == *old(store),
            None => match insert_error(old(store).subs(), old(store).toks(), old(store).next_id(), email.unwrap()@, token@) {
                Some(se) => r == Err::<OutgoingEmail, ApiError>(spec_from_store(se)) && *final(store) == *old(store),
                None => r is Ok && {
                    let mail = r->Ok_0;
                    let id = old(store).next_id();
                    &&& final(store).subs() == old(store).subs().push(new_pending(email.unwrap()@, name.unwrap()@, id, now))
                    &&& final(store).toks() == old(store).toks().push((token@, id))
                    &&& forall|i: int| 0 <= i < old(store).subs().len() ==> (#[trigger] old(store).subs()[i]).id != id
                    &&& mail.recipient@ == email.unwrap()@
                    &&& mail.subject@ == "Welcome!"@
                    &&& mail.text_body@ == confirmation_text(confirmation_link(base_url@, token@))
                    &&& mail.html_body@ == confirmation_html(confirmation_link(base_url@, token@))
                },
            },
        },
{
    let new = match parse_subscription(email, name) {
        Ok(n) => n,
        Err(e) => return Err(ApiError::InvalidInput(e)),
    };
    let recipient = new.email.clone();
    match store.insert_pending(new.email, new.name, token.clone(), now) {
        Err(e) => Err(from_store(e)),
        Ok(_) => Ok(build_confirmation_email(recipient, base_url, token.as_str())),
    }
}

/// What a subscription comes to once the confirmation email was handed to the sender.
pub fn confirmation_delivery(delivered: bool) -> (r: Result<(), ApiError>)
    ensures
        r == if delivered {
            Ok::<(), ApiError>(())
        } else {
            Err::<(), ApiError>(ApiError::DeliveryFault)
        },
{
    if delivered {
        Ok(())
    } else {
        Err(ApiError::DeliveryFault)
    }
}

/// Confirms the subscriber that `token` was issued to. A missing or unknown
/// token is refused and changes nothing.
pub fn confirm(store: &mut SubscriberStore, token: Option<String>) -> (r: Result<(), ApiError>)
    requires
        old(store).wf(),
    ensures
        final(store).wf(),
        final(store).toks() == old(store).toks(),
        final(store).next_id() == old(store).next_id(),
        match token {
            None => r == Err::<(), ApiError>(ApiError::InvalidToken) && *final(store) == *old(store),
            Some(t) => match token_owner(old(store).toks(), t@) {
                None => r == Err::<(), ApiError>(ApiError::InvalidToken) && *final(store) == *old(store),
                Some(id) => r is Ok && final(store).subs() == mark_confirmed_model(old(store).subs(), id),
            },
        },
{
    let token = match token {
        None => return Err(ApiError::InvalidToken),
        Some(t) => t,
    };
    let id = match store.resolve(&token) {
        Ok(id) => id,
        Err(e) => return Err(from_store(e)),
    };
    match store.mark_confirmed(id) {
        Ok(()) => Ok(()),
        Err(e) => Err(from_store(e)),
    }
}

/// Validates a newsletter and returns one message per confirmed subscriber,
/// in the order of the store's records.
pub fn publish_newsletter(store: &SubscriberStore, raw: RawNewsletter) -> (r: Result<Vec<OutgoingEmail>, ApiError>)
    ensures
        match spec_newsletter_error(raw) {
            Some(e) => r == Err::<Vec<OutgoingEmail>, ApiError>(ApiError::InvalidInput(e)),
            None => r is Ok && {
                let mails = r->Ok_0@;
                let to = confirmed_emails(store.subs());
                &&& mails.len() == to.len()
                &&& forall|i: int| 0 <= i < mails.len() ==> {
                    &&& (#[trigger] mails[i]).recipient@ == to[i]
                    &&& mails[i].subject@ == raw.title.unwrap()@
                    &&& mails[i].text_body@ == raw.content.unwrap().text.unwrap()@
                    &&& mails[i].html_body@ == raw.content.unwrap().html.unwrap()@
                }
            },
        },
{
    let issue = match parse_newsletter(raw) {
        Ok(n) => n,
        Err(e) => return Err(ApiError::InvalidInput(e)),
    };
    let to = store.list_confirmed_emails();
    let ghost tv = to@.map_values(|e: String| e@);
    let mut mails: Vec<OutgoingEmail> = Vec::new();
    let mut i: usize = 0;
    while i < to.len()
        invariant
            i <= to.len(),
            tv == to@.map_values(|e: String| e@),
            mails@.len() == i,
            forall|j: int| 0 <= j < i ==> {
                &&& (#[trigger] mails@[j]).recipient@ == tv[j]
                &&& mails@[j].subject@ == issue.title@
                &&& mails@[j].text_body@ == issue.text@
                &&& mails@[j].html_body@ == issue.html@
            },
        decreases to.len() - i,
    {
        mails.push(
            OutgoingEmail {
                recipient: to[i].clone(),
                subject: issue.title.clone(),
                html_body: issue.html.clone(),
                text_body: issue.text.clone(),
            },
        );
        i += 1;
    }
    Ok(mails)
}

} // verus!
