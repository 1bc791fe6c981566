//! Facts that span several operations of the store and the workflows.
use vstd::prelude::*;
use crate::store::{
    SubscriberView, SubscriptionStatus, confirm_one, confirmed_emails, find_model,
    lemma_find_model_at, lemma_token_owner_push, mark_confirmed_model, token_owner,
};
use crate::workflow::{
    confirmation_html, confirmation_link, confirmation_text, contains_run, new_pending,
};

verus! {

/// Reading the store right after a subscription finds the new subscriber,
/// pending, with the submitted email and name, and a creation time no earlier
/// than the moment the request started.
pub proof fn lemma_subscribe_then_read(
    subs: Seq<SubscriberView>,
    email: Seq<char>,
    name: Seq<char>,
    id: u64,
    start: u64,
    now: u64,
)
    requires
        forall|i: int| 0 <= i < subs.len() ==> (#[trigger] subs[i]).id != id,
        start <= now,
    ensures
        ({
            let found = find_model(subs.push(new_pending(email, name, id, now)), id);
            &&& found is Some
            &&& found->Some_0.status == SubscriptionStatus::PendingConfirmation
            &&& found->Some_0.email == email
            &&& found->Some_0.name == name
            &&& found->Some_0.subscribed_at >= start
        }),
{
    let s = subs.push(new_pending(email, name, id, now));
    assert(s.last() == new_pending(email, name, id, now));
}

/// The plain-text and the HTML body of a confirmation email both hold the
/// same confirmation link.
pub proof fn lemma_confirmation_link_in_both_bodies(base_url: Seq<char>, token: Seq<char>)
    ensures
        contains_run(confirmation_text(confirmation_link(base_url, token)), confirmation_link(base_url, token)),
        contains_run(confirmation_html(confirmation_link(base_url, token)), confirmation_link(base_url, token)),
{
    let link = confirmation_link(base_url, token);
    let tp = "Welcome to our newsletter!\nVisit "@;
    let hp = "Welcome to our newsletter!<br />Click <a href=\""@;
    let t = confirmation_text(link);
    let h = confirmation_html(link);
    assert(t.subrange(tp.len() as int, (tp.len() + link.len()) as int) =~= link);
    assert(h.subrange(hp.len() as int, (hp.len() + link.len()) as int) =~= link);
}

/// Confirming subscriber `id` makes its record confirmed and keeps the rest
/// of that record and every other record as they were.
pub proof fn lemma_confirm_sets_confirmed(subs: Seq<SubscriberView>, id: u64)
    ensures
        mark_confirmed_model(subs, id).len() == subs.len(),
        forall|k: int| 0 <= k < subs.len() ==> {
            let after = #[trigger] mark_confirmed_model(subs, id)[k];
            if subs[k].id == id {
                after == SubscriberView { status: SubscriptionStatus::Confirmed, ..subs[k] }
            } else {
                after == subs[k]
            }
        },
{
}

/// Confirming the same subscriber twice leaves the store as confirming once.
pub proof fn lemma_confirm_idempotent(subs: Seq<SubscriberView>, id: u64)
    ensures
        mark_confirmed_model(mark_confirmed_model(subs, id), id) == mark_confirmed_model(subs, id),
{
    let once = mark_confirmed_model(subs, id);
    let twice = mark_confirmed_model(once, id);
    assert forall|k: int| 0 <= k < subs.len() implies #[trigger] twice[k] == once[k] by {
        assert(confirm_one(confirm_one(subs[k], id), id) == confirm_one(subs[k], id));
    }
    assert(twice =~= once);
}

/// The token issued by a subscription resolves to the new subscriber, and
/// confirming through it turns that subscriber, and only its status, to confirmed.
pub proof fn lemma_confirm_after_subscribe(
    subs: Seq<SubscriberView>,
    toks: Seq<(Seq<char>, u64)>,
    email: Seq<char>,
    name: Seq<char>,
    token: Seq<char>,
    id: u64,
    now: u64,
)
    requires
        forall|i: int| 0 <= i < subs.len() ==> (#[trigger] subs[i]).id != id,
    ensures
        token_owner(toks.push((token, id)), token) == Some(id),
        find_model(mark_confirmed_model(subs.push(new_pending(email, name, id, now)), id), id) == Some(
            SubscriberView { status: SubscriptionStatus::Confirmed, ..new_pending(email, name, id, now) },
        ),
{
    lemma_token_owner_push(toks, (token, id), token);
    let after = mark_confirmed_model(subs.push(new_pending(email, name, id, now)), id);
    let k = subs.len() as int;
    assert forall|i: int| 0 <= i < after.len() && i != k implies (#[trigger] after[i]).id != after[k].id by {
        assert(after[i] == confirm_one(subs[i], id));
    }
    lemma_find_model_at(after, k);
}

/// With no confirmed subscriber, a newsletter goes to nobody.
pub proof fn lemma_no_confirmed_no_recipients(subs: Seq<SubscriberView>)
    requires
        forall|i: int| 0 <= i < subs.len() ==> (#[trigger] subs[i]).status != SubscriptionStatus::Confirmed,
    ensures
        confirmed_emails(subs).len() == 0,
    decreases subs.len(),
{
    if subs.len() > 0 {
        let rest = subs.drop_last();
        assert(subs.last() == subs[subs.len() - 1]);
        assert forall|i: int| 0 <= i < rest.len() implies (#[trigger] rest[i]).status != SubscriptionStatus::Confirmed by {
            assert(rest[i] == subs[i]);
        }
        lemma_no_confirmed_no_recipients(rest);
    }
}

/// With exactly one confirmed subscriber, a newsletter goes to that address alone.
pub proof fn lemma_single_confirmed_recipient(subs: Seq<SubscriberView>, k: int)
    requires
        0 <= k < subs.len(),
        subs[k].status == SubscriptionStatus::Confirmed,
        forall|i: int| 0 <= i < subs.len() && i != k ==> (#[trigger] subs[i]).status != SubscriptionStatus::Confirmed,
    ensures
        confirmed_emails(subs) == seq![subs[k].email],
    decreases subs.len(),
{
    let rest = subs.drop_last();
    assert(subs.last() == subs[subs.len() - 1]);
    if k == subs.len() - 1 {
        assert forall|i: int| 0 <= i < rest.len() implies (#[trigger] rest[i]).status != SubscriptionStatus::Confirmed by {
            assert(rest[i] == subs[i]);
        }
        lemma_no_confirmed_no_recipients(rest);
        assert(confirmed_emails(subs) =~= seq![subs[k].email]);
    } else {
        assert(rest[k] == subs[k]);
        assert forall|i: int| 0 <= i < rest.len() && i != k implies (#[trigger] rest[i]).status != SubscriptionStatus::Confirmed by {
            assert(rest[i] == subs[i]);
        }
        lemma_single_confirmed_recipient(rest, k);
    }
}

/// Every recipient of a newsletter is the address of a confirmed subscriber.
pub proof fn lemma_recipients_are_confirmed(subs: Seq<SubscriberView>, j: int)
    requires
        0 <= j < confirmed_emails(subs).len(),
    ensures
        exists|i: int|
            0 <= i < subs.len() && (#[trigger] subs[i]).status == SubscriptionStatus::Confirmed
                && subs[i].email == confirmed_emails(subs)[j],
    decreases subs.len(),
{
    let rest = subs.drop_last();
    let last = subs.len() - 1;
    assert(subs.last() == subs[last]);
    if subs[last].status == SubscriptionStatus::Confirmed && j == confirmed_emails(rest).len() {
        assert(subs[last].email == confirmed_emails(subs)[j]);
    } else {
        assert(confirmed_emails(subs)[j] == confirmed_emails(rest)[j]);
        lemma_recipients_are_confirmed(rest, j);
        let i = choose|i: int|
            0 <= i < rest.len() && (#[trigger] rest[i]).status == SubscriptionStatus::Confirmed
                && rest[i].email == confirmed_emails(rest)[j];
        assert(subs[i] == rest[i]);
    }
}

/// Where emails are unique, a subscriber who has not confirmed receives no newsletter.
pub proof fn lemma_unconfirmed_not_a_recipient(subs: Seq<SubscriberView>, k: int)
    requires
        0 <= k < subs.len(),
        subs[k].status != SubscriptionStatus::Confirmed,
        forall|i: int, j: int| 0 <= i < subs.len() && 0 <= j < subs.len() && i != j ==> (#[trigger] subs[i]).email != (#[trigger] subs[j]).email,
    ensures
        !confirmed_emails(subs).contains(subs[k].email),
{
    if confirmed_emails(subs).contains(subs[k].email) {
        let j = choose|j: int| 0 <= j < confirmed_emails(subs).len() && confirmed_emails(subs)[j] == subs[k].email;
        lemma_recipients_are_confirmed(subs, j);
        let i = choose|i: int|
            0 <= i < subs.len() && (#[trigger] subs[i]).status == SubscriptionStatus::Confirmed
                && subs[i].email == confirmed_emails(subs)[j];
        assert(subs[i].email == subs[k].email);
    }
}

} // verus!
