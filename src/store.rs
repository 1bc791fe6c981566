//! The subscriber store: subscriber records, their confirmation tokens, and
//! the rules on how both may change.
use vstd::prelude::*;

verus! {

#[derive(PartialEq, Eq, Structural, Clone, Copy, Debug)]
pub enum SubscriptionStatus {
    PendingConfirmation,
    Confirmed,
}

/// What an operation of the store can fail with.
#[derive(PartialEq, Eq, Structural, Clone, Copy, Debug)]
pub enum StoreError {
    /// The email address is already subscribed.
    DuplicateSubscriber,
    /// The store cannot take the record (identifiers exhausted, token malformed or taken).
    StorageFault,
    /// No subscriber has the identifier.
    NotFound,
    /// No subscriber was issued the token.
    InvalidToken,
}

pub struct Subscriber {
    pub id: u64,
    pub email: String,
    pub name: String,
    pub status: SubscriptionStatus,
    pub subscribed_at: u64,
}

pub ghost struct SubscriberView {
    pub id: u64,
    pub email: Seq<char>,
    pub name: Seq<char>,
    pub status: SubscriptionStatus,
    pub subscribed_at: u64,
}

impl View for Subscriber {
    type V = SubscriberView;

    open spec fn view(&self) -> SubscriberView {
        SubscriberView {
            id: self.id,
            email: self.email@,
            name: self.name@,
            status: self.status,
            subscribed_at: self.subscribed_at,
        }
    }
}

impl Subscriber {
    pub fn duplicate(&self) -> (r: Subscriber)
        ensures
            r@ == self@,
    {
        Subscriber {
            id: self.id,
            email: self.email.clone(),
            name: self.name.clone(),
            status: self.status,
            subscribed_at: self.subscribed_at,
        }
    }
}

/// A token and the subscriber it was issued to.
pub struct ConfirmationToken {
    pub token: String,
    pub subscriber_id: u64,
}

/// Tokens are at least this many characters long.
pub const TOKEN_MIN_LEN: usize = 25;

pub open spec fn is_alphanumeric(c: char) -> bool {
    ('a' <= c && c <= 'z') || ('A' <= c && c <= 'Z') || ('0' <= c && c <= '9')
}

/// The shape of an issued token: long enough, ASCII letters and digits only.
pub open spec fn well_formed_token(t: Seq<char>) -> bool {
    &&& t.len() >= TOKEN_MIN_LEN
    &&& forall|i: int| 0 <= i < t.len() ==> is_alphanumeric(#[trigger] t[i])
}

fn is_alphanumeric_char(c: char) -> (r: bool)
    ensures
        r == is_alphanumeric(c),
{
    ('a' <= c && c <= 'z') || ('A' <= c && c <= 'Z') || ('0' <= c && c <= '9')
}

pub fn is_well_formed_token(t: &str) -> (r: bool)
    ensures
        r == well_formed_token(t@),
{
    let n = t.unicode_len();
    if n < TOKEN_MIN_LEN {
        return false;
    }
    let mut i: usize = 0;
    while i < n
        invariant
            n == t@.len(),
            i <= n,
            forall|j: int| 0 <= j < i ==> is_alphanumeric(#[trigger] t@[j]),
        decreases n - i,
    {
        if !is_alphanumeric_char(t.get_char(i)) {
            return false;
        }
        i += 1;
    }
    true
}

/// The subscriber that the latest record for token `t` names, if any.
pub open spec fn token_owner(toks: Seq<(Seq<char>, u64)>, t: Seq<char>) -> Option<u64>
    decreases toks.len(),
{
    if toks.len() == 0 {
        None
    } else if toks.last().0 == t {
        Some(toks.last().1)
    } else {
        token_owner(toks.drop_last(), t)
    }
}

/// The record with identifier `id`, if any (the latest, should there be several).
pub open spec fn find_model(subs: Seq<SubscriberView>, id: u64) -> Option<SubscriberView>
    decreases subs.len(),
{
    if subs.len() == 0 {
        None
    } else if subs.last().id == id {
        Some(subs.last())
    } else {
        find_model(subs.drop_last(), id)
    }
}

pub open spec fn has_email(subs: Seq<SubscriberView>, e: Seq<char>) -> bool {
    exists|i: int| 0 <= i < subs.len() && (#[trigger] subs[i]).email == e
}

pub open spec fn confirm_one(s: SubscriberView, id: u64) -> SubscriberView {
    if s.id == id {
        SubscriberView { status: SubscriptionStatus::Confirmed, ..s }
    } else {
        s
    }
}

/// The records after the subscriber `id` is marked confirmed; the others are untouched.
pub open spec fn mark_confirmed_model(subs: Seq<SubscriberView>, id: u64) -> Seq<SubscriberView> {
    Seq::new(subs.len(), |i: int| confirm_one(subs[i], id))
}

/// The email addresses of the confirmed subscribers, in the order of the records.
pub open spec fn confirmed_emails(subs: Seq<SubscriberView>) -> Seq<Seq<char>>
    decreases subs.len(),
{
    if subs.len() == 0 {
        seq![]
    } else if subs.last().status == SubscriptionStatus::Confirmed {
        confirmed_emails(subs.drop_last()).push(subs.last().email)
    } else {
        confirmed_emails(subs.drop_last())
    }
}

/// Why `insert_pending` refuses a record, if it does.
pub open spec fn insert_error(
    subs: Seq<SubscriberView>,
    toks: Seq<(Seq<char>, u64)>,
    next_id: u64,
    email: Seq<char>,
    token: Seq<char>,
) -> Option<StoreError> {
    if has_email(subs, email) {
        Some(StoreError::DuplicateSubscriber)
    } else if next_id == u64::MAX || !well_formed_token(token) || token_owner(toks, token).is_some() {
        Some(StoreError::StorageFault)
    } else {
        None
    }
}

proof fn lemma_token_owner_absent(toks: Seq<(Seq<char>, u64)>, t: Seq<char>)
    requires
        forall|k: int| 0 <= k < toks.len() ==> (#[trigger] toks[k]).0 != t,
    ensures
        token_owner(toks, t).is_none(),
    decreases toks.len(),
{
    if toks.len() > 0 {
        let rest = toks.drop_last();
        assert forall|k: int| 0 <= k < rest.len() implies (#[trigger] rest[k]).0 != t by {
            assert(rest[k] == toks[k]);
        }
        lemma_token_owner_absent(rest, t);
    }
}

proof fn lemma_token_owner_at(toks: Seq<(Seq<char>, u64)>, t: Seq<char>, k: int)
    requires
        0 <= k < toks.len(),
        toks[k].0 == t,
        forall|i: int, j: int| 0 <= i < j < toks.len() ==> (#[trigger] toks[i]).0 != (#[trigger] toks[j]).0,
    ensures
        token_owner(toks, t) == Some(toks[k].1),
    decreases toks.len(),
{
    if k < toks.len() - 1 {
        let rest = toks.drop_last();
        assert(toks.last() == toks[toks.len() - 1]);
        assert(rest[k] == toks[k]);
        assert forall|i: int, j: int| 0 <= i < j < rest.len() implies (#[trigger] rest[i]).0 != (#[trigger] rest[j]).0 by {
            assert(rest[i] == toks[i] && rest[j] == toks[j]);
        }
        lemma_token_owner_at(rest, t, k);
    }
}

/// The latest record for a token decides whom it names.
pub proof fn lemma_token_owner_push(toks: Seq<(Seq<char>, u64)>, rec: (Seq<char>, u64), t: Seq<char>)
    ensures
        token_owner(toks.push(rec), t) == if rec.0 == t { Some(rec.1) } else { token_owner(toks, t) },
{
    assert(toks.push(rec).drop_last() =~= toks);
}

/// A record whose identifier is unique is what `find_model` returns for it.
pub proof fn lemma_find_model_at(subs: Seq<SubscriberView>, k: int)
    requires
        0 <= k < subs.len(),
        forall|i: int| 0 <= i < subs.len() && i != k ==> (#[trigger] subs[i]).id != subs[k].id,
    ensures
        find_model(subs, subs[k].id) == Some(subs[k]),
    decreases subs.len(),
{
    if k < subs.len() - 1 {
        let rest = subs.drop_last();
        assert(rest[k] == subs[k]);
        assert(subs.last() == subs[subs.len() - 1]);
        assert forall|i: int| 0 <= i < rest.len() && i != k implies (#[trigger] rest[i]).id != rest[k].id by {
            assert(rest[i] == subs[i]);
        }
        lemma_find_model_at(rest, k);
    }
}

proof fn lemma_find_model_absent(subs: Seq<SubscriberView>, id: u64)
    requires
        forall|i: int| 0 <= i < subs.len() ==> (#[trigger] subs[i]).id != id,
    ensures
        find_model(subs, id).is_none(),
    decreases subs.len(),
{
    if subs.len() > 0 {
        let rest = subs.drop_last();
        assert forall|i: int| 0 <= i < rest.len() implies (#[trigger] rest[i]).id != id by {
            assert(rest[i] == subs[i]);
        }
        lemma_find_model_absent(rest, id);
    }
}

/// Identifiers and emails are unique, identifiers lie below `next_id`, every
/// token names a subscriber, tokens are unique and well formed, and every
/// subscriber holds a token.
pub open spec fn model_wf(subs: Seq<SubscriberView>, toks: Seq<(Seq<char>, u64)>, next_id: u64) -> bool {
    &&& forall|i: int, j: int|
        0 <= i < j < subs.len() ==> (#[trigger] subs[i]).id != (#[trigger] subs[j]).id
            && subs[i].email != subs[j].email
    &&& forall|i: int| 0 <= i < subs.len() ==> (#[trigger] subs[i]).id < next_id
    &&& forall|i: int, j: int|
        0 <= i < j < toks.len() ==> (#[trigger] toks[i]).0 != (#[trigger] toks[j]).0
    &&& forall|k: int|
        0 <= k < toks.len() ==> well_formed_token((#[trigger] toks[k]).0) && exists|i: int|
            0 <= i < subs.len() && (#[trigger] subs[i]).id == toks[k].1
    &&& forall|i: int|
        0 <= i < subs.len() ==> exists|k: int|
            0 <= k < toks.len() && (#[trigger] toks[k]).1 == (#[trigger] subs[i]).id
}

/// Changing what records hold, but not their identifiers or emails, keeps the invariant.
proof fn lemma_wf_same_keys(
    subs: Seq<SubscriberView>,
    subs2: Seq<SubscriberView>,
    toks: Seq<(Seq<char>, u64)>,
    next_id: u64,
)
    requires
        model_wf(subs, toks, next_id),
        subs2.len() == subs.len(),
        forall|i: int| 0 <= i < subs.len() ==> (#[trigger] subs2[i]).id == subs[i].id && subs2[i].email == subs[i].email,
    ensures
        model_wf(subs2, toks, next_id),
{
    assert forall|i: int, j: int| 0 <= i < j < subs2.len() implies (#[trigger] subs2[i]).id != (#[trigger] subs2[j]).id
        && subs2[i].email != subs2[j].email by {
        assert(subs[i].id != subs[j].id);
    }
    assert forall|i: int| 0 <= i < subs2.len() implies (#[trigger] subs2[i]).id < next_id by {
        assert(subs[i].id < next_id);
    }
    assert forall|k: int| 0 <= k < toks.len() implies well_formed_token((#[trigger] toks[k]).0) && exists|i: int|
        0 <= i < subs2.len() && (#[trigger] subs2[i]).id == toks[k].1 by {
        let i = choose|i: int| 0 <= i < subs.len() && (#[trigger] subs[i]).id == toks[k].1;
        assert(subs2[i].id == subs[i].id);
    }
    assert forall|i: int| 0 <= i < subs2.len() implies exists|k: int|
        0 <= k < toks.len() && (#[trigger] toks[k]).1 == (#[trigger] subs2[i]).id by {
        assert(subs2[i].id == subs[i].id);
    }
}

pub struct SubscriberStore {
    subscribers: Vec<Subscriber>,
    tokens: Vec<ConfirmationToken>,
    next_id: u64,
}

impl SubscriberStore {
    pub closed spec fn subs(&self) -> Seq<SubscriberView> {
        self.subscribers@.map_values(|s: Subscriber| s@)
    }

    pub closed spec fn toks(&self) -> Seq<(Seq<char>, u64)> {
        self.tokens@.map_values(|t: ConfirmationToken| (t.token@, t.subscriber_id))
    }

    /// Identifiers not yet handed out are all at least this.
    pub closed spec fn next_id(&self) -> u64 {
        self.next_id
    }

    pub open spec fn wf(&self) -> bool {
        model_wf(self.subs(), self.toks(), self.next_id())
    }

    pub fn new() -> (r: SubscriberStore)
        ensures
            r.wf(),
            r.next_id() == 0,
            r.subs() == Seq::<SubscriberView>::empty(),
            r.toks() == Seq::<(Seq<char>, u64)>::empty(),
    {
        let r = SubscriberStore { subscribers: Vec::new(), tokens: Vec::new(), next_id: 0 };
        assert(r.subs() =~= Seq::<SubscriberView>::empty());
        assert(r.toks() =~= Seq::<(Seq<char>, u64)>::empty());
        r
    }

    pub fn subscriber_count(&self) -> (r: usize)
        ensures
            r == self.subs().len(),
    {
        self.subscribers.len()
    }

    fn token_index(&self, token: &String) -> (r: Option<usize>)
        requires
            self.wf(),
        ensures
            match r {
                Some(k) => k < self.toks().len() && self.toks()[k as int].0 == token@
                    && token_owner(self.toks(), token@) == Some(self.toks()[k as int].1),
                None => token_owner(self.toks(), token@).is_none()
                    && forall|k: int| 0 <= k < self.toks().len() ==> (#[trigger] self.toks()[k]).0 != token@,
            },
    {
        let mut i: usize = 0;
        while i < self.tokens.len()
            invariant
                self.wf(),
                i <= self.tokens.len(),
                forall|j: int| 0 <= j < i ==> (#[trigger] self.toks()[j]).0 != token@,
            decreases self.tokens.len() - i,
        {
            if self.tokens[i].token == *token {
                proof {
                    lemma_token_owner_at(self.toks(), token@, i as int);
                }
                return Some(i);
            }
            i += 1;
        }
        proof {
            lemma_token_owner_absent(self.toks(), token@);
        }
        None
    }

    /// The subscriber that `token` was issued to.
    pub fn resolve(&self, token: &String) -> (r: Result<u64, StoreError>)
        requires
            self.wf(),
        ensures
            match token_owner(self.toks(), token@) {
                Some(id) => r == Ok::<u64, StoreError>(id) && find_model(self.subs(), id).is_some(),
                None => r == Err::<u64, StoreError>(StoreError::InvalidToken),
            },
    {
        match self.token_index(token) {
            Some(k) => {
                proof {
                    let subs = self.subs();
                    let toks = self.toks();
                    let i = choose|i: int| 0 <= i < subs.len() && (#[trigger] subs[i]).id == toks[k as int].1;
                    assert forall|j: int| 0 <= j < subs.len() && j != i implies (#[trigger] subs[j]).id != subs[i].id by {
                        if j < i {
                            assert(subs[j].id != subs[i].id);
                        } else {
                            assert(subs[i].id != subs[j].id);
                        }
                    }
                    lemma_find_model_at(subs, i);
                }
                Ok(self.tokens[k].subscriber_id)
            },
            None => Err(StoreError::InvalidToken),
        }
    }

    fn subscriber_index(&self, id: u64) -> (r: Option<usize>)
        requires
            self.wf(),
        ensures
            match r {
                Some(k) => k < self.subs().len() && self.subs()[k as int].id == id
                    && find_model(self.subs(), id) == Some(self.subs()[k as int]),
                None => find_model(self.subs(), id).is_none()
                    && forall|i: int| 0 <= i < self.subs().len() ==> (#[trigger] self.subs()[i]).id != id,
            },
    {
        let mut i: usize = 0;
        while i < self.subscribers.len()
            invariant
                self.wf(),
                i <= self.subscribers.len(),
                forall|j: int| 0 <= j < i ==> (#[trigger] self.subs()[j]).id != id,
            decreases self.subscribers.len() - i,
        {
            if self.subscribers[i].id == id {
                proof {
                    let subs = self.subs();
                    assert forall|j: int| 0 <= j < subs.len() && j != i implies (#[trigger] subs[j]).id != subs[i as int].id by {
                        if j < i {
                        } else {
                            assert(subs[i as int].id != subs[j].id);
                        }
                    }
                    lemma_find_model_at(subs, i as int);
                }
                return Some(i);
            }
            i += 1;
        }
        proof {
            lemma_find_model_absent(self.subs(), id);
        }
        None
    }

    pub fn find_by_subscriber_id(&self, id: u64) -> (r: Option<Subscriber>)
        requires
            self.wf(),
        ensures
            match r {
                Some(s) => find_model(self.subs(), id) == Some(s@),
                None => find_model(self.subs(), id).is_none(),
            },
    {
        match self.subscriber_index(id) {
            Some(k) => Some(self.subscribers[k].duplicate()),
            None => None,
        }
    }

    /// Creates a pending subscriber and the token issued to it, both or neither.
    pub fn insert_pending(&mut self, email: String, name: String, token: String, now: u64) -> (r: Result<u64, StoreError>)
        requires
            old(self).wf(),
        ensures
            final(self).wf(),
            r.is_err() <==> insert_error(old(self).subs(), old(self).toks(), old(self).next_id(), email@, token@).is_some(),
            match r {
                Err(e) => insert_error(old(self).subs(), old(self).toks(), old(self).next_id(), email@, token@) == Some(e)
                    && *final(self) == *old(self),
                Ok(id) => final(self).subs() == old(self).subs().push(
                    SubscriberView {
                        id,
                        email: email@,
                        name: name@,
                        status: SubscriptionStatus::PendingConfirmation,
                        subscribed_at: now,
                    },
                ) && final(self).toks() == old(self).toks().push((token@, id))
                    && id == old(self).next_id() && final(self).next_id() == id + 1
                    && forall|i: int| 0 <= i < old(self).subs().len() ==> (#[trigger] old(self).subs()[i]).id != id,
            },
    {
        if self.contains_email(&email) {
            return Err(StoreError::DuplicateSubscriber);
        }
        if self.next_id == u64::MAX || !is_well_formed_token(token.as_str()) {
            return Err(StoreError::StorageFault);
        }
        if self.token_index(&token).is_some() {
            return Err(StoreError::StorageFault);
        }
        let ghost old_subs = self.subs();
        let ghost old_toks = self.toks();
        let id = self.next_id;
        let ghost v = SubscriberView {
            id,
            email: email@,
            name: name@,
            status: SubscriptionStatus::PendingConfirmation,
            subscribed_at: now,
        };
        let ghost tv = (token@, id);
        self.subscribers.push(
            Subscriber { id, email, name, status: SubscriptionStatus::PendingConfirmation, subscribed_at: now },
        );
        self.tokens.push(ConfirmationToken { token, subscriber_id: id });
        self.next_id = id + 1;
        proof {
            assert(self.subs() =~= old_subs.push(v));
            assert(self.toks() =~= old_toks.push(tv));
            let subs = self.subs();
            let toks = self.toks();
            assert(subs[old_subs.len() as int] == v);
            assert(toks[old_toks.len() as int] == tv);
            assert forall|i: int, j: int| 0 <= i < j < subs.len() implies (#[trigger] subs[i]).id != (#[trigger] subs[j]).id
                && subs[i].email != subs[j].email by {
                assert(subs[i] == old_subs[i]);
                if j < old_subs.len() {
                    assert(subs[j] == old_subs[j]);
                } else {
                    assert(old_subs[i].id < id);
                    if old_subs[i].email == email@ {
                        assert(has_email(old_subs, email@));
                    }
                }
            }
            assert forall|i: int, j: int| 0 <= i < j < toks.len() implies (#[trigger] toks[i]).0 != (#[trigger] toks[j]).0 by {
                assert(toks[i] == old_toks[i]);
                if j < old_toks.len() {
                    assert(toks[j] == old_toks[j]);
                }
            }
            assert forall|k: int| 0 <= k < toks.len() implies well_formed_token((#[trigger] toks[k]).0) && exists|i: int|
                0 <= i < subs.len() && (#[trigger] subs[i]).id == toks[k].1 by {
                if k < old_toks.len() {
                    assert(toks[k] == old_toks[k]);
                    let i = choose|i: int| 0 <= i < old_subs.len() && (#[trigger] old_subs[i]).id == old_toks[k].1;
                    assert(subs[i] == old_subs[i]);
                } else {
                    assert(subs[old_subs.len() as int].id == toks[k].1);
                }
            }
            assert forall|i: int| 0 <= i < subs.len() implies exists|k: int|
                0 <= k < toks.len() && (#[trigger] toks[k]).1 == (#[trigger] subs[i]).id by {
                if i < old_subs.len() {
                    assert(subs[i] == old_subs[i]);
                    let k = choose|k: int| 0 <= k < old_toks.len() && (#[trigger] old_toks[k]).1 == old_subs[i].id;
                    assert(toks[k] == old_toks[k]);
                } else {
                    assert(toks[old_toks.len() as int].1 == subs[i].id);
                }
            }
        }
        Ok(id)
    }

    /// Marks the subscriber `id` confirmed; a subscriber already confirmed stays so.
    pub fn mark_confirmed(&mut self, id: u64) -> (r: Result<(), StoreError>)
        requires
            old(self).wf(),
        ensures
            final(self).wf(),
            final(self).toks() == old(self).toks(),
            final(self).next_id() == old(self).next_id(),
            match find_model(old(self).subs(), id) {
                Some(_) => r is Ok && final(self).subs() == mark_confirmed_model(old(self).subs(), id),
                None => r == Err::<(), StoreError>(StoreError::NotFound) && *final(self) == *old(self),
            },
    {
        let k = match self.subscriber_index(id) {
            Some(k) => k,
            None => return Err(StoreError::NotFound),
        };
        let ghost old_subs = self.subs();
        let ghost old_toks = self.toks();
        let mut s = self.subscribers[k].duplicate();
        s.status = SubscriptionStatus::Confirmed;
        self.subscribers.set(k, s);
        proof {
            let subs = self.subs();
            assert(self.toks() =~= old_toks);
            assert forall|i: int| 0 <= i < subs.len() implies #[trigger] subs[i] == confirm_one(old_subs[i], id) by {
                if i != k {
                    assert(old_subs[i].id != old_subs[k as int].id);
                }
            }
            assert(subs =~= mark_confirmed_model(old_subs, id));
            lemma_wf_same_keys(old_subs, subs, old_toks, self.next_id());
        }
        Ok(())
    }

    /// A snapshot of the addresses of the confirmed subscribers.
    pub fn list_confirmed_emails(&self) -> (r: Vec<String>)
        ensures
            r@.map_values(|e: String| e@) == confirmed_emails(self.subs()),
    {
        let mut out: Vec<String> = Vec::new();
        let mut i: usize = 0;
        while i < self.subscribers.len()
            invariant
                i <= self.subscribers.len(),
                out@.map_values(|e: String| e@) == confirmed_emails(self.subs().take(i as int)),
            decreases self.subscribers.len() - i,
        {
            let ghost prev = out@;
            proof {
                assert(self.subs().take(i + 1).drop_last() =~= self.subs().take(i as int));
            }
            if self.subscribers[i].status == SubscriptionStatus::Confirmed {
                out.push(self.subscribers[i].email.clone());
                assert(out@.map_values(|e: String| e@) =~= prev.map_values(|e: String| e@).push(self.subs()[i as int].email));
            }
            i += 1;
        }
        assert(self.subs().take(i as int) =~= self.subs());
        out
    }

    fn contains_email(&self, email: &String) -> (r: bool)
        ensures
            r == has_email(self.subs(), email@),
    {
        let mut i: usize = 0;
        while i < self.subscribers.len()
            invariant
                i <= self.subscribers.len(),
                forall|j: int| 0 <= j < i ==> (#[trigger] self.subs()[j]).email != email@,
            decreases self.subscribers.len() - i,
        {
            if self.subscribers[i].email == *email {
                assert(self.subs()[i as int].email == email@);
                return true;
            }
            i += 1;
        }
        false
    }
}

} // verus!
