//! The manager of the accounts in which clients are charged for what they
//! store.

use crate::error::{ClientError, InternalError};
use crate::name_map::{as_map, count_of_names, distinct, key_at, place, NameMap};
use crate::personas::account::{Account, Quota, DEFAULT_ACCOUNT_SIZE, DEFAULT_PAYMENT};
use crate::personas::request::{Action, DataKind, PutRequest, PutRequestView, ACCOUNT_TAG};
use crate::personas::request_cache::{
    cache_holds, cache_insert, cache_lifetime, cache_limit, cache_remove, cache_with_limits,
    cached_requests, within_limit, MAX_TIME_TO_LIVE,
};
use crate::types::{MessageId, XorName};
use crate::utils::{client_name, digest, sha512_digest};
use lru_time_cache::LruCache;
use vstd::prelude::*;

verus! {

/// How long a request waits for its answer, in milliseconds: five minutes.
pub const REQUEST_TIME_TO_LIVE: i64 = 300_000;

/// How many requests may wait at once.
pub const REQUEST_CAPACITY: usize = 1000;

/// The name of the account that a request is charged to.
pub open spec fn client_of(request: PutRequestView) -> Seq<u8> {
    sha512_digest(request.client_key)
}

/// What a new account holds.
pub open spec fn fresh_quota() -> Quota {
    Quota { data_stored: 0, space_available: DEFAULT_ACCOUNT_SIZE as nat }
}

/// Whether a request asks for an account to be created.
pub open spec fn creates_account(request: PutRequestView) -> bool {
    request.kind == (DataKind::Structured { type_tag: ACCOUNT_TAG })
}

/// The accounts once the request's own account has been created, where the
/// request asks for that and the client has none.
pub open spec fn admitted(accounts: Map<Seq<u8>, Quota>, request: PutRequestView) -> Map<
    Seq<u8>,
    Quota,
> {
    if creates_account(request) && !accounts.dom().contains(client_of(request)) {
        accounts.insert(client_of(request), fresh_quota())
    } else {
        accounts
    }
}

/// Why a put is turned down, if it is.
pub open spec fn put_error(accounts: Map<Seq<u8>, Quota>, request: PutRequestView) -> Option<
    ClientError,
> {
    let client = client_of(request);
    if creates_account(request) && accounts.dom().contains(client) {
        Some(ClientError::AccountExists)
    } else if !admitted(accounts, request).dom().contains(client) {
        Some(ClientError::NoSuchAccount)
    } else if DEFAULT_PAYMENT > admitted(accounts, request)[client].space_available {
        Some(ClientError::LowBalance)
    } else {
        None
    }
}

/// The accounts after a put was handled.
pub open spec fn accounts_after_put(accounts: Map<Seq<u8>, Quota>, request: PutRequestView) -> Map<
    Seq<u8>,
    Quota,
> {
    let client = client_of(request);
    let open = admitted(accounts, request);
    if put_error(accounts, request) is None {
        open.insert(client, open[client].charged(DEFAULT_PAYMENT as nat))
    } else {
        open
    }
}

/// What a response to the put under `id` meets: the request, where it waits
/// and its time has not run out.
pub open spec fn answered(
    pending: Map<Seq<u8>, PutRequestView>,
    id: Seq<u8>,
    live: bool,
) -> Option<PutRequestView> {
    if live && pending.dom().contains(id) {
        Some(pending[id])
    } else {
        None
    }
}

/// The accounts after the put of `request` has failed downstream.
pub open spec fn accounts_after_failure(accounts: Map<Seq<u8>, Quota>, request: PutRequestView)
    -> Map<Seq<u8>, Quota> {
    let client = client_of(request);
    if accounts.dom().contains(client) {
        accounts.insert(client, accounts[client].refunded(DEFAULT_PAYMENT as nat))
    } else {
        accounts
    }
}

/// What is known of the waiting requests once `request` was put among them
/// under `id`: it waits there, every other request that waits did so before,
/// and where `id` was taken already nothing but its entry has changed. A
/// request whose time ran out, or the oldest where the cache was full, may
/// have left.
pub open spec fn waits_after(
    before: Map<Seq<u8>, PutRequestView>,
    after: Map<Seq<u8>, PutRequestView>,
    id: Seq<u8>,
    request: PutRequestView,
) -> bool {
    &&& after.dom().contains(id)
    &&& after[id] == request
    &&& forall|other: Seq<u8>|
        other != id && #[trigger] after.dom().contains(other) ==> before.dom().contains(other)
            && after[other] == before[other]
    &&& before.dom().contains(id) ==> after == before.insert(id, request)
}

/// `overwritten` is the request that waited under `id`, if one did.
pub open spec fn gave_way(
    before: Map<Seq<u8>, PutRequestView>,
    id: Seq<u8>,
    overwritten: Option<PutRequest>,
) -> bool {
    match overwritten {
        Some(prior) => before.dom().contains(id) && prior@ == before[id],
        None => !before.dom().contains(id),
    }
}

/// The names in a list.
pub open spec fn names_in(list: Seq<XorName>) -> Set<Seq<u8>> {
    Set::new(|name: Seq<u8>| exists|i: int| 0 <= i < list.len() && #[trigger] list[i]@ == name)
}

/// Every action tells of one account as it stands, and every account is told
/// of.
pub open spec fn reports(actions: Seq<Action>, accounts: Map<Seq<u8>, Quota>) -> bool {
    &&& forall|i: int|
        0 <= i < actions.len() ==> (#[trigger] actions[i] matches Action::Refresh { name, account }
            && accounts.dom().contains(name@) && accounts[name@] == account@)
    &&& forall|name: Seq<u8>| #[trigger]
        accounts.dom().contains(name) ==> exists|i: int|
            0 <= i < actions.len() && refresh_name(#[trigger] actions[i]) == Some(name)
}

/// The name that a refresh tells of.
pub open spec fn refresh_name(action: Action) -> Option<Seq<u8>> {
    match action {
        Action::Refresh { name, account } => Some(name@),
        _ => None,
    }
}

/// The accounts of a manager that has taken in the refreshes among
/// `actions`, in order.
pub open spec fn refreshed(accounts: Map<Seq<u8>, Quota>, actions: Seq<Action>) -> Map<
    Seq<u8>,
    Quota,
>
    decreases actions.len(),
{
    if actions.len() == 0 {
        accounts
    } else {
        let earlier = refreshed(accounts, actions.drop_last());
        match actions.last() {
            Action::Refresh { name, account } => earlier.insert(name@, account@),
            _ => earlier,
        }
    }
}

/// A manager without accounts that takes in every refresh sent on churn
/// ends with the accounts that the sender has kept, and no others.
pub proof fn refresh_hands_accounts_over(actions: Seq<Action>, kept: Map<Seq<u8>, Quota>)
    requires
        reports(actions, kept),
    ensures
        refreshed(Map::empty(), actions) == kept,
{
    refreshed_holds_what_was_told(actions, kept, actions.len() as int);
    let got = refreshed(Map::empty(), actions);
    assert(actions.take(actions.len() as int) =~= actions);
    assert forall|name: Seq<u8>| kept.dom().contains(name) implies got.dom().contains(name) by {
        let i = choose|i: int| 0 <= i < actions.len() && refresh_name(#[trigger] actions[i]) == Some(name);
        assert(refresh_name(actions[i]) == Some(name));
    }
    assert(got =~= kept);
}

proof fn refreshed_holds_what_was_told(actions: Seq<Action>, kept: Map<Seq<u8>, Quota>, n: int)
    requires
        reports(actions, kept),
        0 <= n <= actions.len(),
    ensures
        forall|name: Seq<u8>| #[trigger]
            refreshed(Map::empty(), actions.take(n)).dom().contains(name) <==> exists|i: int|
                0 <= i < n && refresh_name(#[trigger] actions[i]) == Some(name),
        forall|name: Seq<u8>| #[trigger]
            refreshed(Map::empty(), actions.take(n)).dom().contains(name) ==> kept.dom().contains(
                name,
            ) && refreshed(Map::empty(), actions.take(n))[name] == kept[name],
    decreases n,
{
    let now = refreshed(Map::<Seq<u8>, Quota>::empty(), actions.take(n));
    if n > 0 {
        refreshed_holds_what_was_told(actions, kept, n - 1);
        let before = refreshed(Map::<Seq<u8>, Quota>::empty(), actions.take(n - 1));
        assert(actions.take(n).drop_last() =~= actions.take(n - 1));
        assert(actions.take(n).last() == actions[n - 1]);
        let told = actions[n - 1];
        assert(told is Refresh);
        assert(refresh_name(told) is Some);
        let here = refresh_name(told)->0;
        assert(now == before.insert(here, told->account@));
        assert forall|name: Seq<u8>| #[trigger] now.dom().contains(name) <==> exists|i: int|
            0 <= i < n && refresh_name(#[trigger] actions[i]) == Some(name) by {
            if now.dom().contains(name) {
                if name == here {
                    assert(refresh_name(actions[n - 1]) == Some(name));
                } else {
                    assert(before.dom().contains(name));
                    let i = choose|i: int|
                        0 <= i < n - 1 && refresh_name(#[trigger] actions[i]) == Some(name);
                    assert(refresh_name(actions[i]) == Some(name));
                }
            }
            if exists|i: int| 0 <= i < n && refresh_name(#[trigger] actions[i]) == Some(name) {
                let i = choose|i: int|
                    0 <= i < n && refresh_name(#[trigger] actions[i]) == Some(name);
                if i < n - 1 {
                    assert(refresh_name(actions[i]) == Some(name));
                    assert(before.dom().contains(name));
                }
            }
        }
    } else {
        assert(actions.take(0).len() == 0);
    }
}

/// What handling a message has come to: how it ended, and what is to be
/// sent.
#[derive(Debug, PartialEq, Eq)]
pub struct Handled {
    pub result: Result<(), InternalError>,
    pub action: Option<Action>,
    /// The request that waited under the identifier of a put and gave way
    /// to it: two puts with one identifier are a fault to take note of.
    pub overwritten: Option<PutRequest>,
}

/// The accounts of the clients that this vault is close to, and the puts of
/// theirs that wait for an answer.
pub struct MaidManager {
    accounts: NameMap<Account>,
    request_cache: LruCache<[u8; 64], PutRequest>,
}

impl MaidManager {
    /// The accounts, by client name.
    pub closed spec fn accounts(&self) -> Map<Seq<u8>, Quota> {
        self.accounts@.map_values(|account: Account| account@)
    }

    /// The puts that wait for an answer, by message identifier.
    pub closed spec fn pending(&self) -> Map<Seq<u8>, PutRequestView> {
        cached_requests(self.request_cache)
    }

    /// How many puts may wait at once.
    pub closed spec fn capacity(&self) -> nat {
        cache_limit(self.request_cache)
    }

    /// How long a put waits for its answer, in milliseconds.
    pub closed spec fn time_to_live(&self) -> int {
        cache_lifetime(self.request_cache)
    }

    /// The cache of waiting puts has room for one at least, and no more
    /// puts wait than it has room for.
    pub open spec fn wf(&self) -> bool {
        &&& self.capacity() > 0
        &&& self.pending().dom().finite()
        &&& self.pending().dom().len() <= self.capacity()
    }

    /// A manager without accounts, whose puts wait five minutes and at most
    /// a thousand at a time.
    pub fn new() -> (manager: MaidManager)
        ensures
            manager.wf(),
            manager.capacity() == REQUEST_CAPACITY,
            manager.time_to_live() == REQUEST_TIME_TO_LIVE,
            manager.accounts() == Map::<Seq<u8>, Quota>::empty(),
            manager.pending() == Map::<Seq<u8>, PutRequestView>::empty(),
    {
        let manager = MaidManager {
            accounts: NameMap::new(),
            request_cache: cache_with_limits(REQUEST_TIME_TO_LIVE, REQUEST_CAPACITY),
        };
        assert(manager.accounts() =~= Map::<Seq<u8>, Quota>::empty());
        assert(manager.pending() =~= Map::<Seq<u8>, PutRequestView>::empty());
        manager
    }

    /// A manager without accounts whose puts wait `time_to_live`
    /// milliseconds and at most `capacity` at a time; none where the time is
    /// negative or more than a day, or the capacity is zero.
    pub fn with_limits(time_to_live: i64, capacity: usize) -> (manager: Option<MaidManager>)
        ensures
            (0 <= time_to_live <= MAX_TIME_TO_LIVE && capacity > 0) ==> (manager matches Some(m)
                && m.wf() && m.capacity() == capacity && m.time_to_live() == time_to_live
                && m.accounts() == Map::<Seq<u8>, Quota>::empty() && m.pending()
                == Map::<Seq<u8>, PutRequestView>::empty()),
            !(0 <= time_to_live <= MAX_TIME_TO_LIVE && capacity > 0) ==> manager is None,
    {
        if time_to_live < 0 || time_to_live > MAX_TIME_TO_LIVE || capacity == 0 {
            return None;
        }
        let manager = MaidManager {
            accounts: NameMap::new(),
            request_cache: cache_with_limits(time_to_live, capacity),
        };
        assert(manager.accounts() =~= Map::<Seq<u8>, Quota>::empty());
        assert(manager.pending() =~= Map::<Seq<u8>, PutRequestView>::empty());
        Some(manager)
    }

    /// The account kept under `name`, if there is one.
    pub fn account(&self, name: &XorName) -> (account: Option<Account>)
        ensures
            match account {
                Some(a) => self.accounts().dom().contains(name@) && a@ == self.accounts()[name@],
                None => !self.accounts().dom().contains(name@),
            },
    {
        match self.accounts.get(name) {
            Some(account) => Some(*account),
            None => None,
        }
    }

    /// The names of all accounts, each once.
    pub fn account_names(&self) -> (names: Vec<XorName>)
        ensures
            names_in(names@) == self.accounts().dom(),
            names@.len() == self.accounts().dom().len(),
    {
        let count = self.accounts.len();
        let mut names: Vec<XorName> = Vec::new();
        let mut i: usize = 0;
        while i < count
            invariant
                i <= count,
                count == self.accounts.entries().len(),
                names@.len() == i,
                forall|j: int| 0 <= j < i ==> #[trigger] names@[j]@ == key_at(self.accounts.entries(), j),
            decreases count - i,
        {
            names.push(self.accounts.name_at(i));
            i += 1;
        }
        proof {
            let entries = self.accounts.entries();
            assert forall|name: Seq<u8>| names_in(names@).contains(name)
                <==> self.accounts().dom().contains(name) by {
                if names_in(names@).contains(name) {
                    let j = choose|j: int| 0 <= j < names@.len() && #[trigger] names@[j]@ == name;
                    assert(key_at(entries, j) == name);
                }
                if self.accounts().dom().contains(name) {
                    let j = choose|j: int| 0 <= j < entries.len() && #[trigger] key_at(entries, j) == name;
                    assert(names@[j]@ == name);
                }
            }
            assert(names_in(names@) =~= self.accounts().dom());
            count_of_names(entries);
            assert(self.accounts@.dom() =~= self.accounts().dom());
        }
        names
    }

    /// Takes a put from a client: creates the account where the put asks for
    /// one, charges the account, and has the data sent on; or turns the put
    /// down and has the client told why.
    pub fn handle_put(&mut self, request: &PutRequest) -> (handled: Handled)
        requires
            old(self).wf(),
        ensures
            final(self).wf(),
            final(self).capacity() == old(self).capacity(),
            final(self).time_to_live() == old(self).time_to_live(),
            final(self).accounts() == accounts_after_put(old(self).accounts(), request@),
            match put_error(old(self).accounts(), request@) {
                Some(error) => {
                    &&& handled.result matches Err(InternalError::Client(e)) && e == error
                    &&& handled.action matches Some(Action::PutFailure { request: r, error: e })
                        && r@ == request@ && e == error
                    &&& handled.overwritten is None
                    &&& final(self).pending() == old(self).pending()
                },
                None => {
                    &&& handled.result is Ok
                    &&& handled.action matches Some(Action::ForwardPut { request: r }) && r@
                        == request@
                    &&& gave_way(old(self).pending(), request@.message_id, handled.overwritten)
                    &&& waits_after(
                        old(self).pending(),
                        final(self).pending(),
                        request@.message_id,
                        request@,
                    )
                },
            },
    {
        match request.kind {
            DataKind::Immutable => self.handle_put_immutable_data(request),
            DataKind::Structured { type_tag } => self.handle_put_structured_data(request, type_tag),
        }
    }

    /// The data managers have stored what was put under `message_id`: the
    /// request waits no longer, and the client is told, with the digest of
    /// its request. A request whose time has run out is dropped and not
    /// answered; whether it has, the clock of the cache decides.
    pub fn handle_put_success(&mut self, message_id: &MessageId) -> (handled: Handled)
        requires
            old(self).wf(),
        ensures
            final(self).wf(),
            final(self).capacity() == old(self).capacity(),
            final(self).time_to_live() == old(self).time_to_live(),
            final(self).accounts() == old(self).accounts(),
            final(self).pending() == old(self).pending().remove(message_id@),
            handled.overwritten is None,
            !old(self).pending().dom().contains(message_id@) ==> handled.result is Err,
            handled.result is Err ==> {
                &&& handled.result matches Err(InternalError::FailedToFindCachedRequest(id))
                    && id@ == message_id@
                &&& handled.action is None
            },
            handled.result is Ok ==> {
                &&& old(self).pending().dom().contains(message_id@)
                &&& handled.action matches Some(Action::PutSuccess { request: r, digest: d })
                    && r@ == old(self).pending()[message_id@] && d@ == sha512_digest(r@.encoded)
            },
    {
        let live = cache_holds(&self.request_cache, &message_id.0);
        self.put_success(message_id, live)
    }

    /// What `handle_put_success` does, with the answer of the clock handed
    /// in: `live` says that the time of the request has not run out.
    pub fn put_success(&mut self, message_id: &MessageId, live: bool) -> (handled: Handled)
        requires
            old(self).wf(),
        ensures
            final(self).wf(),
            final(self).capacity() == old(self).capacity(),
            final(self).time_to_live() == old(self).time_to_live(),
            final(self).accounts() == old(self).accounts(),
            final(self).pending() == old(self).pending().remove(message_id@),
            handled.overwritten is None,
            match answered(old(self).pending(), message_id@, live) {
                None => {
                    &&& handled.result matches Err(InternalError::FailedToFindCachedRequest(id))
                        && id@ == message_id@
                    &&& handled.action is None
                },
                Some(request) => {
                    &&& handled.result is Ok
                    &&& handled.action matches Some(Action::PutSuccess { request: r, digest: d })
                        && r@ == request && d@ == sha512_digest(request.encoded)
                },
            },
    {
        match cache_remove(&mut self.request_cache, &message_id.0) {
            Some(client_request) => {
                if !live {
                    return Handled {
                        result: Err(InternalError::FailedToFindCachedRequest(*message_id)),
                        action: None,
                        overwritten: None,
                    };
                }
                let message_hash = digest(client_request.encoded.as_slice());
                Handled {
                    result: Ok(()),
                    action: Some(
                        Action::PutSuccess { request: client_request, digest: message_hash },
                    ),
                    overwritten: None,
                }
            },
            None => Handled {
                result: Err(InternalError::FailedToFindCachedRequest(*message_id)),
                action: None,
                overwritten: None,
            },
        }
    }

    /// The data managers could not store what was put under `message_id`:
    /// the request waits no longer, its account gets the payment back where
    /// there still is one, and the client is told of `error`, which is what
    /// the data managers gave as their reason, or nothing where that could
    /// not be read. A request whose time has run out is dropped and not
    /// answered; whether it has, the clock of the cache decides.
    pub fn handle_put_failure(&mut self, message_id: &MessageId, error: Option<ClientError>) -> (handled:
        Handled)
        requires
            old(self).wf(),
        ensures
            final(self).wf(),
            final(self).capacity() == old(self).capacity(),
            final(self).time_to_live() == old(self).time_to_live(),
            final(self).pending() == old(self).pending().remove(message_id@),
            handled.overwritten is None,
            !old(self).pending().dom().contains(message_id@) ==> handled.result matches Err(
                InternalError::FailedToFindCachedRequest(_),
            ),
            handled.result matches Err(InternalError::FailedToFindCachedRequest(id)) ==> {
                &&& id@ == message_id@
                &&& handled.action is None
                &&& final(self).accounts() == old(self).accounts()
            },
            !(handled.result matches Err(InternalError::FailedToFindCachedRequest(_))) ==> {
                &&& old(self).pending().dom().contains(message_id@)
                &&& Self::failure_was_answered(
                    *old(self),
                    *final(self),
                    old(self).pending()[message_id@],
                    error,
                    handled,
                )
            },
    {
        let live = cache_holds(&self.request_cache, &message_id.0);
        self.put_failure(message_id, error, live)
    }

    /// What `handle_put_failure` promises where the request was met: the
    /// account has its payment back, and the client is told the reason, or
    /// the reason could not be read and nothing is sent.
    pub open spec fn failure_was_answered(
        before: MaidManager,
        after: MaidManager,
        request: PutRequestView,
        error: Option<ClientError>,
        handled: Handled,
    ) -> bool {
        &&& after.accounts() == accounts_after_failure(before.accounts(), request)
        &&& match error {
            Some(reason) => {
                &&& handled.result is Ok
                &&& handled.action matches Some(Action::PutFailure { request: r, error: e }) && r@
                    == request && e == reason
            },
            None => handled.result == Err::<(), InternalError>(InternalError::Serialisation)
                && handled.action is None,
        }
    }

    /// What `handle_put_failure` does, with the answer of the clock handed
    /// in: `live` says that the time of the request has not run out.
    pub fn put_failure(&mut self, message_id: &MessageId, error: Option<ClientError>, live: bool) -> (handled:
        Handled)
        requires
            old(self).wf(),
        ensures
            final(self).wf(),
            final(self).capacity() == old(self).capacity(),
            final(self).time_to_live() == old(self).time_to_live(),
            final(self).pending() == old(self).pending().remove(message_id@),
            handled.overwritten is None,
            match answered(old(self).pending(), message_id@, live) {
                None => {
                    &&& handled.result matches Err(InternalError::FailedToFindCachedRequest(id))
                        && id@ == message_id@
                    &&& handled.action is None
                    &&& final(self).accounts() == old(self).accounts()
                },
                Some(request) => Self::failure_was_answered(
                    *old(self),
                    *final(self),
                    request,
                    error,
                    handled,
                ),
            },
    {
        match cache_remove(&mut self.request_cache, &message_id.0) {
            Some(client_request) => {
                if !live {
                    return Handled {
                        result: Err(InternalError::FailedToFindCachedRequest(*message_id)),
                        action: None,
                        overwritten: None,
                    };
                }
                // Refund the account, where there still is one.
                let name = client_name(client_request.client_key.as_slice());
                match self.accounts.get(&name) {
                    Some(found) => {
                        let mut account = *found;
                        account.delete_data(DEFAULT_PAYMENT);
                        let _ = self.accounts.insert(name, account);
                        assert(self.accounts() =~= accounts_after_failure(
                            old(self).accounts(),
                            client_request@,
                        ));
                    },
                    None => {},
                }
                // Send the failure back to the client.
                match error {
                    Some(reason) => Self::reply_with_put_failure(client_request, reason),
                    None => Handled {
                        result: Err(InternalError::Serialisation),
                        action: None,
                        overwritten: None,
                    },
                }
            },
            None => Handled {
                result: Err(InternalError::FailedToFindCachedRequest(*message_id)),
                action: None,
                overwritten: None,
            },
        }
    }

    /// Keeps `account` under `name`, in place of what was kept there.
    pub fn handle_refresh(&mut self, name: XorName, account: Account)
        ensures
            final(self).wf() == old(self).wf(),
            final(self).capacity() == old(self).capacity(),
            final(self).time_to_live() == old(self).time_to_live(),
            final(self).pending() == old(self).pending(),
            final(self).accounts() == old(self).accounts().insert(name@, account@),
    {
        let _ = self.accounts.insert(name, account);
        assert(self.accounts() =~= old(self).accounts().insert(name@, account@));
    }

    /// The neighbourhood has changed. `close` holds the names for which this
    /// vault is still in the close group: their accounts stay and the new
    /// group is told of each; the others are dropped.
    pub fn handle_churn(&mut self, close: &Vec<XorName>) -> (actions: Vec<Action>)
        ensures
            final(self).wf() == old(self).wf(),
            final(self).capacity() == old(self).capacity(),
            final(self).time_to_live() == old(self).time_to_live(),
            final(self).pending() == old(self).pending(),
            final(self).accounts() == old(self).accounts().restrict(names_in(close@)),
            reports(actions@, final(self).accounts()),
            actions@.len() == final(self).accounts().dom().len(),
    {
        let mut accounts: NameMap<Account> = NameMap::new();
        std::mem::swap(&mut self.accounts, &mut accounts);
        let count = accounts.len();
        let ghost entries = accounts.entries();
        let ghost all = accounts@;
        let mut actions: Vec<Action> = Vec::new();
        let mut i: usize = 0;
        while i < count
            invariant
                i <= count,
                count == entries.len(),
                entries == accounts.entries(),
                all == accounts@,
                all == as_map(entries),
                distinct(entries),
                self.request_cache == old(self).request_cache,
                forall|name: Seq<u8>| #[trigger]
                    self.accounts@.dom().contains(name) <==> (names_in(close@).contains(name)
                        && exists|j: int| 0 <= j < i && #[trigger] key_at(entries, j) == name),
                forall|name: Seq<u8>| #[trigger]
                    self.accounts@.dom().contains(name) ==> self.accounts@[name] == all[name],
                actions@.len() == self.accounts@.dom().len(),
                self.accounts@.dom().finite(),
                reports(actions@, self.accounts()),
            decreases count - i,
        {
            let name = accounts.name_at(i);
            let account = *accounts.value_at(i);
            let ghost kept_before = self.accounts@;
            let ghost told_before = actions@;
            if Self::is_among(&name, close) {
                proof {
                    if kept_before.dom().contains(name@) {
                        let j = choose|j: int| 0 <= j < i && #[trigger] key_at(entries, j) == name@;
                        assert(key_at(entries, j) != key_at(entries, i as int));
                    }
                }
                let _ = self.accounts.insert(name, account);
                self.send_refresh(&mut actions, name, account);
                proof {
                    assert(self.accounts@.dom() =~= kept_before.dom().insert(name@));
                    assert forall|k: int| 0 <= k < actions@.len() implies (#[trigger] actions@[k] matches Action::Refresh {
                        name: n,
                        account: a,
                    } && self.accounts().dom().contains(n@) && self.accounts()[n@] == a@) by {
                        if k < told_before.len() {
                            assert(actions@[k] == told_before[k]);
                        }
                    }
                    assert forall|n: Seq<u8>| #[trigger]
                        self.accounts().dom().contains(n) implies exists|k: int|
                        0 <= k < actions@.len() && refresh_name(#[trigger] actions@[k]) == Some(
                            n,
                        ) by {
                        if n == name@ {
                            assert(refresh_name(actions@[told_before.len() as int]) == Some(n));
                        } else {
                            assert(kept_before.dom().contains(n));
                            assert(kept_before.map_values(|a: Account| a@).dom().contains(n));
                            let k = choose|k: int|
                                0 <= k < told_before.len() && refresh_name(
                                    #[trigger] told_before[k],
                                ) == Some(n);
                            assert(actions@[k] == told_before[k]);
                            assert(refresh_name(actions@[k]) == Some(n));
                        }
                    }
                }
            }
            proof {
                assert forall|n: Seq<u8>| #[trigger]
                    self.accounts@.dom().contains(n) <==> (names_in(close@).contains(n)
                        && exists|j: int| 0 <= j < i + 1 && #[trigger] key_at(entries, j) == n) by {
                    if self.accounts@.dom().contains(n) && n != name@ {
                        assert(kept_before.dom().contains(n));
                        let j = choose|j: int| 0 <= j < i && #[trigger] key_at(entries, j) == n;
                        assert(key_at(entries, j) == n);
                    }
                    if self.accounts@.dom().contains(n) && n == name@ {
                        assert(key_at(entries, i as int) == n);
                    }
                    if names_in(close@).contains(n) && exists|j: int|
                        0 <= j < i + 1 && #[trigger] key_at(entries, j) == n {
                        let j = choose|j: int| 0 <= j < i + 1 && #[trigger] key_at(entries, j) == n;
                        if j < i {
                            assert(key_at(entries, j) == n);
                            assert(kept_before.dom().contains(n));
                        }
                    }
                }
            }
            i += 1;
        }
        proof {
            let target = old(self).accounts().restrict(names_in(close@));
            assert forall|n: Seq<u8>| self.accounts().dom().contains(n) <==> target.dom().contains(
                n,
            ) by {
                if all.dom().contains(n) {
                    let j = place(entries, n);
                    assert(key_at(entries, j) == n);
                }
            }
            assert(self.accounts() =~= target);
            assert(self.accounts().dom() =~= self.accounts@.dom());
        }
        actions
    }

    /// Puts a refresh for the account of `name` among what is to be sent.
    fn send_refresh(&self, actions: &mut Vec<Action>, name: XorName, account: Account)
        ensures
            final(actions)@ == old(actions)@.push(Action::Refresh { name, account }),
    {
        actions.push(Action::Refresh { name, account });
    }

    /// Whether `name` is in `list`.
    fn is_among(name: &XorName, list: &Vec<XorName>) -> (found: bool)
        ensures
            found == names_in(list@).contains(name@),
    {
        let mut i: usize = 0;
        while i < list.len()
            invariant
                i <= list@.len(),
                forall|j: int| 0 <= j < i ==> #[trigger] list@[j]@ != name@,
            decreases list@.len() - i,
        {
            if list[i].same(name) {
                return true;
            }
            i += 1;
        }
        false
    }

    fn handle_put_immutable_data(&mut self, request: &PutRequest) -> (handled: Handled)
        requires
            old(self).wf(),
            request.kind is Immutable,
        ensures
            final(self).wf(),
            final(self).capacity() == old(self).capacity(),
            final(self).time_to_live() == old(self).time_to_live(),
            final(self).accounts() == accounts_after_put(old(self).accounts(), request@),
            Self::put_was_handled(*old(self), *final(self), request@, handled),
    {
        let name = client_name(request.client_key.as_slice());
        self.forward_put_request(name, request)
    }

    fn handle_put_structured_data(&mut self, request: &PutRequest, type_tag: u64) -> (handled:
        Handled)
        requires
            old(self).wf(),
            request.kind == (DataKind::Structured { type_tag }),
        ensures
            final(self).wf(),
            final(self).capacity() == old(self).capacity(),
            final(self).time_to_live() == old(self).time_to_live(),
            final(self).accounts() == accounts_after_put(old(self).accounts(), request@),
            Self::put_was_handled(*old(self), *final(self), request@, handled),
    {
        // If the type tag is that of an account, the account must not exist, else it must exist.
        let name = client_name(request.client_key.as_slice());
        if type_tag == ACCOUNT_TAG {
            if self.accounts.contains_key(&name) {
                let error = ClientError::AccountExists;
                let told = Self::reply_with_put_failure(request.clone(), error);
                return Handled {
                    result: Err(InternalError::Client(error)),
                    action: told.action,
                    overwritten: None,
                };
            }
            // Create the account, the put is charged to it below.
            let _ = self.accounts.insert(name, Account::default());
            assert(self.accounts() =~= admitted(old(self).accounts(), request@));
        }
        self.forward_put_request(name, request)
    }

    /// What `handle_put` promises of its result and of the waiting requests.
    pub open spec fn put_was_handled(
        before: MaidManager,
        after: MaidManager,
        request: PutRequestView,
        handled: Handled,
    ) -> bool {
        match put_error(before.accounts(), request) {
            Some(error) => {
                &&& handled.result matches Err(InternalError::Client(e)) && e == error
                &&& handled.action matches Some(Action::PutFailure { request: r, error: e }) && r@
                    == request && e == error
                &&& handled.overwritten is None
                &&& after.pending() == before.pending()
            },
            None => {
                &&& handled.result is Ok
                &&& handled.action matches Some(Action::ForwardPut { request: r }) && r@ == request
                &&& gave_way(before.pending(), request.message_id, handled.overwritten)
                &&& waits_after(before.pending(), after.pending(), request.message_id, request)
            },
        }
    }

    /// Charges the account of `name` and has the data sent on, or has the
    /// client told why not.
    fn forward_put_request(&mut self, name: XorName, request: &PutRequest) -> (handled: Handled)
        requires
            old(self).wf(),
            name@ == client_of(request@),
        ensures
            final(self).wf(),
            final(self).capacity() == old(self).capacity(),
            final(self).time_to_live() == old(self).time_to_live(),
            !old(self).accounts().dom().contains(name@) ==> {
                &&& final(self).accounts() == old(self).accounts()
                &&& final(self).pending() == old(self).pending()
                &&& handled.result == Err::<(), InternalError>(
                    InternalError::Client(ClientError::NoSuchAccount),
                )
                &&& handled.action matches Some(Action::PutFailure { request: r, error: e }) && r@
                    == request@ && e == ClientError::NoSuchAccount
                &&& handled.overwritten is None
            },
            old(self).accounts().dom().contains(name@) && DEFAULT_PAYMENT > old(
                self,
            ).accounts()[name@].space_available ==> {
                &&& final(self).accounts() == old(self).accounts()
                &&& final(self).pending() == old(self).pending()
                &&& handled.result == Err::<(), InternalError>(
                    InternalError::Client(ClientError::LowBalance),
                )
                &&& handled.action matches Some(Action::PutFailure { request: r, error: e }) && r@
                    == request@ && e == ClientError::LowBalance
                &&& handled.overwritten is None
            },
            old(self).accounts().dom().contains(name@) && DEFAULT_PAYMENT <= old(
                self,
            ).accounts()[name@].space_available ==> {
                &&& final(self).accounts() == old(self).accounts().insert(
                    name@,
                    old(self).accounts()[name@].charged(DEFAULT_PAYMENT as nat),
                )
                &&& handled.result is Ok
                &&& handled.action matches Some(Action::ForwardPut { request: r }) && r@
                    == request@
                &&& gave_way(old(self).pending(), request@.message_id, handled.overwritten)
                &&& waits_after(
                    old(self).pending(),
                    final(self).pending(),
                    request@.message_id,
                    request@,
                )
            },
    {
        // The account must exist already before data is put.
        let result = match self.accounts.get(&name) {
            None => Err(ClientError::NoSuchAccount),
            Some(found) => {
                let mut account = *found;
                match account.put_data(DEFAULT_PAYMENT) {
                    Ok(()) => Ok(account),
                    Err(error) => Err(error),
                }
            },
        };
        let charged = match result {
            Err(error) => {
                let told = Self::reply_with_put_failure(request.clone(), error);
                return Handled {
                    result: Err(InternalError::Client(error)),
                    action: told.action,
                    overwritten: None,
                };
            },
            Ok(account) => account,
        };
        let _ = self.accounts.insert(name, charged);
        assert(self.accounts() =~= old(self).accounts().insert(
            name@,
            old(self).accounts()[name@].charged(DEFAULT_PAYMENT as nat),
        ));
        // A request that waited under the same identifier gives way.
        let overwritten = cache_insert(
            &mut self.request_cache,
            request.message_id.0,
            request.clone(),
        );
        Handled {
            result: Ok(()),
            action: Some(Action::ForwardPut { request: request.clone() }),
            overwritten,
        }
    }

    /// Has the client of `request` told that its put failed with `error`.
    fn reply_with_put_failure(request: PutRequest, error: ClientError) -> (handled: Handled)
        ensures
            handled.result is Ok,
            handled.action matches Some(Action::PutFailure { request: r, error: e }) && r@
                == request@ && e == error,
            handled.overwritten is None,
    {
        Handled {
            result: Ok(()),
            action: Some(Action::PutFailure { request, error }),
            overwritten: None,
        }
    }
}

impl Default for MaidManager {
    fn default() -> (manager: MaidManager)
        ensures
            manager.wf(),
            manager.capacity() == REQUEST_CAPACITY,
            manager.time_to_live() == REQUEST_TIME_TO_LIVE,
            manager.accounts() == Map::<Seq<u8>, Quota>::empty(),
            manager.pending() == Map::<Seq<u8>, PutRequestView>::empty(),
    {
        MaidManager::new()
    }
}

} // verus!
