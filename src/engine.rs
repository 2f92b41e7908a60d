use crate::fingerprint::Fingerprint;
use vstd::prelude::*;
use vstd::string::*;

verus! {

/// Address to listen on when re-listening on an expired address fails:
/// any interface, a port that the system picks.
pub const EPHEMERAL_LISTEN_ADDR: &'static str = "/ip4/0.0.0.0/udp/0/quic-v1";

/// An exchange query that waits for its completion event.
struct ExchangeEntry<F> {
    query: u64,
    fingerprint: Fingerprint,
    reply: F,
}

/// A provider lookup that waits for its completion event.
struct ProvidersEntry<P> {
    query: u64,
    reply: P,
}

/// What an exchange query failed with, and for which fingerprint.
#[derive(Debug)]
pub struct FetchError {
    pub fingerprint: Fingerprint,
    pub cause: String,
}

/// The text that a caller sees for a failed fetch.
pub open spec fn fetch_error_text(fingerprint: Seq<u8>, cause: Seq<char>) -> Seq<char> {
    "Error for CID "@ + crate::fingerprint::cid_text_of(fingerprint) + ": "@ + cause
}

impl FetchError {
    pub fn message(&self) -> (r: String)
        ensures
            r@ == fetch_error_text(self.fingerprint@, self.cause@),
    {
        let mut s = String::from_str("Error for CID ");
        let text = self.fingerprint.to_text();
        s.append(text.as_str());
        s.append(": ");
        s.append(self.cause.as_str());
        s
    }
}

/// What the overlay reports to the engine, with identifiers and addresses in
/// their plain forms.
pub enum OverlayEvent {
    /// An exchange query delivered the bytes it asked for.
    ExchangeData { query: u64, data: Vec<u8> },
    /// An exchange query failed.
    ExchangeError { query: u64, cause: String },
    /// An exchange query waited longer than its caller allows.
    ExchangeTimedOut { query: u64 },
    /// Local discovery found peers, each with an address.
    PeersDiscovered { peers: Vec<(String, String)> },
    /// The routing table learned of a peer and its addresses.
    RoutingUpdated { peer: String, addresses: Vec<String> },
    /// A provider lookup found providers.
    ProvidersFound { query: u64, providers: Vec<String> },
    /// A listen address expired.
    ListenAddrExpired { address: String },
    /// Anything else: connection lifecycle and the like, logged only.
    Other,
}

/// What the engine asks the overlay, or a caller's reply handle, to do.
#[allow(inconsistent_fields)]
pub enum EngineAction<F, P> {
    /// Complete a fetch caller's reply.
    Deliver { reply: F, result: Result<Vec<u8>, FetchError> },
    /// Complete a provider lookup's reply, then finish that routing query.
    DeliverProviders { reply: P, providers: Vec<String>, finish: u64 },
    /// Add these (peer, address) pairs to the routing table's address book.
    AddAddresses { peers: Vec<(String, String)> },
    /// Dial this address.
    Dial { address: String },
    /// Listen on `address` again; where that fails, on `fallback`.
    Relisten { address: String, fallback: String },
    /// Nothing changes: the event is only logged.
    Ignore,
}

/// The engine's pending-query tables. `F` is the reply handle of a fetch,
/// `P` that of a provider lookup.
pub struct Engine<F, P> {
    exchange: Vec<ExchangeEntry<F>>,
    providers: Vec<ProvidersEntry<P>>,
    lookups: Vec<(u64, Fingerprint)>,
}

/// No identifier occurs twice.
pub open spec fn distinct_ids(s: Seq<u64>) -> bool {
    forall|i: int, j: int| 0 <= i < j < s.len() ==> s[i] != s[j]
}

impl<F, P> Engine<F, P> {
    /// Pending exchange queries: identifier, fingerprint, reply handle.
    pub closed spec fn exchange_view(&self) -> Seq<(u64, Seq<u8>, F)> {
        self.exchange@.map_values(|e: ExchangeEntry<F>| (e.query, e.fingerprint@, e.reply))
    }

    /// Pending provider lookups: identifier, reply handle.
    pub closed spec fn providers_view(&self) -> Seq<(u64, P)> {
        self.providers@.map_values(|e: ProvidersEntry<P>| (e.query, e.reply))
    }

    /// Provider lookups issued beside a fetch, recorded against its fingerprint.
    pub closed spec fn lookups_view(&self) -> Seq<(u64, Seq<u8>)> {
        self.lookups@.map_values(|e: (u64, Fingerprint)| (e.0, e.1@))
    }

    pub open spec fn exchange_ids(&self) -> Seq<u64> {
        self.exchange_view().map_values(|e: (u64, Seq<u8>, F)| e.0)
    }

    pub open spec fn provider_ids(&self) -> Seq<u64> {
        self.providers_view().map_values(|e: (u64, P)| e.0)
    }

    /// Each pending table holds an identifier at most once.
    pub open spec fn wf(&self) -> bool {
        distinct_ids(self.exchange_ids()) && distinct_ids(self.provider_ids())
    }

    pub fn new() -> (r: Self)
        ensures
            r.wf(),
            r.exchange_view() == Seq::<(u64, Seq<u8>, F)>::empty(),
            r.providers_view() == Seq::<(u64, P)>::empty(),
            r.lookups_view() == Seq::<(u64, Seq<u8>)>::empty(),
    {
        let r = Engine { exchange: Vec::new(), providers: Vec::new(), lookups: Vec::new() };
        assert(r.exchange_view() =~= Seq::<(u64, Seq<u8>, F)>::empty());
        assert(r.providers_view() =~= Seq::<(u64, P)>::empty());
        assert(r.lookups_view() =~= Seq::<(u64, Seq<u8>)>::empty());
        r
    }

    /// The number of fetches that wait for their exchange query.
    pub fn pending_fetches(&self) -> (r: usize)
        ensures
            r == self.exchange_view().len(),
    {
        self.exchange.len()
    }

    /// The number of provider lookups that wait for their completion.
    pub fn pending_lookups(&self) -> (r: usize)
        ensures
            r == self.providers_view().len(),
    {
        self.providers.len()
    }

    fn find_exchange(&self, query: u64) -> (r: Option<usize>)
        ensures
            match r {
                Some(i) => i < self.exchange_view().len() && self.exchange_view()[i as int].0 == query,
                None => !self.exchange_ids().contains(query),
            },
    {
        let mut i: usize = 0;
        while i < self.exchange.len()
            invariant
                i <= self.exchange@.len(),
                forall|k: int| 0 <= k < i ==> self.exchange@[k].query != query,
            decreases self.exchange@.len() - i,
        {
            if self.exchange[i].query == query {
                return Some(i);
            }
            i = i + 1;
        }
        assert(!self.exchange_ids().contains(query)) by {
            if self.exchange_ids().contains(query) {
                let k = choose|k: int| 0 <= k < self.exchange_ids().len() && self.exchange_ids()[k] == query;
                assert(self.exchange@[k].query == query);
            }
        }
        None
    }

    fn find_providers(&self, query: u64) -> (r: Option<usize>)
        ensures
            match r {
                Some(i) => i < self.providers_view().len() && self.providers_view()[i as int].0 == query,
                None => !self.provider_ids().contains(query),
            },
    {
        let mut i: usize = 0;
        while i < self.providers.len()
            invariant
                i <= self.providers@.len(),
                forall|k: int| 0 <= k < i ==> self.providers@[k].query != query,
            decreases self.providers@.len() - i,
        {
            if self.providers[i].query == query {
                return Some(i);
            }
            i = i + 1;
        }
        assert(!self.provider_ids().contains(query)) by {
            if self.provider_ids().contains(query) {
                let k = choose|k: int| 0 <= k < self.provider_ids().len() && self.provider_ids()[k] == query;
                assert(self.providers@[k].query == query);
            }
        }
        None
    }
}


/// Removing one element keeps the others distinct.
proof fn lemma_distinct_remove(s: Seq<u64>, k: int)
    requires
        distinct_ids(s),
        0 <= k < s.len(),
    ensures
        distinct_ids(s.remove(k)),
{
    let t = s.remove(k);
    assert forall|i: int, j: int| 0 <= i < j < t.len() implies t[i] != t[j] by {
        let a = if i < k { i } else { i + 1 };
        let b = if j < k { j } else { j + 1 };
        assert(t[i] == s[a] && t[j] == s[b]);
    }
}

/// Appending an identifier that is not there keeps them distinct.
proof fn lemma_distinct_push(s: Seq<u64>, q: u64)
    requires
        distinct_ids(s),
        !s.contains(q),
    ensures
        distinct_ids(s.push(q)),
{
    let t = s.push(q);
    assert forall|i: int, j: int| 0 <= i < j < t.len() implies t[i] != t[j] by {
        if j == s.len() {
            assert(s[i] == t[i]);
        }
    }
}

/// The cause handed to a fetch caller whose query waited too long.
pub const TIMEOUT_CAUSE: &'static str = "no peer supplied the content in time";

/// `res` is what a completed exchange query for `fingerprint` owes its caller:
/// the bytes on success, the fingerprint and the cause on failure.
pub open spec fn fetch_result_is(
    res: Result<Vec<u8>, FetchError>,
    fingerprint: Seq<u8>,
    expected: Result<Seq<u8>, Seq<char>>,
) -> bool {
    match (res, expected) {
        (Ok(d), Ok(e)) => d@ == e,
        (Err(err), Err(c)) => err.fingerprint@ == fingerprint && err.cause@ == c,
        _ => false,
    }
}

/// An exchange completion for `query`: where the query is pending, its entry
/// (and only it) leaves the table and its caller gets `expected`; otherwise
/// nothing changes and the event is ignored.
pub open spec fn exchange_completed<F, P>(
    pre: Engine<F, P>,
    post: Engine<F, P>,
    query: u64,
    action: EngineAction<F, P>,
    expected: Result<Seq<u8>, Seq<char>>,
) -> bool {
    &&& post.providers_view() == pre.providers_view()
    &&& post.lookups_view() == pre.lookups_view()
    &&& if pre.exchange_ids().contains(query) {
        exists|i: int|
            0 <= i < pre.exchange_view().len() && pre.exchange_view()[i].0 == query
                && post.exchange_view() == pre.exchange_view().remove(i) && match action {
                EngineAction::Deliver { reply, result } => reply == pre.exchange_view()[i].2
                    && fetch_result_is(result, pre.exchange_view()[i].1, expected),
                _ => false,
            }
    } else {
        post.exchange_view() == pre.exchange_view() && action is Ignore
    }
}

/// A provider lookup completion for `query`: where it is pending, its entry
/// leaves the table, its caller gets `providers`, and the query is finished.
pub open spec fn providers_completed<F, P>(
    pre: Engine<F, P>,
    post: Engine<F, P>,
    query: u64,
    providers: Seq<String>,
    action: EngineAction<F, P>,
) -> bool {
    &&& post.exchange_view() == pre.exchange_view()
    &&& post.lookups_view() == pre.lookups_view()
    &&& if pre.provider_ids().contains(query) {
        exists|i: int|
            0 <= i < pre.providers_view().len() && pre.providers_view()[i].0 == query
                && post.providers_view() == pre.providers_view().remove(i) && match action {
                EngineAction::DeliverProviders { reply, providers: p, finish } => reply
                    == pre.providers_view()[i].1 && p@ == providers && finish == query,
                _ => false,
            }
    } else {
        post.providers_view() == pre.providers_view() && action is Ignore
    }
}

/// What the engine does on each overlay event.
pub open spec fn event_handled<F, P>(
    pre: Engine<F, P>,
    post: Engine<F, P>,
    event: OverlayEvent,
    action: EngineAction<F, P>,
) -> bool {
    match event {
        OverlayEvent::ExchangeData { query, data } => exchange_completed(
            pre,
            post,
            query,
            action,
            Ok(data@),
        ),
        OverlayEvent::ExchangeError { query, cause } => exchange_completed(
            pre,
            post,
            query,
            action,
            Err(cause@),
        ),
        OverlayEvent::ExchangeTimedOut { query } => exchange_completed(
            pre,
            post,
            query,
            action,
            Err(TIMEOUT_CAUSE@),
        ),
        OverlayEvent::ProvidersFound { query, providers } => providers_completed(
            pre,
            post,
            query,
            providers@,
            action,
        ),
        _ => {
            &&& post.exchange_view() == pre.exchange_view()
            &&& post.providers_view() == pre.providers_view()
            &&& post.lookups_view() == pre.lookups_view()
            &&& match event {
                OverlayEvent::PeersDiscovered { peers } => match action {
                    EngineAction::AddAddresses { peers: p } => p@ == peers@,
                    _ => false,
                },
                OverlayEvent::RoutingUpdated { peer, addresses } => if addresses@.len() > 0 {
                    match action {
                        EngineAction::Dial { address } => address@ == addresses@[0]@,
                        _ => false,
                    }
                } else {
                    action is Ignore
                },
                OverlayEvent::ListenAddrExpired { address } => match action {
                    EngineAction::Relisten { address: a, fallback } => a@ == address@
                        && fallback@ == EPHEMERAL_LISTEN_ADDR@,
                    _ => false,
                },
                _ => action is Ignore,
            }
        },
    }
}

impl<F, P> Engine<F, P> {
    /// Records a fetch whose exchange query `query` and provider lookup
    /// `lookup` were just issued. An exchange identifier that is already
    /// pending is refused, and the reply handle handed back.
    pub fn register_fetch(&mut self, query: u64, lookup: u64, fingerprint: Fingerprint, reply: F) -> (r: Result<(), F>)
        requires
            old(self).wf(),
        ensures
            final(self).wf(),
            final(self).providers_view() == old(self).providers_view(),
            if old(self).exchange_ids().contains(query) {
                &&& r == Err::<(), F>(reply)
                &&& final(self).exchange_view() == old(self).exchange_view()
                &&& final(self).lookups_view() == old(self).lookups_view()
            } else {
                &&& r is Ok
                &&& final(self).exchange_view() == old(self).exchange_view().push((query, fingerprint@, reply))
                &&& final(self).lookups_view() == old(self).lookups_view().push((lookup, fingerprint@))
            },
    {
        match self.find_exchange(query) {
            Some(i) => {
                assert(self.exchange_ids()[i as int] == query);
                Err(reply)
            },
            None => {
                let ghost pre = *self;
                let fp2 = fingerprint.clone();
                self.exchange.push(ExchangeEntry { query, fingerprint, reply });
                self.lookups.push((lookup, fp2));
                assert(self.exchange_view() =~= pre.exchange_view().push((query, fp2@, reply)));
                assert(self.lookups_view() =~= pre.lookups_view().push((lookup, fp2@)));
                assert(self.exchange_ids() =~= pre.exchange_ids().push(query));
                proof {
                    lemma_distinct_push(pre.exchange_ids(), query);
                }
                Ok(())
            },
        }
    }

    /// Records a provider lookup `query` that a caller waits for. An
    /// identifier that is already pending is refused, and the handle handed back.
    pub fn register_providers_lookup(&mut self, query: u64, reply: P) -> (r: Result<(), P>)
        requires
            old(self).wf(),
        ensures
            final(self).wf(),
            final(self).exchange_view() == old(self).exchange_view(),
            final(self).lookups_view() == old(self).lookups_view(),
            if old(self).provider_ids().contains(query) {
                &&& r == Err::<(), P>(reply)
                &&& final(self).providers_view() == old(self).providers_view()
            } else {
                &&& r is Ok
                &&& final(self).providers_view() == old(self).providers_view().push((query, reply))
            },
    {
        match self.find_providers(query) {
            Some(i) => {
                assert(self.provider_ids()[i as int] == query);
                Err(reply)
            },
            None => {
                let ghost pre = *self;
                self.providers.push(ProvidersEntry { query, reply });
                assert(self.providers_view() =~= pre.providers_view().push((query, reply)));
                assert(self.provider_ids() =~= pre.provider_ids().push(query));
                proof {
                    lemma_distinct_push(pre.provider_ids(), query);
                }
                Ok(())
            },
        }
    }

    /// Takes the pending exchange query `query` out of its table.
    fn take_exchange(&mut self, query: u64) -> (r: Option<ExchangeEntry<F>>)
        requires
            old(self).wf(),
        ensures
            final(self).wf(),
            final(self).providers_view() == old(self).providers_view(),
            final(self).lookups_view() == old(self).lookups_view(),
            match r {
                Some(e) => exists|i: int|
                    0 <= i < old(self).exchange_view().len() && old(self).exchange_view()[i] == (
                    query,
                    e.fingerprint@,
                    e.reply,
                    ) && final(self).exchange_view() == old(self).exchange_view().remove(i)
                    && old(self).exchange_ids().contains(query),
                None => !old(self).exchange_ids().contains(query) && final(self).exchange_view()
                    == old(self).exchange_view(),
            },
    {
        match self.find_exchange(query) {
            Some(i) => {
                let ghost pre = *self;
                assert(self.exchange_ids()[i as int] == query);
                let e = self.exchange.remove(i);
                assert(self.exchange_view() =~= pre.exchange_view().remove(i as int));
                assert(self.exchange_ids() =~= pre.exchange_ids().remove(i as int));
                proof {
                    lemma_distinct_remove(pre.exchange_ids(), i as int);
                }
                Some(e)
            },
            None => None,
        }
    }

    /// Takes the pending provider lookup `query` out of its table.
    fn take_providers(&mut self, query: u64) -> (r: Option<P>)
        requires
            old(self).wf(),
        ensures
            final(self).wf(),
            final(self).exchange_view() == old(self).exchange_view(),
            final(self).lookups_view() == old(self).lookups_view(),
            match r {
                Some(reply) => exists|i: int|
                    0 <= i < old(self).providers_view().len() && old(self).providers_view()[i] == (
                    query,
                    reply,
                    ) && final(self).providers_view() == old(self).providers_view().remove(i)
                    && old(self).provider_ids().contains(query),
                None => !old(self).provider_ids().contains(query) && final(self).providers_view()
                    == old(self).providers_view(),
            },
    {
        match self.find_providers(query) {
            Some(i) => {
                let ghost pre = *self;
                assert(self.provider_ids()[i as int] == query);
                let e = self.providers.remove(i);
                assert(self.providers_view() =~= pre.providers_view().remove(i as int));
                assert(self.provider_ids() =~= pre.provider_ids().remove(i as int));
                proof {
                    lemma_distinct_remove(pre.provider_ids(), i as int);
                }
                Some(e.reply)
            },
            None => None,
        }
    }

    /// Decides what an overlay event does to the pending tables, and what
    /// the overlay or a caller is to be told.
    pub fn handle_event(&mut self, event: OverlayEvent) -> (r: EngineAction<F, P>)
        requires
            old(self).wf(),
        ensures
            final(self).wf(),
            event_handled(*old(self), *final(self), event, r),
    {
        match event {
            OverlayEvent::ExchangeData { query, data } => match self.take_exchange(query) {
                Some(e) => EngineAction::Deliver { reply: e.reply, result: Ok(data) },
                None => EngineAction::Ignore,
            },
            OverlayEvent::ExchangeError { query, cause } => match self.take_exchange(query) {
                Some(e) => EngineAction::Deliver {
                    reply: e.reply,
                    result: Err(FetchError { fingerprint: e.fingerprint, cause }),
                },
                None => EngineAction::Ignore,
            },
            OverlayEvent::ExchangeTimedOut { query } => match self.take_exchange(query) {
                Some(e) => EngineAction::Deliver {
                    reply: e.reply,
                    result: Err(FetchError { fingerprint: e.fingerprint, cause: String::from_str(TIMEOUT_CAUSE) }),
                },
                None => EngineAction::Ignore,
            },
            OverlayEvent::ProvidersFound { query, providers } => match self.take_providers(query) {
                Some(reply) => EngineAction::DeliverProviders { reply, providers, finish: query },
                None => EngineAction::Ignore,
            },
            OverlayEvent::PeersDiscovered { peers } => EngineAction::AddAddresses { peers },
            OverlayEvent::RoutingUpdated { peer, addresses } => {
                if addresses.len() > 0 {
                    EngineAction::Dial { address: addresses[0].clone() }
                } else {
                    EngineAction::Ignore
                }
            },
            OverlayEvent::ListenAddrExpired { address } => EngineAction::Relisten {
                address,
                fallback: String::from_str(EPHEMERAL_LISTEN_ADDR),
            },
            OverlayEvent::Other => EngineAction::Ignore,
        }
    }
}


/// A fetch registered under an identifier that was not pending, and then
/// completed, leaves the exchange table exactly as it was before: its entry
/// is the one removed, and its caller, with the result owed, is the one told.
pub proof fn lemma_register_then_complete<F, P>(
    pre: Engine<F, P>,
    mid: Engine<F, P>,
    post: Engine<F, P>,
    query: u64,
    fingerprint: Seq<u8>,
    reply: F,
    action: EngineAction<F, P>,
    expected: Result<Seq<u8>, Seq<char>>,
)
    requires
        mid.wf(),
        !pre.exchange_ids().contains(query),
        mid.exchange_view() == pre.exchange_view().push((query, fingerprint, reply)),
        exchange_completed(mid, post, query, action, expected),
    ensures
        post.exchange_view() == pre.exchange_view(),
        post.exchange_view().len() + 1 == mid.exchange_view().len(),
        action is Deliver,
        action->Deliver_reply == reply,
        fetch_result_is(action->Deliver_result, fingerprint, expected),
{
    let n = pre.exchange_view().len();
    assert(mid.exchange_ids()[n as int] == query);
    assert(mid.exchange_ids().contains(query));
    let i = choose|i: int|
        0 <= i < mid.exchange_view().len() && mid.exchange_view()[i].0 == query
            && post.exchange_view() == mid.exchange_view().remove(i) && match action {
            EngineAction::Deliver { reply, result } => reply == mid.exchange_view()[i].2
                && fetch_result_is(result, mid.exchange_view()[i].1, expected),
            _ => false,
        };
    if i != n {
        assert(mid.exchange_ids()[i] == query);
        assert(false);
    }
    assert(mid.exchange_view().remove(n as int) =~= pre.exchange_view());
}

} // verus!
