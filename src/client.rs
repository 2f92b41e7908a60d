use crate::fingerprint::{cid_text_of, content_fingerprint, Fingerprint};
use vstd::prelude::*;
use vstd::string::*;

verus! {

/// An operation submitted to the engine. Each travels with a one-shot reply
/// handle of its own, held beside it by whoever submits it.
pub enum Command {
    /// Listen on an address; the reply is the local peer identifier.
    StartListening { addr: String },
    /// Read, fingerprint, persist and announce a file; the reply is its fingerprint.
    UploadFile { file_path: String },
    /// Fetch content by fingerprint; the reply is its bytes.
    RequestFile { fingerprint: Fingerprint },
    /// Look up the providers of a routing key; the reply is a set of peers.
    GetProviders { key: Vec<u8> },
    /// The reply is the list of connected peers.
    GetPeers,
}

/// What an upload persists and announces: the content under its fingerprint,
/// announced under the fingerprint's binary form.
pub struct UploadPlan {
    pub fingerprint: Fingerprint,
    pub record_key: Vec<u8>,
}

/// Prepares the upload of `data`.
pub fn prepare_upload(data: &[u8]) -> (r: UploadPlan)
    ensures
        r.fingerprint@ == content_fingerprint(data@),
        r.record_key@ == content_fingerprint(data@),
{
    let fingerprint = Fingerprint::of_bytes(data);
    let record_key = fingerprint.to_bytes();
    UploadPlan { fingerprint, record_key }
}

/// The text of a failed listen.
pub open spec fn listen_error_text(cause: Seq<char>) -> Seq<char> {
    "Failed to listen on address: "@ + cause
}

/// The reply to `StartListening`: the local peer identifier where listening
/// began, the cause otherwise.
pub fn listen_reply(local_peer: String, listened: Result<(), String>) -> (r: Result<String, String>)
    ensures
        match listened {
            Ok(()) => r is Ok && r->Ok_0@ == local_peer@,
            Err(cause) => r is Err && r->Err_0@ == listen_error_text(cause@),
        },
{
    match listened {
        Ok(()) => Ok(local_peer),
        Err(cause) => {
            let mut s = String::from_str("Failed to listen on address: ");
            s.append(cause.as_str());
            Err(s)
        },
    }
}

/// The texts of a sequence of strings.
pub open spec fn texts(v: Seq<String>) -> Seq<Seq<char>> {
    v.map_values(|s: String| s@)
}

/// The reply to `GetPeers`: each connected peer once, in the order first seen.
pub fn peer_snapshot(connected: &Vec<String>) -> (r: Vec<String>)
    ensures
        texts(r@).no_duplicates(),
        texts(r@).to_set() == texts(connected@).to_set(),
{
    let mut out: Vec<String> = Vec::new();
    let mut i: usize = 0;
    while i < connected.len()
        invariant
            i <= connected@.len(),
            texts(out@).no_duplicates(),
            texts(out@).to_set() == texts(connected@.subrange(0, i as int)).to_set(),
        decreases connected@.len() - i,
    {
        let p = &connected[i];
        let mut seen = false;
        let mut j: usize = 0;
        while j < out.len()
            invariant
                j <= out@.len(),
                seen == exists|k: int| 0 <= k < j && out@[k]@ == p@,
            decreases out@.len() - j,
        {
            if out[j] == *p {
                seen = true;
            }
            j = j + 1;
        }
        let ghost before = out@;
        assert(texts(connected@.subrange(0, i + 1)) == texts(connected@.subrange(0, i as int)).push(p@));
        if !seen {
            out.push(p.clone());
            assert(texts(out@) == texts(before).push(p@));
            assert(!texts(before).contains(p@)) by {
                if texts(before).contains(p@) {
                    let k = choose|k: int| 0 <= k < texts(before).len() && texts(before)[k] == p@;
                    assert(before[k]@ == p@);
                }
            }
            assert(texts(out@).to_set() =~= texts(before).to_set().insert(p@)) by {
                texts(before).lemma_push_to_set_commute(p@);
            }
            assert(texts(connected@.subrange(0, i + 1)).to_set() =~= texts(connected@.subrange(0, i as int)).to_set().insert(p@)) by {
                texts(connected@.subrange(0, i as int)).lemma_push_to_set_commute(p@);
            }
            assert(texts(out@).no_duplicates()) by {
                assert forall|a: int, b: int| 0 <= a < b < texts(out@).len() implies texts(out@)[a] != texts(out@)[b] by {
                    if b == texts(before).len() {
                        assert(texts(before)[a] == texts(out@)[a]);
                    }
                }
            }
        } else {
            let ghost k = choose|k: int| 0 <= k < j && out@[k]@ == p@;
            assert(texts(before)[k] == p@);
            assert(texts(before).to_set().contains(p@));
            assert(texts(connected@.subrange(0, i + 1)).to_set() =~= texts(connected@.subrange(0, i as int)).to_set().insert(p@)) by {
                texts(connected@.subrange(0, i as int)).lemma_push_to_set_commute(p@);
            }
        }
        i = i + 1;
    }
    assert(connected@.subrange(0, i as int) == connected@);
    out
}

/// How a claim on a fingerprint proceeds.
#[derive(PartialEq, Eq, Structural, Clone, Copy, Debug)]
pub enum ClaimStep {
    /// The content is already in the local store: reply at once, no network.
    AlreadyProviding,
    /// Fetch the content from peers, persist it, then reply.
    FetchAndStore,
}

/// A claim on `fingerprint` against a store that holds the fingerprints of
/// `store`: the step taken, and the fingerprints held afterwards where the
/// fetch succeeds.
pub open spec fn claim(store: Set<Seq<u8>>, fingerprint: Seq<u8>) -> (ClaimStep, Set<Seq<u8>>) {
    if store.contains(fingerprint) {
        (ClaimStep::AlreadyProviding, store)
    } else {
        (ClaimStep::FetchAndStore, store.insert(fingerprint))
    }
}

/// Decides a claim from whether the content is present and readable locally.
pub fn claim_step(present_locally: bool) -> (r: ClaimStep)
    ensures
        forall|store: Set<Seq<u8>>, f: Seq<u8>|
            store.contains(f) == present_locally ==> r == #[trigger] claim(store, f).0,
{
    if present_locally {
        ClaimStep::AlreadyProviding
    } else {
        ClaimStep::FetchAndStore
    }
}

/// The reply to a claim whose content was already held.
pub const ALREADY_PROVIDING: &'static str = "You are already providing this file";

pub fn already_providing_message() -> (r: String)
    ensures
        r@ == ALREADY_PROVIDING@,
{
    String::from_str(ALREADY_PROVIDING)
}

/// The reply to a claim that fetched and stored the content.
pub open spec fn now_providing_text(fingerprint: Seq<u8>) -> Seq<char> {
    "You are now providing file Cid("@ + cid_text_of(fingerprint) + ")"@
}

pub fn now_providing_message(fingerprint: &Fingerprint) -> (r: String)
    ensures
        r@ == now_providing_text(fingerprint@),
{
    let mut s = String::from_str("You are now providing file Cid(");
    let text = fingerprint.to_text();
    s.append(text.as_str());
    s.append(")");
    s
}

/// Claiming a fingerprint that is held locally takes no network step and
/// leaves the store as it is; a second claim after any claim of the same
/// fingerprint finds it held, so claiming twice ends the same way.
pub proof fn lemma_claim_idempotent(store: Set<Seq<u8>>, fingerprint: Seq<u8>)
    ensures
        store.contains(fingerprint) ==> claim(store, fingerprint) == (ClaimStep::AlreadyProviding, store),
        claim(claim(store, fingerprint).1, fingerprint) == (ClaimStep::AlreadyProviding, claim(store, fingerprint).1),
{
}

/// A store of content keyed by fingerprint after uploading `data`.
pub open spec fn upload(store: Map<Seq<u8>, Seq<u8>>, data: Seq<u8>) -> Map<Seq<u8>, Seq<u8>> {
    store.insert(content_fingerprint(data), data)
}

/// Uploading content and then reading it back under its fingerprint gives
/// the same bytes.
pub proof fn lemma_upload_then_get(store: Map<Seq<u8>, Seq<u8>>, data: Seq<u8>)
    ensures
        upload(store, data).contains_key(content_fingerprint(data)),
        upload(store, data)[content_fingerprint(data)] == data,
{
}

/// Uploading the same content twice leaves the store as one upload does:
/// one entry under one fingerprint.
pub proof fn lemma_upload_twice(store: Map<Seq<u8>, Seq<u8>>, data: Seq<u8>)
    ensures
        upload(upload(store, data), data) == upload(store, data),
        upload(store, data).dom() == store.dom().insert(content_fingerprint(data)),
{
    assert(upload(upload(store, data), data) =~= upload(store, data));
    assert(upload(store, data).dom() =~= store.dom().insert(content_fingerprint(data)));
}

} // verus!
