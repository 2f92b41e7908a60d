use crate::fingerprint::{cid_parse_of, cid_text_of, Fingerprint};
use vstd::prelude::*;
use vstd::string::*;

verus! {

/// The command word of a request for files, followed by comma-separated CIDs.
pub const GET_FILES_PREFIX: &'static str = "GET_FILES:";

/// The reply to a request for files that names no valid CID.
pub const NO_VALID_CIDS: &'static str = "No valid CIDs provided";

/// The reply to a message that is no known command.
pub const UNKNOWN_COMMAND: &'static str = "Unknown command";

/// How long a client may stay silent before it is disconnected, in nanoseconds.
pub const CLIENT_TIMEOUT_NANOS: u64 = 30_000_000_000;

/// A text with leading and trailing whitespace removed.
pub uninterp spec fn trim_of(s: Seq<char>) -> Seq<char>;

/// A base64 encoding (standard alphabet, padded) of bytes.
pub uninterp spec fn base64_of(data: Seq<u8>) -> Seq<char>;

/// Relies on std's `str::trim`: the text without leading and trailing whitespace.
#[verifier::external_body]
fn trim(s: &str) -> (r: &str)
    ensures
        r@ == trim_of(s@),
{
    s.trim()
}

/// Relies on base64's `encode`: the standard, padded base64 text of the bytes.
#[verifier::external_body]
fn base64_encode(data: &[u8]) -> (r: String)
    ensures
        r@ == base64_of(data@),
{
    #[allow(deprecated)]
    base64::encode(data)
}

pub open spec fn starts_with(s: Seq<char>, p: Seq<char>) -> bool {
    p.len() <= s.len() && s.subrange(0, p.len() as int) == p
}

/// `s` with every leading repetition of a non-empty `p` removed.
pub open spec fn strip_all(s: Seq<char>, p: Seq<char>) -> Seq<char>
    decreases s.len(),
{
    if p.len() > 0 && starts_with(s, p) {
        strip_all(s.subrange(p.len() as int, s.len() as int), p)
    } else {
        s
    }
}

/// The pieces of `s` between occurrences of `sep`; there is always at least one.
pub open spec fn split_on(s: Seq<char>, sep: char) -> Seq<Seq<char>>
    decreases s.len(),
{
    if s.len() == 0 {
        seq![Seq::<char>::empty()]
    } else {
        let rest = split_on(s.drop_last(), sep);
        if s.last() == sep {
            rest.push(Seq::<char>::empty())
        } else {
            rest.update(rest.len() - 1, rest.last().push(s.last()))
        }
    }
}

/// The CIDs named by those of the pieces that, trimmed, parse as one, in order.
pub open spec fn parsed_cids(pieces: Seq<Seq<char>>) -> Seq<Seq<u8>>
    decreases pieces.len(),
{
    if pieces.len() == 0 {
        Seq::<Seq<u8>>::empty()
    } else {
        let rest = parsed_cids(pieces.drop_last());
        match cid_parse_of(trim_of(pieces.last())) {
            Some(c) => rest.push(c),
            None => rest,
        }
    }
}

/// The CIDs that a request for files names.
pub open spec fn requested_cids(text: Seq<char>) -> Seq<Seq<u8>> {
    parsed_cids(split_on(strip_all(text, GET_FILES_PREFIX@), ','))
}

pub open spec fn fingerprint_views(v: Seq<Fingerprint>) -> Seq<Seq<u8>> {
    v.map_values(|f: Fingerprint| f@)
}

proof fn lemma_split_nonempty(s: Seq<char>, sep: char)
    ensures
        split_on(s, sep).len() >= 1,
    decreases s.len(),
{
    if s.len() > 0 {
        lemma_split_nonempty(s.drop_last(), sep);
    }
}

/// A text message from a gateway client.
#[derive(Debug)]
pub enum GatewayRequest {
    /// Fetch these files, in order.
    GetFiles(Vec<Fingerprint>),
    /// A request for files that named no valid CID.
    NoValidCids,
    /// Not a known command.
    Unknown,
}

fn chars_of(s: &str) -> (r: Vec<char>)
    ensures
        r@ == s@,
{
    let n = s.unicode_len();
    let mut out: Vec<char> = Vec::with_capacity(n);
    let mut i: usize = 0;
    while i < n
        invariant
            n == s@.len(),
            i <= n,
            out@ == s@.subrange(0, i as int),
        decreases n - i,
    {
        out.push(s.get_char(i));
        i = i + 1;
        assert(out@ =~= s@.subrange(0, i as int));
    }
    assert(s@.subrange(0, n as int) =~= s@);
    out
}

/// Whether `p` occurs in `s` at `start`.
fn occurs_at(s: &Vec<char>, start: usize, p: &Vec<char>) -> (r: bool)
    requires
        start <= s@.len(),
    ensures
        r == starts_with(s@.subrange(start as int, s@.len() as int), p@),
{
    let slen = s.len();
    if p.len() > slen - start {
        return false;
    }
    let mut k: usize = 0;
    while k < p.len()
        invariant
            slen == s@.len(),
            start <= s@.len(),
            p@.len() <= s@.len() - start,
            k <= p@.len(),
            forall|m: int| 0 <= m < k ==> s@[start + m] == p@[m],
        decreases p@.len() - k,
    {
        if s[start + k] != p[k] {
            assert(s@.subrange(start as int, s@.len() as int).subrange(0, p@.len() as int)[k as int] != p@[k as int]);
            return false;
        }
        k = k + 1;
    }
    assert(s@.subrange(start as int, s@.len() as int).subrange(0, p@.len() as int) =~= p@);
    true
}

/// Parses the piece of `text` between `a` and `b`, trimmed, as a CID.
fn parse_piece(text: &str, a: usize, b: usize) -> (r: Option<Fingerprint>)
    requires
        a <= b <= text@.len(),
    ensures
        r.is_some() == cid_parse_of(trim_of(text@.subrange(a as int, b as int))).is_some(),
        r.is_some() ==> r.unwrap()@ == cid_parse_of(trim_of(text@.subrange(a as int, b as int))).unwrap(),
{
    let piece = text.substring_char(a, b);
    Fingerprint::parse(trim(piece))
}

/// Reads a client's text message: `GET_FILES:` followed by CIDs separated by
/// commas asks for those files; CIDs that do not parse are skipped.
pub fn parse_text_message(text: &str) -> (r: GatewayRequest)
    ensures
        !starts_with(text@, GET_FILES_PREFIX@) ==> r is Unknown,
        starts_with(text@, GET_FILES_PREFIX@) && requested_cids(text@).len() == 0 ==> r is NoValidCids,
        starts_with(text@, GET_FILES_PREFIX@) && requested_cids(text@).len() > 0 ==> r is GetFiles
            && fingerprint_views(r->GetFiles_0@) == requested_cids(text@),
{
    let chars = chars_of(text);
    let prefix = chars_of(GET_FILES_PREFIX);
    let n = chars.len();
    assert(text@.subrange(0, n as int) =~= text@);
    if !occurs_at(&chars, 0, &prefix) {
        return GatewayRequest::Unknown;
    }
    assert(GET_FILES_PREFIX@.len() == 10) by {
        reveal_strlit("GET_FILES:");
    }
    let mut start: usize = 0;
    while occurs_at(&chars, start, &prefix)
        invariant
            n == text@.len(),
            chars@ == text@,
            start <= n,
            prefix@ == GET_FILES_PREFIX@,
            prefix@.len() > 0,
            strip_all(text@, GET_FILES_PREFIX@) == strip_all(text@.subrange(start as int, n as int), GET_FILES_PREFIX@),
        decreases n - start,
    {
        let ghost cur = text@.subrange(start as int, n as int);
        start = start + prefix.len();
        assert(cur.subrange(prefix@.len() as int, cur.len() as int) =~= text@.subrange(start as int, n as int));
    }
    let ghost rest = text@.subrange(start as int, n as int);
    assert(strip_all(text@, GET_FILES_PREFIX@) == rest);
    let mut out: Vec<Fingerprint> = Vec::new();
    let mut a: usize = start;
    let mut i: usize = start;
    proof {
        assert(text@.subrange(start as int, start as int) =~= Seq::<char>::empty());
        assert(split_on(Seq::<char>::empty(), ',') == seq![Seq::<char>::empty()]);
        assert(seq![Seq::<char>::empty()].drop_last() =~= Seq::<Seq<char>>::empty());
    }
    while i < n
        invariant
            n == text@.len(),
            chars@ == text@,
            start <= a <= i <= n,
            split_on(text@.subrange(start as int, i as int), ',').len() >= 1,
            split_on(text@.subrange(start as int, i as int), ',').last() == text@.subrange(a as int, i as int),
            parsed_cids(split_on(text@.subrange(start as int, i as int), ',').drop_last()) == fingerprint_views(out@),
        decreases n - i,
    {
        let ghost s0 = text@.subrange(start as int, i as int);
        let ghost s1 = text@.subrange(start as int, i + 1);
        assert(s1.drop_last() =~= s0);
        assert(s1.last() == text@[i as int]);
        proof {
            lemma_split_nonempty(s0, ',');
        }
        if chars[i] == ',' {
            let parsed = parse_piece(text, a, i);
            let ghost before = out@;
            assert(split_on(s1, ',') == split_on(s0, ',').push(Seq::<char>::empty()));
            assert(split_on(s1, ',').drop_last() =~= split_on(s0, ','));
            assert(split_on(s0, ',') =~= split_on(s0, ',').drop_last().push(split_on(s0, ',').last()));
            match parsed {
                Some(f) => {
                    out.push(f);
                    assert(fingerprint_views(out@) =~= fingerprint_views(before).push(f@));
                },
                None => {},
            }
            a = i + 1;
            assert(text@.subrange(a as int, i + 1) =~= Seq::<char>::empty());
        } else {
            let ghost r0 = split_on(s0, ',');
            assert(split_on(s1, ',') == r0.update(r0.len() - 1, r0.last().push(text@[i as int])));
            assert(split_on(s1, ',').drop_last() =~= r0.drop_last());
            assert(text@.subrange(a as int, i + 1) =~= text@.subrange(a as int, i as int).push(text@[i as int]));
        }
        i = i + 1;
    }
    let last = parse_piece(text, a, n);
    let ghost before = out@;
    let ghost sp = split_on(rest, ',');
    assert(text@.subrange(start as int, i as int) == rest);
    assert(sp =~= sp.drop_last().push(sp.last()));
    match last {
        Some(f) => {
            out.push(f);
            assert(fingerprint_views(out@) =~= fingerprint_views(before).push(f@));
        },
        None => {},
    }
    assert(requested_cids(text@) == fingerprint_views(out@));
    if out.len() == 0 {
        GatewayRequest::NoValidCids
    } else {
        GatewayRequest::GetFiles(out)
    }
}


/// The reply to a request that asks for no fetch, if any is owed at once.
pub fn immediate_reply(request: &GatewayRequest) -> (r: Option<String>)
    ensures
        request is GetFiles ==> r is None,
        request is NoValidCids ==> r is Some && r->Some_0@ == NO_VALID_CIDS@,
        request is Unknown ==> r is Some && r->Some_0@ == UNKNOWN_COMMAND@,
{
    match request {
        GatewayRequest::GetFiles(_) => None,
        GatewayRequest::NoValidCids => Some(String::from_str(NO_VALID_CIDS)),
        GatewayRequest::Unknown => Some(String::from_str(UNKNOWN_COMMAND)),
    }
}

/// The JSON text that carries a fetched file to a gateway client.
pub open spec fn file_message_text(fingerprint: Seq<u8>, data: Seq<u8>) -> Seq<char> {
    "{ \"cid\": \""@ + cid_text_of(fingerprint) + "\", \"data\": \""@ + base64_of(data) + "\" }"@
}

pub fn file_message(fingerprint: &Fingerprint, data: &[u8]) -> (r: String)
    ensures
        r@ == file_message_text(fingerprint@, data@),
{
    let mut s = String::from_str("{ \"cid\": \"");
    let text = fingerprint.to_text();
    s.append(text.as_str());
    s.append("\", \"data\": \"");
    let encoded = base64_encode(data);
    s.append(encoded.as_str());
    s.append("\" }");
    s
}

/// The text that tells a gateway client that a fetch failed.
pub open spec fn fetch_failed_text(fingerprint: Seq<u8>, cause: Seq<char>) -> Seq<char> {
    "Error fetching file for CID "@ + cid_text_of(fingerprint) + ": "@ + cause
}

pub fn fetch_failed_message(fingerprint: &Fingerprint, cause: &str) -> (r: String)
    ensures
        r@ == fetch_failed_text(fingerprint@, cause@),
{
    let mut s = String::from_str("Error fetching file for CID ");
    let text = fingerprint.to_text();
    s.append(text.as_str());
    s.append(": ");
    s.append(cause);
    s
}

/// What the periodic liveness check does with a client.
#[derive(PartialEq, Eq, Structural, Clone, Copy, Debug)]
pub enum Heartbeat {
    /// The client was heard from recently: ping it.
    Ping,
    /// The client was silent too long: disconnect it.
    Disconnect,
}

/// Decides the liveness check from the time since the client was last heard from.
pub fn heartbeat(silent_nanos: u64) -> (r: Heartbeat)
    ensures
        r == (if silent_nanos > CLIENT_TIMEOUT_NANOS { Heartbeat::Disconnect } else { Heartbeat::Ping }),
{
    if silent_nanos > CLIENT_TIMEOUT_NANOS {
        Heartbeat::Disconnect
    } else {
        Heartbeat::Ping
    }
}

} // verus!
