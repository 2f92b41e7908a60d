use vstd::prelude::*;
use vstd::string::*;

verus! {

/// The role a node plays in the network.
#[derive(PartialEq, Eq, Structural, Clone, Copy, Debug)]
pub enum NodeType {
    Provider,
    Distributor,
    Consumer,
}

/// What a node tells about itself.
#[derive(Debug)]
pub struct PeerInfo {
    pub peer_id: String,
    pub listening_addr: String,
    pub node_type: Option<NodeType>,
}

impl PeerInfo {
    pub fn new(peer_id: String, listening_addr: String, node_type: Option<NodeType>) -> (r: PeerInfo)
        ensures
            r.peer_id@ == peer_id@,
            r.listening_addr@ == listening_addr@,
            r.node_type == node_type,
    {
        PeerInfo { peer_id, listening_addr, node_type }
    }
}

/// The directory of the persistent block store, relative to the working directory.
pub open spec fn store_dir_text() -> Seq<char> {
    "home/Boxpeer"@
}

/// The directory of the persistent block store. It never fails.
pub fn boxpeer_dir() -> (r: Result<String, String>)
    ensures
        r is Ok,
        r->Ok_0@ == store_dir_text(),
{
    let mut dir = String::from_str("home/");
    dir.append("Boxpeer");
    proof {
        reveal_strlit("home/");
        reveal_strlit("Boxpeer");
        reveal_strlit("home/Boxpeer");
    }
    assert(dir@ =~= store_dir_text());
    Ok(dir)
}

/// Where a second process stores its blocks when the store at `path` is
/// locked by another: the sibling `<path>_fallback`.
pub fn fallback_store_path(path: &str) -> (r: String)
    ensures
        r@ == path@ + "_fallback"@,
{
    let mut s = String::from_str(path);
    s.append("_fallback");
    s
}

/// The 32 bytes of secret key material derived from a seed: the seed, then zeros.
pub open spec fn seed_key(seed: u8) -> Seq<u8> {
    seq![seed] + Seq::new(31, |i: int| 0u8)
}

pub fn seed_key_bytes(seed: u8) -> (r: Vec<u8>)
    ensures
        r@ == seed_key(seed),
{
    let mut bytes: Vec<u8> = Vec::with_capacity(32);
    bytes.push(seed);
    let mut i: usize = 1;
    while i < 32
        invariant
            1 <= i <= 32,
            bytes@ == seq![seed] + Seq::new((i - 1) as nat, |k: int| 0u8),
        decreases 32 - i,
    {
        bytes.push(0u8);
        assert(seq![seed] + Seq::new(i as nat, |k: int| 0u8) =~= (seq![seed] + Seq::new((i - 1) as nat, |k: int| 0u8)).push(0u8));
        i = i + 1;
    }
    assert(bytes@ =~= seed_key(seed));
    bytes
}

} // verus!
