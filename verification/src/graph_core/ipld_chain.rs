//! Content-addressed event chains: every payload gets a content id (CID),
//! each new event links to the previous one, and the chain can be verified
//! and proved (a path of links from an event back to the first one).

use vstd::prelude::*;
use vstd::string::*;
use vstd::utf8::encode_utf8;
use vstd::std_specs::hash::DefaultHasherAdditionalSpecFns;
use vstd::std_specs::cmp::PartialEqSpecImpl;
use std::collections::hash_map::DefaultHasher;
use std::hash::Hasher;
use crate::error::{GraphError, Result};
use crate::ids::{Uuid, Timestamp, lower_hex, hex_text};
use crate::json::{JsonValue, JsonView, json_text, render_json, str_eq};
use crate::strmap::StrMap;

verus! {

/// A content identifier.
#[derive(Debug, Hash)]
pub struct Cid(String);

impl View for Cid {
    type V = Seq<char>;

    closed spec fn view(&self) -> Seq<char> {
        self.0@
    }
}

impl Clone for Cid {
    fn clone(&self) -> (res: Self)
        ensures
            res == *self,
    {
        Cid(self.0.clone())
    }
}

impl PartialEq for Cid {
    fn eq(&self, other: &Self) -> (r: bool) {
        str_eq(self.0.as_str(), other.0.as_str())
    }
}

impl PartialEqSpecImpl for Cid {
    open spec fn obeys_eq_spec() -> bool {
        true
    }

    open spec fn eq_spec(&self, other: &Self) -> bool {
        self@ == other@
    }
}

impl Eq for Cid {}

impl Cid {
    /// A content id with the given text.
    pub fn new(s: &str) -> (c: Cid)
        ensures
            c@ == s@,
    {
        Cid(String::from_str(s))
    }

    /// The text of this content id.
    pub fn as_str(&self) -> (s: &str)
        ensures
            s@ == self@,
    {
        self.0.as_str()
    }

    /// The text of this content id, as it is displayed.
    pub fn to_string(&self) -> (s: String)
        ensures
            s@ == self@,
    {
        self.0.clone()
    }
}

/// The texts of a list of content ids.
pub open spec fn cid_texts(v: Seq<Cid>) -> Seq<Seq<char>> {
    v.map_values(|c: Cid| c@)
}

/// The content id of a payload: "Qm" and the lowercase hexadecimal value of
/// the default hasher after hashing the payload's JSON text (its UTF-8 bytes,
/// then the byte 0xff that ends a hashed `str`).
pub open spec fn payload_cid(payload: JsonView) -> Seq<char> {
    "Qm"@ + lower_hex(DefaultHasher::spec_finish(seq![encode_utf8(json_text(payload)), seq![0xffu8]]) as nat)
}

/// The content id of a payload.
pub fn generate_cid_for_payload(payload: &JsonValue) -> (r: Result<Cid>)
    ensures
        r matches Ok(c) && c@ == payload_cid(payload@),
{
    let text = render_json(payload);
    let mut hasher = DefaultHasher::new();
    let bytes = text.as_str().as_bytes();
    assert(bytes@ == encode_utf8(json_text(payload@)));
    hasher.write(bytes);
    let mut end: Vec<u8> = Vec::new();
    end.push(0xffu8);
    assert(end@ =~= seq![0xffu8]);
    hasher.write(end.as_slice());
    let hash = hasher.finish();
    proof {
        reveal_strlit("Qm");
        assert(hasher@ =~= seq![encode_utf8(json_text(payload@)), seq![0xffu8]]);
    }
    Ok(Cid(String::from_str("Qm").concat(hex_text(hash).as_str())))
}

/// Metadata of a chain.
#[derive(Debug, Clone)]
pub struct ChainMetadata {
    /// The aggregate the chain belongs to
    pub aggregate_id: Uuid,
    /// Number of events added
    pub length: usize,
    /// Time of the first event
    pub created_at: Timestamp,
    /// Time of the last event
    pub updated_at: Timestamp,
    /// Codec of the content ids
    pub codec: String,
    /// Whether the chain is verified
    pub verified: bool,
}

/// A chain of content-addressed events of one aggregate.
#[derive(Debug, Clone)]
pub struct IpldChainAggregate {
    /// Content id of the newest event ("" while the chain is empty)
    pub root_cid: Cid,
    /// Content ids, newest first
    pub chain: Vec<Cid>,
    /// Each content id to the one added before it
    pub links: StrMap<Cid>,
    /// Each content id to its payload
    pub payloads: StrMap<JsonValue>,
    /// Chain metadata
    pub metadata: ChainMetadata,
}

/// Each content id to the text of the one added before it.
pub open spec fn link_map(links: StrMap<Cid>) -> Map<Seq<char>, Seq<char>> {
    links@.map_values(|c: Cid| c@)
}

/// Following links from `start` for at most `fuel` content ids: the ids met,
/// `start` first.
pub open spec fn link_walk(links: Map<Seq<char>, Seq<char>>, start: Seq<char>, fuel: nat) -> Seq<Seq<char>>
    decreases fuel,
{
    if fuel == 0 {
        Seq::empty()
    } else if links.contains_key(start) {
        seq![start] + link_walk(links, links[start], (fuel - 1) as nat)
    } else {
        seq![start]
    }
}

/// Whether following links from `start` stops (at an id with no link)
/// within `fuel` content ids.
pub open spec fn walk_ends(links: Map<Seq<char>, Seq<char>>, start: Seq<char>, fuel: nat) -> bool
    decreases fuel,
{
    fuel > 0 && (!links.contains_key(start) || walk_ends(links, links[start], (fuel - 1) as nat))
}

/// The content ids met following links from `start`, where that stops.
pub open spec fn chain_walk(links: Map<Seq<char>, Seq<char>>, start: Seq<char>) -> Seq<Seq<char>> {
    link_walk(links, start, choose|f: nat| walk_ends(links, start, f))
}

/// Whether following links from `start` stops within a count of ids that fits
/// in a `usize`.
pub open spec fn walk_stops(links: Map<Seq<char>, Seq<char>>, start: Seq<char>) -> bool {
    exists|f: nat| f <= usize::MAX && walk_ends(links, start, f)
}

/// The first content id of a walk that has no payload.
pub open spec fn first_missing(walk: Seq<Seq<char>>, payloads: Map<Seq<char>, JsonValue>) -> Option<Seq<char>>
    decreases walk.len(),
{
    if walk.len() == 0 {
        None
    } else if !payloads.contains_key(walk[0]) {
        Some(walk[0])
    } else {
        first_missing(walk.drop_first(), payloads)
    }
}

/// The stored events of a chain (newest first), oldest first, each with its payload.
pub open spec fn stored_oldest_first(chain: Seq<Seq<char>>, payloads: Map<Seq<char>, JsonValue>) -> Seq<(Seq<char>, JsonValue)>
    decreases chain.len(),
{
    if chain.len() == 0 {
        Seq::empty()
    } else {
        let rest = stored_oldest_first(chain.drop_first(), payloads);
        if payloads.contains_key(chain[0]) { rest.push((chain[0], payloads[chain[0]])) } else { rest }
    }
}

/// What verifying a chain answers: an empty chain is valid; otherwise the
/// first content id met from the root without a payload is reported, and
/// the walk from the root must meet as many ids as the chain holds.
pub open spec fn verify_answer(chain_len: nat, walk: Seq<Seq<char>>, payloads: Map<Seq<char>, JsonValue>, r: Result<()>) -> bool {
    if chain_len == 0 {
        r is Ok
    } else {
        match first_missing(walk, payloads) {
            Some(c) => r matches Err(GraphError::InvalidOperation(m)) && m@ == "Missing payload for CID: "@ + c,
            None => if walk.len() == chain_len {
                r is Ok
            } else {
                r matches Err(GraphError::InvalidOperation(m)) && m@ == "Chain has disconnected segments"@
            },
        }
    }
}

/// A chain as `new` makes it: no content ids, links or payloads.
pub open spec fn fresh_chain(c: IpldChainAggregate) -> bool {
    &&& c.chain@.len() == 0
    &&& c.links@ == Map::<Seq<char>, Cid>::empty()
    &&& c.payloads@ == Map::<Seq<char>, JsonValue>::empty()
    &&& c.metadata.length == 0
}

/// `after` is `before` with an event added: the payload's content id becomes
/// the root and the newest id, links to the previous newest id, and holds the
/// payload; the recorded length grows by one.
pub open spec fn event_added(before: IpldChainAggregate, after: IpldChainAggregate, payload: JsonValue) -> bool {
    let c = payload_cid(payload@);
    &&& cid_texts(after.chain@) == seq![c] + cid_texts(before.chain@)
    &&& link_map(after.links) == (if before.chain@.len() > 0 {
            link_map(before.links).insert(c, before.chain@[0]@)
        } else {
            link_map(before.links)
        })
    &&& after.payloads@ == before.payloads@.insert(c, payload)
    &&& after.root_cid@ == c
    &&& after.metadata.length == before.metadata.length + 1
    &&& after.metadata.aggregate_id == before.metadata.aggregate_id
    &&& after.metadata.created_at == before.metadata.created_at
    &&& after.metadata.codec == before.metadata.codec
    &&& after.metadata.verified == before.metadata.verified
}

/// A chain as adding events builds it: its recorded length is its length;
/// each content id appears once, has a payload and links to the one added
/// before it; the oldest links nowhere; the root is the newest; and every
/// link starts at an id of the chain.
pub open spec fn well_linked(c: IpldChainAggregate) -> bool {
    let ids = cid_texts(c.chain@);
    let l = link_map(c.links);
    &&& c.metadata.length == ids.len()
    &&& ids.no_duplicates()
    &&& ids.len() > 0 ==> c.root_cid@ == ids[0] && !l.contains_key(ids.last())
    &&& forall|i: int| 0 <= i < ids.len() ==> c.payloads@.contains_key(#[trigger] ids[i])
    &&& forall|i: int| 0 <= i < ids.len() - 1 ==> l.contains_key(#[trigger] ids[i]) && l[ids[i]] == ids[i + 1]
    &&& forall|k: Seq<char>| #[trigger] l.contains_key(k) ==> ids.contains(k)
}

/// Follows links from `start` while they stop: the walk, as content ids.
fn follow_links(links: &StrMap<Cid>, start: &Cid) -> (r: Vec<Cid>)
    requires
        exists|f: nat| walk_ends(link_map(*links), start@, f),
    ensures
        cid_texts(r@) == chain_walk(link_map(*links), start@),
{
    let ghost l = link_map(*links);
    let ghost f0: nat = choose|f: nat| walk_ends(l, start@, f);
    let ghost whole = link_walk(l, start@, f0);
    let mut out: Vec<Cid> = Vec::new();
    let mut current: Cid = start.clone();
    let ghost mut fuel: nat = f0;
    loop
        invariant_except_break
            walk_ends(l, current@, fuel),
            cid_texts(out@) + link_walk(l, current@, fuel) == whole,
        invariant
            l == link_map(*links),
            whole == link_walk(l, start@, f0),
        ensures
            cid_texts(out@) == whole,
        decreases fuel,
    {
        let ghost before = out@;
        let next = match links.get(current.as_str()) {
            Some(c) => Some(c.clone()),
            None => None,
        };
        out.push(current.clone());
        assert(cid_texts(out@) =~= cid_texts(before).push(current@));
        match next {
            Some(c) => {
                proof {
                    assert(l.contains_key(current@) && l[current@] == c@);
                    assert(link_walk(l, current@, fuel) == seq![current@] + link_walk(l, c@, (fuel - 1) as nat));
                    assert(cid_texts(out@) + link_walk(l, c@, (fuel - 1) as nat) =~= cid_texts(before) + link_walk(l, current@, fuel));
                    fuel = (fuel - 1) as nat;
                }
                current = c;
            },
            None => {
                assert(link_walk(l, current@, fuel) == seq![current@]);
                assert(cid_texts(out@) =~= whole);
                break;
            },
        }
    }
    out
}

impl IpldChainAggregate {
    /// An empty chain of an aggregate, with root "" and codec "dag-cbor".
    pub fn new(aggregate_id: Uuid) -> (c: Self)
        ensures
            c.root_cid@ == Seq::<char>::empty(),
            c.chain@.len() == 0,
            c.links@ == Map::<Seq<char>, Cid>::empty(),
            c.payloads@ == Map::<Seq<char>, JsonValue>::empty(),
            c.metadata.aggregate_id == aggregate_id,
            c.metadata.length == 0,
            c.metadata.codec@ == "dag-cbor"@,
            c.metadata.verified,
            fresh_chain(c),
            well_linked(c),
    {
        proof { reveal_strlit(""); }
        IpldChainAggregate {
            root_cid: Cid::new(""),
            chain: Vec::new(),
            links: StrMap::new(),
            payloads: StrMap::new(),
            metadata: ChainMetadata {
                aggregate_id,
                length: 0,
                created_at: Timestamp::now(),
                updated_at: Timestamp::now(),
                codec: String::from_str("dag-cbor"),
                verified: true,
            },
        }
    }

    /// Adds an event: its payload is stored under its content id, which links
    /// to the previous newest id and becomes the root.
    pub fn add_event(&mut self, event_payload: JsonValue) -> (r: Result<Cid>)
        requires
            old(self).metadata.length < usize::MAX,
        ensures
            r matches Ok(c) && c@ == payload_cid(event_payload@),
            event_added(*old(self), *final(self), event_payload),
            well_linked(*old(self)) && !cid_texts(old(self).chain@).contains(payload_cid(event_payload@))
                ==> well_linked(*final(self)),
    {
        let cid = match self.generate_cid(&event_payload) {
            Ok(c) => c,
            Err(e) => return Err(e),
        };
        if self.chain.len() > 0 {
            let previous = self.chain[0].clone();
            let ghost l0 = link_map(self.links);
            self.links.insert(cid.to_string(), previous);
            assert(link_map(self.links) =~= l0.insert(cid@, old(self).chain@[0]@));
        }
        self.payloads.insert(cid.to_string(), event_payload);
        let ghost c0 = self.chain@;
        self.chain.insert(0, cid.clone());
        assert(cid_texts(self.chain@) =~= seq![cid@] + cid_texts(c0));
        self.root_cid = cid.clone();
        self.metadata.length = self.metadata.length + 1;
        self.metadata.updated_at = Timestamp::now();
        proof {
            if well_linked(*old(self)) && !cid_texts(old(self).chain@).contains(cid@) {
                lemma_add_keeps_linked(*old(self), *self, cid@, event_payload);
            }
        }
        Ok(cid)
    }

    /// The content id of a payload.
    fn generate_cid(&self, payload: &JsonValue) -> (r: Result<Cid>)
        ensures
            r matches Ok(c) && c@ == payload_cid(payload@),
    {
        generate_cid_for_payload(payload)
    }

    /// The content id added before `cid`.
    pub fn get_previous(&self, cid: &Cid) -> (r: Option<&Cid>)
        ensures
            match r {
                Some(p) => link_map(self.links).contains_key(cid@) && p@ == link_map(self.links)[cid@],
                None => !link_map(self.links).contains_key(cid@),
            },
    {
        self.links.get(cid.as_str())
    }

    /// The payload stored under `cid`.
    pub fn get_payload(&self, cid: &Cid) -> (r: Option<&JsonValue>)
        ensures
            match r {
                Some(p) => self.payloads@.contains_key(cid@) && *p == self.payloads@[cid@],
                None => !self.payloads@.contains_key(cid@),
            },
    {
        self.payloads.get(cid.as_str())
    }

    /// Verifies the chain: every content id met following links from the
    /// root has a payload, and as many ids are met as the chain holds.
    pub fn verify_chain(&self) -> (r: Result<()>)
        requires
            self.chain@.len() > 0 ==> walk_stops(link_map(self.links), self.root_cid@),
        ensures
            verify_answer(self.chain@.len() as nat, chain_walk(link_map(self.links), self.root_cid@), self.payloads@, r),
    {
        if self.chain.len() == 0 {
            return Ok(());
        }
        let ghost l = link_map(self.links);
        let ghost f0: nat = choose|f: nat| f <= usize::MAX && walk_ends(l, self.root_cid@, f);
        let ghost whole = link_walk(l, self.root_cid@, f0);
        proof {
            let c = choose|f: nat| walk_ends(l, self.root_cid@, f);
            lemma_walk_ends_monotone(l, self.root_cid@, f0, c);
            assert(whole == chain_walk(l, self.root_cid@));
            lemma_link_walk_len(l, self.root_cid@, f0);
            assert(whole.subrange(0, whole.len() as int) =~= whole);
        }
        let mut current: Cid = self.root_cid.clone();
        let mut visited: usize = 0;
        let ghost mut fuel: nat = f0;
        loop
            invariant_except_break
                walk_ends(l, current@, fuel),
                visited + fuel == f0,
                visited <= whole.len(),
                whole.subrange(visited as int, whole.len() as int) == link_walk(l, current@, fuel),
                first_missing(whole, self.payloads@) == first_missing(link_walk(l, current@, fuel), self.payloads@),
            invariant
                l == link_map(self.links),
                whole == link_walk(l, self.root_cid@, f0),
                whole == chain_walk(l, self.root_cid@),
                f0 <= usize::MAX,
                whole.len() <= f0,
                self.chain@.len() > 0,
            ensures
                visited == whole.len(),
                first_missing(whole, self.payloads@) is None,
            decreases fuel,
        {
            proof { lemma_link_walk_len(l, current@, fuel); }
            let ghost here = link_walk(l, current@, fuel);
            if !self.payloads.contains_key(current.as_str()) {
                let mut m = String::from_str("Missing payload for CID: ");
                m.append(current.as_str());
                proof {
                    reveal_strlit("Missing payload for CID: ");
                    assert(first_missing(here, self.payloads@) == Some(current@));
                    assert(first_missing(whole, self.payloads@) == Some(current@));
                    assert(m@ == "Missing payload for CID: "@ + current@);
                    assert(self.chain@.len() > 0);
                }
                return Err(GraphError::InvalidOperation(m));
            }
            assert(first_missing(here, self.payloads@) == first_missing(here.drop_first(), self.payloads@));
            visited = visited + 1;
            match self.links.get(current.as_str()) {
                Some(c) => {
                    proof {
                        assert(here == seq![current@] + link_walk(l, c@, (fuel - 1) as nat));
                        assert(here.drop_first() =~= link_walk(l, c@, (fuel - 1) as nat));
                        assert(whole.subrange(visited as int, whole.len() as int)
                            =~= whole.subrange(visited - 1, whole.len() as int).drop_first());
                        fuel = (fuel - 1) as nat;
                    }
                    current = c.clone();
                },
                None => {
                    assert(here == seq![current@]);
                    assert(here.drop_first() =~= Seq::<Seq<char>>::empty());
                    assert(whole.subrange(visited - 1, whole.len() as int).len() == 1);
                    break;
                },
            }
        }
        if visited != self.chain.len() {
            proof { reveal_strlit("Chain has disconnected segments"); }
            return Err(GraphError::InvalidOperation(String::from_str("Chain has disconnected segments")));
        }
        Ok(())
    }

    /// The stored events, oldest first, each with its payload.
    pub fn get_events_ordered(&self) -> (r: Vec<(&Cid, &JsonValue)>)
        ensures
            r@.map_values(|e: (&Cid, &JsonValue)| (e.0@, *e.1)) == stored_oldest_first(cid_texts(self.chain@), self.payloads@),
    {
        let ghost all = cid_texts(self.chain@);
        let mut out: Vec<(&Cid, &JsonValue)> = Vec::new();
        let mut i: usize = self.chain.len();
        while i > 0
            invariant
                i <= self.chain@.len(),
                all == cid_texts(self.chain@),
                out@.map_values(|e: (&Cid, &JsonValue)| (e.0@, *e.1)) == stored_oldest_first(all.skip(i as int), self.payloads@),
            decreases i,
        {
            i = i - 1;
            let cid = &self.chain[i];
            assert(all.skip(i as int).drop_first() =~= all.skip(i + 1));
            assert(all.skip(i as int)[0] == cid@);
            let ghost before = out@;
            match self.payloads.get(cid.as_str()) {
                Some(p) => {
                    out.push((cid, p));
                    assert(out@.map_values(|e: (&Cid, &JsonValue)| (e.0@, *e.1))
                        =~= before.map_values(|e: (&Cid, &JsonValue)| (e.0@, *e.1)).push((cid@, *p)));
                },
                None => {},
            }
        }
        assert(all.skip(0) =~= all);
        out
    }

    /// Whether the links form a DAG: no content id leads back to itself.
    pub fn is_dag(&self) -> (b: bool)
        ensures
            b == !has_cycle(link_map(self.links)),
    {
        let ghost l = link_map(self.links);
        proof {
            use_type_invariant(&self.links);
            self.links.lemma_view();
            assert(l.dom() =~= self.links@.dom());
        }
        let n = self.links.len();
        let mut i: usize = 0;
        while i < n
            invariant
                l == link_map(self.links),
                n == self.links.entry_seq().len(),
                l.dom().finite(),
                l.dom().len() == n,
                l.dom() == self.links.key_list().to_set(),
                self.links.key_list().len() == n,
                forall|j: int| 0 <= j < self.links.entry_seq().len() ==>
                    #[trigger] self.links.key_list()[j] == self.links.entry_seq()[j].0@,
                forall|j: int| 0 <= j < i ==> walk_ends(l, #[trigger] self.links.key_list()[j], (n + 1) as nat),
            decreases n - i,
        {
            let k = self.links.key_at(i);
            assert(self.links.key_list()[i as int] == k@);
            if !walk_ends_within(&self.links, k.as_str(), n) {
                proof { lemma_long_walk_cycles(l, k@, n as nat); }
                return false;
            }
            i = i + 1;
        }
        proof {
            if has_cycle(l) {
                let c = choose|c: Seq<char>| on_cycle(l, c);
                let p = choose|p: nat| p >= 1 && #[trigger] hop(l, c, p) == c
                    && forall|m: nat| m < p ==> l.contains_key(#[trigger] hop(l, c, m));
                assert(hop(l, c, 0) == c);
                assert(l.contains_key(c));
                assert(self.links.key_list().contains(c));
                let j = choose|j: int| 0 <= j < self.links.key_list().len() && self.links.key_list()[j] == c;
                lemma_cycle_never_ends(l, c, p, 0, (n + 1) as nat);
                assert(walk_ends(l, self.links.key_list()[j], (n + 1) as nat));
            }
        }
        true
    }

    /// Pins a content id; it must have a payload.
    pub fn pin_cid(&mut self, cid: &Cid) -> (r: Result<()>)
        ensures
            *final(self) == *old(self),
            old(self).payloads@.contains_key(cid@) ==> r is Ok,
            !old(self).payloads@.contains_key(cid@) ==>
                (r matches Err(GraphError::InvalidOperation(m)) && m@ == "Cannot pin non-existent CID: "@ + cid@),
    {
        if !self.payloads.contains_key(cid.as_str()) {
            let mut m = String::from_str("Cannot pin non-existent CID: ");
            m.append(cid.as_str());
            proof { reveal_strlit("Cannot pin non-existent CID: "); }
            return Err(GraphError::InvalidOperation(m));
        }
        Ok(())
    }

    /// Unpins a content id; it must have a payload.
    pub fn unpin_cid(&mut self, cid: &Cid) -> (r: Result<()>)
        ensures
            *final(self) == *old(self),
            old(self).payloads@.contains_key(cid@) ==> r is Ok,
            !old(self).payloads@.contains_key(cid@) ==>
                (r matches Err(GraphError::InvalidOperation(m)) && m@ == "Cannot unpin non-existent CID: "@ + cid@),
    {
        if !self.payloads.contains_key(cid.as_str()) {
            let mut m = String::from_str("Cannot unpin non-existent CID: ");
            m.append(cid.as_str());
            proof { reveal_strlit("Cannot unpin non-existent CID: "); }
            return Err(GraphError::InvalidOperation(m));
        }
        Ok(())
    }
}

/// The content id reached from `k` after following `i` links.
pub open spec fn hop(links: Map<Seq<char>, Seq<char>>, k: Seq<char>, i: nat) -> Seq<char>
    decreases i,
{
    if i == 0 {
        k
    } else {
        links[hop(links, k, (i - 1) as nat)]
    }
}

/// Following links from `k` comes back to `k`.
pub open spec fn on_cycle(links: Map<Seq<char>, Seq<char>>, k: Seq<char>) -> bool {
    exists|p: nat| p >= 1 && #[trigger] hop(links, k, p) == k
        && forall|m: nat| m < p ==> links.contains_key(#[trigger] hop(links, k, m))
}

/// Some content id leads back to itself.
pub open spec fn has_cycle(links: Map<Seq<char>, Seq<char>>) -> bool {
    exists|k: Seq<char>| on_cycle(links, k)
}

/// Whether following links from `start` stops within `n + 1` content ids.
pub(crate) fn walk_ends_within(links: &StrMap<Cid>, start: &str, n: usize) -> (b: bool)
    ensures
        b == walk_ends(link_map(*links), start@, (n + 1) as nat),
{
    let ghost l = link_map(*links);
    let mut current = String::from_str(start);
    let mut steps: usize = 0;
    while steps < n
        invariant
            l == link_map(*links),
            steps <= n,
            walk_ends(l, start@, (n + 1) as nat) == walk_ends(l, current@, (n + 1 - steps) as nat),
        decreases n - steps,
    {
        match links.get(current.as_str()) {
            None => {
                return true;
            },
            Some(c) => {
                let next = String::from_str(c.as_str());
                assert(l.contains_key(current@) && l[current@] == next@);
                current = next;
            },
        }
        steps = steps + 1;
    }
    proof {
        if l.contains_key(current@) {
            assert(!walk_ends(l, l[current@], 0));
        }
    }
    !links.contains_key(current.as_str())
}

/// Following `i` links and then `j` more is following `i + j` links.
proof fn lemma_hop_add(l: Map<Seq<char>, Seq<char>>, k: Seq<char>, i: nat, j: nat)
    ensures
        hop(l, k, i + j) == hop(l, hop(l, k, i), j),
    decreases j,
{
    if j > 0 {
        lemma_hop_add(l, k, i, (j - 1) as nat);
        assert(hop(l, k, i + j) == l[hop(l, k, (i + j - 1) as nat)]);
    }
}

/// Every id met going round a cycle is linked onward.
proof fn lemma_cycle_all_linked(l: Map<Seq<char>, Seq<char>>, c: Seq<char>, p: nat, m: nat)
    requires
        p >= 1,
        hop(l, c, p) == c,
        forall|q: nat| q < p ==> l.contains_key(#[trigger] hop(l, c, q)),
    ensures
        l.contains_key(hop(l, c, m)),
    decreases m,
{
    if m >= p {
        lemma_hop_add(l, c, p, (m - p) as nat);
        lemma_cycle_all_linked(l, c, p, (m - p) as nat);
    }
}

/// A walk from an id on a cycle never stops.
proof fn lemma_cycle_never_ends(l: Map<Seq<char>, Seq<char>>, c: Seq<char>, p: nat, m: nat, f: nat)
    requires
        p >= 1,
        hop(l, c, p) == c,
        forall|q: nat| q < p ==> l.contains_key(#[trigger] hop(l, c, q)),
    ensures
        !walk_ends(l, hop(l, c, m), f),
    decreases f,
{
    if f > 0 {
        lemma_cycle_all_linked(l, c, p, m);
        lemma_cycle_never_ends(l, c, p, m + 1, (f - 1) as nat);
        assert(hop(l, c, m + 1) == l[hop(l, c, m)]);
    }
}

/// A walk that does not stop within `f` ids is linked onward at each of its
/// first `f` ids.
proof fn lemma_unended_walk_linked(l: Map<Seq<char>, Seq<char>>, k: Seq<char>, f: nat, m: nat)
    requires
        !walk_ends(l, k, f),
        m < f,
    ensures
        l.contains_key(hop(l, k, m)),
    decreases f,
{
    assert(hop(l, k, 0) == k);
    if m > 0 {
        lemma_unended_walk_linked(l, l[k], (f - 1) as nat, (m - 1) as nat);
        lemma_hop_add(l, k, 1, (m - 1) as nat);
        assert(hop(l, k, 1) == l[k]);
    }
}

/// A walk that meets more linked ids than there are links comes back to an
/// id it met before.
proof fn lemma_long_walk_cycles(l: Map<Seq<char>, Seq<char>>, k: Seq<char>, n: nat)
    requires
        l.dom().finite(),
        l.dom().len() == n,
        !walk_ends(l, k, n + 1),
    ensures
        has_cycle(l),
{
    let s = Seq::new(n + 1, |m: int| hop(l, k, m as nat));
    assert forall|m: int| 0 <= m < s.len() implies l.contains_key(#[trigger] s[m]) by {
        lemma_unended_walk_linked(l, k, n + 1, m as nat);
    }
    if s.no_duplicates() {
        s.unique_seq_to_set();
        assert forall|x: Seq<char>| s.to_set().contains(x) implies l.dom().contains(x) by {
            let m = choose|m: int| 0 <= m < s.len() && s[m] == x;
        }
        vstd::set_lib::lemma_len_subset(s.to_set(), l.dom());
    } else {
        let (i, j) = choose|i: int, j: int| 0 <= i < s.len() && 0 <= j < s.len() && i != j && s[i] == s[j];
        let a: int = if i < j { i } else { j };
        let b: int = if i < j { j } else { i };
        let c = hop(l, k, a as nat);
        let p = (b - a) as nat;
        lemma_hop_add(l, k, a as nat, p);
        assert(s[a] == c && s[b] == hop(l, k, b as nat));
        assert(hop(l, c, p) == c);
        assert forall|q: nat| q < p implies l.contains_key(#[trigger] hop(l, c, q)) by {
            lemma_hop_add(l, k, a as nat, q);
            lemma_unended_walk_linked(l, k, n + 1, (a + q) as nat);
        }
        assert(on_cycle(l, c));
    }
}

/// Adding an event under a new content id keeps a chain well linked.
proof fn lemma_add_keeps_linked(before: IpldChainAggregate, after: IpldChainAggregate, c: Seq<char>, p: JsonValue)
    requires
        well_linked(before),
        !cid_texts(before.chain@).contains(c),
        cid_texts(after.chain@) == seq![c] + cid_texts(before.chain@),
        link_map(after.links) == (if before.chain@.len() > 0 {
            link_map(before.links).insert(c, before.chain@[0]@)
        } else {
            link_map(before.links)
        }),
        after.payloads@ == before.payloads@.insert(c, p),
        after.root_cid@ == c,
        after.metadata.length == before.metadata.length + 1,
    ensures
        well_linked(after),
{
    let ids = cid_texts(before.chain@);
    let nids = cid_texts(after.chain@);
    let l = link_map(before.links);
    let nl = link_map(after.links);
    assert(nids.len() == ids.len() + 1);
    assert forall|i: int| 0 < i < nids.len() implies #[trigger] nids[i] == ids[i - 1] && nids[i] != c by {
        assert(nids[i] == ids[i - 1]);
        assert(ids.contains(ids[i - 1]));
    }
    assert(nids[0] == c);
    assert forall|i: int, j: int| 0 <= i < nids.len() && 0 <= j < nids.len() && i != j implies nids[i] != nids[j] by {
        if i > 0 && j > 0 {
            assert(nids[i] == ids[i - 1] && nids[j] == ids[j - 1]);
        }
    }
    assert forall|i: int| 0 <= i < nids.len() implies after.payloads@.contains_key(#[trigger] nids[i]) by {
        if i > 0 {
            assert(nids[i] == ids[i - 1]);
        }
    }
    assert forall|i: int| 0 <= i < nids.len() - 1 implies nl.contains_key(#[trigger] nids[i]) && nl[nids[i]] == nids[i + 1] by {
        if i == 0 {
            assert(ids[0] == before.chain@[0]@);
        } else {
            assert(nids[i] == ids[i - 1] && nids[i + 1] == ids[i]);
        }
    }
    assert forall|k: Seq<char>| #[trigger] nl.contains_key(k) implies nids.contains(k) by {
        if k != c {
            assert(l.contains_key(k));
            let m = choose|m: int| 0 <= m < ids.len() && ids[m] == k;
            assert(nids[m + 1] == k);
        }
    }
    if ids.len() > 0 {
        assert(nids.last() == ids.last());
        assert(ids.contains(ids.last()));
    } else {
        assert(nids.last() == c);
        if l.contains_key(c) {
            assert(ids.contains(c));
        }
    }
}

/// From the `j`-th content id of a well-linked chain, following links meets
/// the rest of the chain and then stops.
proof fn lemma_linked_walk(c: IpldChainAggregate, j: int)
    requires
        well_linked(c),
        0 <= j < c.chain@.len(),
    ensures
        walk_ends(link_map(c.links), cid_texts(c.chain@)[j], (c.chain@.len() - j) as nat),
        link_walk(link_map(c.links), cid_texts(c.chain@)[j], (c.chain@.len() - j) as nat)
            == cid_texts(c.chain@).subrange(j, c.chain@.len() as int),
    decreases c.chain@.len() - j,
{
    let ids = cid_texts(c.chain@);
    let l = link_map(c.links);
    let f = (c.chain@.len() - j) as nat;
    if j == ids.len() - 1 {
        assert(ids[j] == ids.last());
        assert(ids.subrange(j, ids.len() as int) =~= seq![ids[j]]);
    } else {
        lemma_linked_walk(c, j + 1);
        assert(l.contains_key(ids[j]) && l[ids[j]] == ids[j + 1]);
        assert(link_walk(l, ids[j], f) == seq![ids[j]] + link_walk(l, ids[j + 1], (f - 1) as nat));
        assert(ids.subrange(j, ids.len() as int) =~= seq![ids[j]] + ids.subrange(j + 1, ids.len() as int));
    }
}

/// No content id of a sequence is missing a payload when each has one.
proof fn lemma_none_missing(walk: Seq<Seq<char>>, payloads: Map<Seq<char>, JsonValue>)
    requires
        forall|i: int| 0 <= i < walk.len() ==> payloads.contains_key(#[trigger] walk[i]),
    ensures
        first_missing(walk, payloads) is None,
    decreases walk.len(),
{
    if walk.len() > 0 {
        assert(payloads.contains_key(walk[0]));
        assert forall|i: int| 0 <= i < walk.drop_first().len() implies payloads.contains_key(#[trigger] walk.drop_first()[i]) by {
            assert(walk.drop_first()[i] == walk[i + 1]);
        }
        lemma_none_missing(walk.drop_first(), payloads);
    }
}

/// A well-linked chain verifies: following links from its root stops,
/// meeting its content ids newest first, each with a payload, so verifying
/// it answers `Ok`.
pub proof fn law_well_linked_chain_verifies(c: IpldChainAggregate)
    requires
        well_linked(c),
    ensures
        c.chain@.len() > 0 ==> walk_stops(link_map(c.links), c.root_cid@),
        c.chain@.len() > 0 ==> chain_walk(link_map(c.links), c.root_cid@) == cid_texts(c.chain@),
        forall|r: Result<()>| #[trigger] verify_answer(c.chain@.len() as nat,
            chain_walk(link_map(c.links), c.root_cid@), c.payloads@, r) ==> r is Ok,
{
    let ids = cid_texts(c.chain@);
    let l = link_map(c.links);
    if ids.len() > 0 {
        let n = ids.len();
        lemma_linked_walk(c, 0);
        assert(ids.subrange(0, n as int) =~= ids);
        assert(ids[0] == c.root_cid@);
        assert(walk_stops(l, c.root_cid@));
        let f = choose|f: nat| walk_ends(l, c.root_cid@, f);
        lemma_walk_ends_monotone(l, c.root_cid@, n, f);
        assert(chain_walk(l, c.root_cid@) == ids);
        lemma_none_missing(ids, c.payloads@);
    }
}

/// After the first `m` of a run of adds under distinct content ids, the chain
/// is well linked, holds `m` ids, and each is the id of one of the first `m`
/// payloads.
proof fn lemma_built_prefix(chains: Seq<IpldChainAggregate>, payloads: Seq<JsonValue>, m: int)
    requires
        chains.len() == payloads.len() + 1,
        fresh_chain(chains[0]),
        forall|k: int| #![trigger payloads[k]] 0 <= k < payloads.len() ==> event_added(chains[k], chains[k + 1], payloads[k]),
        forall|j: int, k: int| 0 <= j < k < payloads.len() ==>
            payload_cid(#[trigger] payloads[j]@) != payload_cid(#[trigger] payloads[k]@),
        0 <= m <= payloads.len(),
    ensures
        well_linked(chains[m]),
        chains[m].chain@.len() == m,
        forall|x: Seq<char>| #[trigger] cid_texts(chains[m].chain@).contains(x) ==>
            exists|j: int| 0 <= j < m && x == payload_cid(payloads[j]@),
    decreases m,
{
    if m == 0 {
        let c = chains[0];
        assert(cid_texts(c.chain@) =~= Seq::<Seq<char>>::empty());
        assert(link_map(c.links) =~= Map::<Seq<char>, Seq<char>>::empty());
    } else {
        lemma_built_prefix(chains, payloads, m - 1);
        let before = chains[m - 1];
        let after = chains[m];
        let p = payloads[m - 1];
        let c = payload_cid(p@);
        assert(event_added(before, after, p));
        if cid_texts(before.chain@).contains(c) {
            let j = choose|j: int| 0 <= j < m - 1 && c == payload_cid(payloads[j]@);
            assert(payload_cid(payloads[j]@) != payload_cid(payloads[m - 1]@));
        }
        lemma_add_keeps_linked(before, after, c, p);
        assert forall|x: Seq<char>| #[trigger] cid_texts(after.chain@).contains(x) implies
            exists|j: int| 0 <= j < m && x == payload_cid(payloads[j]@) by {
            let i = choose|i: int| 0 <= i < cid_texts(after.chain@).len() && cid_texts(after.chain@)[i] == x;
            if i == 0 {
                assert(x == payload_cid(payloads[m - 1]@));
            } else {
                assert(cid_texts(before.chain@)[i - 1] == x);
                assert(cid_texts(before.chain@).contains(x));
            }
        }
    }
}

/// A chain made by `new` and then one `add_event` for each payload, whose
/// content ids are pairwise distinct, verifies, and holds as many content
/// ids as its recorded length: one per payload.
pub proof fn law_chain_built_by_adding_verifies(chains: Seq<IpldChainAggregate>, payloads: Seq<JsonValue>)
    requires
        chains.len() == payloads.len() + 1,
        fresh_chain(chains[0]),
        forall|k: int| #![trigger payloads[k]] 0 <= k < payloads.len() ==> event_added(chains[k], chains[k + 1], payloads[k]),
        forall|j: int, k: int| 0 <= j < k < payloads.len() ==>
            payload_cid(#[trigger] payloads[j]@) != payload_cid(#[trigger] payloads[k]@),
    ensures
        chains.last().chain@.len() == payloads.len(),
        chains.last().metadata.length == payloads.len(),
        chains.last().chain@.len() > 0 ==> walk_stops(link_map(chains.last().links), chains.last().root_cid@),
        forall|r: Result<()>| #[trigger] verify_answer(chains.last().chain@.len() as nat,
            chain_walk(link_map(chains.last().links), chains.last().root_cid@), chains.last().payloads@, r) ==> r is Ok,
{
    lemma_built_prefix(chains, payloads, payloads.len() as int);
    law_well_linked_chain_verifies(chains.last());
}

/// A walk that stops within some fuel stops within any larger fuel, and
/// meets the same ids.
proof fn lemma_walk_ends_monotone(l: Map<Seq<char>, Seq<char>>, s: Seq<char>, f: nat, g: nat)
    requires
        walk_ends(l, s, f),
        walk_ends(l, s, g),
    ensures
        link_walk(l, s, f) == link_walk(l, s, g),
        f <= g || g <= f,
    decreases f,
{
    if l.contains_key(s) {
        lemma_walk_ends_monotone(l, l[s], (f - 1) as nat, (g - 1) as nat);
    }
}

/// A walk meets at most as many ids as its fuel, and at least one.
proof fn lemma_link_walk_len(l: Map<Seq<char>, Seq<char>>, s: Seq<char>, f: nat)
    ensures
        link_walk(l, s, f).len() <= f,
        f > 0 ==> link_walk(l, s, f).len() > 0 && link_walk(l, s, f)[0] == s,
    decreases f,
{
    if f > 0 && l.contains_key(s) {
        lemma_link_walk_len(l, l[s], (f - 1) as nat);
    }
}

/// The Merkle proof of a content id: the ids met following links from it
/// back to the first event.
pub fn create_merkle_proof(chain: &IpldChainAggregate, target_cid: &Cid) -> (r: Result<Vec<Cid>>)
    requires
        exists|f: nat| walk_ends(link_map(chain.links), target_cid@, f),
    ensures
        r matches Ok(p) && cid_texts(p@) == chain_walk(link_map(chain.links), target_cid@),
{
    Ok(follow_links(&chain.links, target_cid))
}

/// Commands on a chain.
#[derive(Debug, Clone)]
pub enum IpldChainCommand {
    /// Add an event
    AddEvent {
        /// The chain's aggregate
        aggregate_id: Uuid,
        /// The event payload
        payload: JsonValue,
    },
    /// Verify the chain
    VerifyChain {
        /// The chain's aggregate
        aggregate_id: Uuid,
    },
    /// Pin a content id
    PinCid {
        /// The chain's aggregate
        aggregate_id: Uuid,
        /// The id
        cid: Cid,
    },
    /// Unpin a content id
    UnpinCid {
        /// The chain's aggregate
        aggregate_id: Uuid,
        /// The id
        cid: Cid,
    },
}

/// Events of a chain.
#[derive(Debug, Clone)]
pub enum IpldChainEvent {
    /// An event was added
    EventAdded {
        /// The chain's aggregate
        aggregate_id: Uuid,
        /// Its content id
        cid: Cid,
        /// The id added before it
        previous_cid: Option<Cid>,
        /// Its place in the chain
        sequence: usize,
    },
    /// The chain was verified
    ChainVerified {
        /// The chain's aggregate
        aggregate_id: Uuid,
        /// The root
        root_cid: Cid,
        /// Number of events
        length: usize,
        /// Whether it is valid
        is_valid: bool,
    },
    /// A content id was pinned
    CidPinned {
        /// The chain's aggregate
        aggregate_id: Uuid,
        /// The id
        cid: Cid,
    },
    /// A content id was unpinned
    CidUnpinned {
        /// The chain's aggregate
        aggregate_id: Uuid,
        /// The id
        cid: Cid,
    },
}

/// The walk from an id (a Merkle proof) starts at that id, follows each link
/// to the id added before, and stops at an id with no link.
pub proof fn law_walk_follows_links(links: Map<Seq<char>, Seq<char>>, start: Seq<char>)
    requires
        exists|f: nat| walk_ends(links, start, f),
    ensures
        chain_walk(links, start).len() > 0,
        chain_walk(links, start)[0] == start,
        forall|i: int| 0 <= i < chain_walk(links, start).len() - 1 ==>
            links.contains_key(#[trigger] chain_walk(links, start)[i]) && links[chain_walk(links, start)[i]] == chain_walk(links, start)[i + 1],
        !links.contains_key(chain_walk(links, start).last()),
{
    let f = choose|f: nat| walk_ends(links, start, f);
    lemma_walk_links(links, start, f);
}

/// A walk that stops follows links and ends at an id with no link.
proof fn lemma_walk_links(l: Map<Seq<char>, Seq<char>>, s: Seq<char>, f: nat)
    requires
        walk_ends(l, s, f),
    ensures
        link_walk(l, s, f).len() > 0,
        link_walk(l, s, f)[0] == s,
        forall|i: int| 0 <= i < link_walk(l, s, f).len() - 1 ==>
            l.contains_key(#[trigger] link_walk(l, s, f)[i]) && l[link_walk(l, s, f)[i]] == link_walk(l, s, f)[i + 1],
        !l.contains_key(link_walk(l, s, f).last()),
    decreases f,
{
    if l.contains_key(s) {
        lemma_walk_links(l, l[s], (f - 1) as nat);
        let rest = link_walk(l, l[s], (f - 1) as nat);
        let w = link_walk(l, s, f);
        assert(w == seq![s] + rest);
        assert forall|i: int| 0 <= i < w.len() - 1 implies
            l.contains_key(#[trigger] w[i]) && l[w[i]] == w[i + 1] by {
            if i > 0 {
                assert(w[i] == rest[i - 1]);
                assert(w[i + 1] == rest[i]);
            }
        }
        assert(w.last() == rest.last());
    }
}

/// Each content id of a walk with no missing payload has one.
proof fn lemma_none_missing_all_present(walk: Seq<Seq<char>>, payloads: Map<Seq<char>, JsonValue>)
    requires
        first_missing(walk, payloads) is None,
    ensures
        forall|i: int| 0 <= i < walk.len() ==> payloads.contains_key(#[trigger] walk[i]),
    decreases walk.len(),
{
    if walk.len() > 0 {
        lemma_none_missing_all_present(walk.drop_first(), payloads);
        assert forall|i: int| 0 <= i < walk.len() implies payloads.contains_key(#[trigger] walk[i]) by {
            if i > 0 {
                assert(walk[i] == walk.drop_first()[i - 1]);
            }
        }
    }
}

/// Verifying a non-empty chain answers `Ok` only when the walk of links from
/// the root meets exactly as many content ids as the chain holds, each with
/// a payload; a walk that meets fewer or more ids is rejected.
pub proof fn law_verified_chain_is_whole(chain_len: nat, walk: Seq<Seq<char>>, payloads: Map<Seq<char>, JsonValue>, r: Result<()>)
    requires
        chain_len > 0,
        verify_answer(chain_len, walk, payloads, r),
    ensures
        r is Ok ==> walk.len() == chain_len,
        r is Ok ==> forall|i: int| 0 <= i < walk.len() ==> payloads.contains_key(#[trigger] walk[i]),
        walk.len() != chain_len ==> r is Err,
{
    if first_missing(walk, payloads) is None {
        lemma_none_missing_all_present(walk, payloads);
    }
}

} // verus!
