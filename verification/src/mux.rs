//! The multiplexing agent: which upstream agent serves each request.
//!
//! The agent keeps the socket paths of its upstream agents, in the order they
//! were configured, and a table from each public key it has seen to the
//! upstream agent that offered it. Talking to the upstream agents is left to
//! the caller: each operation here is a step that says whom to ask next and
//! what to answer, given what the upstream agents replied.

use vstd::prelude::*;

use crate::known_keys::KnownKeys;
use crate::text::str_eq;

verus! {

/// A public key offered by an agent: its SSH wire encoding and its comment.
pub struct Identity {
    pub key: Vec<u8>,
    pub comment: String,
}

/// What one upstream agent answered when asked for its identities.
pub enum Listing<E> {
    /// No connection to the agent could be made.
    Unreachable,
    /// The agent listed these identities.
    Listed(Vec<Identity>),
    /// The agent was reached, but the request failed with this error.
    Failed(E),
}

/// Errors the multiplexer itself reports to its client.
pub enum MuxError {
    /// No upstream agent offers the key to sign with; carries the key's
    /// fingerprint where the key could be decoded.
    NoAgentForKey { fingerprint: Option<String> },
    /// The requested extension is unknown, or no upstream agent supported it.
    ExtensionFailure,
    /// No upstream agent accepted the request.
    Failure,
}

/// Name for the fingerprint that `ssh_key` computes, with its default hash
/// (SHA-256), of the public key whose SSH wire encoding is `blob`, as text;
/// `None` where `blob` is not the encoding of a public key.
pub uninterp spec fn ssh_key_fingerprint(blob: Seq<u8>) -> Option<Seq<char>>;

/// Fingerprint of an encoded public key: calls `ssh_key::PublicKey::from_bytes`
/// and then `PublicKey::fingerprint` with the default hash, rendered by its
/// `Display`. The contract only ties the result to the name above.
#[verifier::external_body]
fn key_fingerprint(blob: &Vec<u8>) -> (r: Option<String>)
    ensures
        match r {
            Some(f) => ssh_key_fingerprint(blob@) == Some(f@),
            None => ssh_key_fingerprint(blob@) is None,
        },
{
    match ssh_key::PublicKey::from_bytes(blob) {
        Ok(key) => Some(key.fingerprint(ssh_key::HashAlg::default()).to_string()),
        Err(_) => None,
    }
}

/// The text of a `MuxError` as the client sees it.
pub open spec fn mux_error_text(e: MuxError) -> Seq<char> {
    match e {
        MuxError::NoAgentForKey { fingerprint: Some(f) } => "No agent found for public key: "@ + f@,
        MuxError::NoAgentForKey { fingerprint: None } => "No agent found for public key"@,
        MuxError::ExtensionFailure => "Generic agent extension failure"@,
        MuxError::Failure => "Generic agent failure"@,
    }
}

impl MuxError {
    /// The error for a signing request whose key no upstream agent offers.
    pub fn no_agent_for_key(key: &Vec<u8>) -> (e: MuxError)
        ensures
            e matches MuxError::NoAgentForKey { fingerprint } && match fingerprint {
                Some(f) => ssh_key_fingerprint(key@) == Some(f@),
                None => ssh_key_fingerprint(key@) is None,
            },
    {
        MuxError::NoAgentForKey { fingerprint: key_fingerprint(key) }
    }

    /// Human-readable description of the error.
    pub fn message(&self) -> (m: String)
        ensures
            m@ == mux_error_text(*self),
    {
        match self {
            MuxError::NoAgentForKey { fingerprint: Some(f) } => {
                let mut m = String::from_str("No agent found for public key: ");
                m.append(f.as_str());
                m
            },
            MuxError::NoAgentForKey { fingerprint: None } => String::from_str(
                "No agent found for public key",
            ),
            MuxError::ExtensionFailure => String::from_str("Generic agent extension failure"),
            MuxError::Failure => String::from_str("Generic agent failure"),
        }
    }
}

/// `known` after recording that `agent` offers each of `ids`, in order: a
/// key already in the table keeps its agent.
pub open spec fn record_identities(
    known: Map<Seq<u8>, usize>,
    ids: Seq<Identity>,
    agent: usize,
) -> Map<Seq<u8>, usize>
    decreases ids.len(),
{
    if ids.len() == 0 {
        known
    } else {
        let prev = record_identities(known, ids.drop_last(), agent);
        if prev.contains_key(ids.last().key@) {
            prev
        } else {
            prev.insert(ids.last().key@, agent)
        }
    }
}

/// The table built from the listings of the first `listings.len()` agents,
/// starting from an empty table: each listed key maps to the first agent, in
/// configuration order, that listed it.
pub open spec fn table_after(listings: Seq<Listing<()>>) -> Map<Seq<u8>, usize>
    decreases listings.len(),
{
    if listings.len() == 0 {
        Map::empty()
    } else {
        let prev = table_after(listings.drop_last());
        match listings.last() {
            Listing::Listed(ids) => record_identities(prev, ids@, (listings.len() - 1) as usize),
            _ => prev,
        }
    }
}

/// The identities offered, in agent order then in each agent's order.
pub open spec fn offered_after(listings: Seq<Listing<()>>) -> Seq<Identity>
    decreases listings.len(),
{
    if listings.len() == 0 {
        Seq::empty()
    } else {
        let prev = offered_after(listings.drop_last());
        match listings.last() {
            Listing::Listed(ids) => prev + ids@,
            _ => prev,
        }
    }
}

/// Some identity in `ids` has the key `k`.
pub open spec fn has_key(ids: Seq<Identity>, k: Seq<u8>) -> bool {
    exists|j: int| 0 <= j < ids.len() && (#[trigger] ids[j]).key@ == k
}

/// The agent answered with a list that holds the key `k`.
pub open spec fn lists_key(l: Listing<()>, k: Seq<u8>) -> bool {
    match l {
        Listing::Listed(ids) => has_key(ids@, k),
        _ => false,
    }
}

/// A listing with its error dropped.
pub open spec fn forget_error<E>(l: Listing<E>) -> Listing<()> {
    match l {
        Listing::Unreachable => Listing::Unreachable,
        Listing::Listed(ids) => Listing::Listed(ids),
        Listing::Failed(_) => Listing::Failed(()),
    }
}

/// Progress of asking every upstream agent for its identities.
pub struct Refresh {
    next: usize,
    collected: Vec<Identity>,
    seen: Ghost<Seq<Listing<()>>>,
}

impl Refresh {
    /// The agents asked so far answered these listings, in order.
    pub closed spec fn listings(&self) -> Seq<Listing<()>> {
        self.seen@
    }

    /// The identities collected so far.
    pub closed spec fn collected(&self) -> Seq<Identity> {
        self.collected@
    }

    /// The refresh has advanced by one agent per recorded answer.
    pub closed spec fn in_step(&self) -> bool {
        self.next == self.seen@.len()
    }

    /// The identities collected are those offered by the answers heard, and no
    /// answer heard was a failure.
    pub open spec fn wf(&self) -> bool {
        &&& self.in_step()
        &&& self.collected() == offered_after(self.listings())
        &&& forall|i: int| 0 <= i < self.listings().len() ==> !(#[trigger] self.listings()[i] is Failed)
    }

}

/// What to do for a signing request.
pub enum SignAction {
    /// Forward the request to the upstream agent with this index.
    Forward(usize),
    /// Ask every upstream agent for its identities first, then decide again.
    Refresh,
    /// Answer the client with this error.
    Reject(MuxError),
}

/// What to do for an extension request.
pub enum ExtensionAction {
    /// Answer the `query` extension directly, with an empty reply of the same name.
    AnswerQuery,
    /// Send the request to every upstream agent; settle with `settle_extension`.
    Broadcast,
    /// Answer the client with this error.
    Reject(MuxError),
}

/// The reply of the last agent in `replies` that gave one.
pub open spec fn last_reply<R>(replies: Seq<Option<R>>) -> Option<R>
    decreases replies.len(),
{
    if replies.len() == 0 {
        None
    } else {
        match replies.last() {
            Some(r) => Some(r),
            None => last_reply(replies.drop_last()),
        }
    }
}

/// The reply of the last agent that gave one, if any did.
pub fn latest_reply<R>(replies: Vec<Option<R>>) -> (r: Option<R>)
    ensures
        r == last_reply(replies@),
{
    let ghost all = replies@;
    let mut rest = replies;
    while rest.len() > 0
        invariant
            all == replies@,
            last_reply(all) == last_reply(rest@),
        decreases rest.len(),
    {
        let ghost before = rest@;
        match rest.pop() {
            Some(Some(v)) => {
                assert(before.last() == Some(v));
                assert(last_reply(before) == Some(v));
                return Some(v);
            },
            _ => {
                assert(rest@ == before.drop_last());
            },
        }
    }
    None
}

/// The multiplexer's state: the upstream agents, in configuration order, and
/// the table from each public key seen to the agent that offered it.
pub struct MuxAgent {
    socket_paths: Vec<String>,
    known_keys: KnownKeys,
    heard: Ghost<Seq<Listing<()>>>,
}

impl MuxAgent {
    /// Socket paths of the upstream agents, in configuration order.
    pub closed spec fn agents(&self) -> Seq<String> {
        self.socket_paths@
    }

    /// The key table: each known key and the index of its agent.
    pub closed spec fn known(&self) -> Map<Seq<u8>, usize> {
        self.known_keys.view()
    }

    /// The answers of the agents asked in the latest refresh, in order; the
    /// key table is built from them alone.
    pub closed spec fn heard(&self) -> Seq<Listing<()>> {
        self.heard@
    }

    /// The table's entries agree with its view, and no key occurs twice.
    pub closed spec fn table_wf(&self) -> bool {
        self.known_keys.wf()
    }

    /// The table is the one built from the answers heard in the latest
    /// refresh, and names only configured agents.
    pub open spec fn wf(&self) -> bool {
        &&& self.table_wf()
        &&& self.known() == table_after(self.heard())
        &&& self.heard().len() <= self.agents().len()
        &&& forall|i: int| 0 <= i < self.heard().len() ==> !(#[trigger] self.heard()[i] is Failed)
        &&& forall|k: Seq<u8>| #[trigger]
            self.known().contains_key(k) ==> self.known()[k] < self.agents().len()
    }

    /// A multiplexer over these upstream agents, knowing no key yet.
    pub fn new(socket_paths: Vec<String>) -> (m: Self)
        ensures
            m.wf(),
            m.agents() == socket_paths@,
            m.known() == Map::<Seq<u8>, usize>::empty(),
            m.heard() == Seq::<Listing<()>>::empty(),
    {
        MuxAgent { socket_paths, known_keys: KnownKeys::new(), heard: Ghost(Seq::empty()) }
    }

    /// Number of upstream agents.
    pub fn agent_count(&self) -> (n: usize)
        ensures
            n == self.agents().len(),
    {
        self.socket_paths.len()
    }

    /// The agents a request that goes to every upstream agent (adding a key,
    /// a `session-bind@openssh.com` extension) is sent to: all of them, in
    /// configuration order. Their answers, in that order, are settled by
    /// `settle_add` or `settle_extension`.
    pub fn broadcast_targets(&self) -> (v: Vec<usize>)
        ensures
            v@.len() == self.agents().len(),
            forall|i: int| 0 <= i < v@.len() ==> v@[i] == i,
    {
        let n = self.socket_paths.len();
        let mut v: Vec<usize> = Vec::new();
        let mut i: usize = 0;
        while i < n
            invariant
                n == self.agents().len(),
                i <= n,
                v@.len() == i,
                forall|k: int| 0 <= k < i ==> v@[k] == k,
            decreases n - i,
        {
            v.push(i);
            i = i + 1;
        }
        v
    }

    /// Socket path of the upstream agent with this index.
    pub fn socket_path(&self, agent: usize) -> (p: &String)
        requires
            agent < self.agents().len(),
        ensures
            *p == self.agents()[agent as int],
    {
        &self.socket_paths[agent]
    }

    /// Start asking every upstream agent for its identities: the key table
    /// is emptied, and agent 0 is the first to ask.
    pub fn begin_refresh(&mut self) -> (r: Refresh)
        requires
            old(self).wf(),
        ensures
            final(self).wf(),
            final(self).agents() == old(self).agents(),
            final(self).known() == Map::<Seq<u8>, usize>::empty(),
            final(self).heard() == Seq::<Listing<()>>::empty(),
            r.wf(),
            r.listings() == Seq::<Listing<()>>::empty(),
            r.collected() == Seq::<Identity>::empty(),
    {
        self.known_keys.clear();
        self.heard = Ghost(Seq::empty());
        let r = Refresh { next: 0, collected: Vec::new(), seen: Ghost(Seq::empty()) };
        assert(r.collected@ =~= offered_after(r.seen@));
        r
    }

    /// The agent to ask next, or `None` once every agent has answered.
    pub fn refresh_next(&self, r: &Refresh) -> (next: Option<usize>)
        requires
            r.wf(),
            r.listings().len() <= self.agents().len(),
        ensures
            next == (if r.listings().len() < self.agents().len() {
                Some(r.listings().len() as usize)
            } else {
                None
            }),
    {
        if r.next < self.socket_paths.len() {
            Some(r.next)
        } else {
            None
        }
    }

    /// Record that agent `i`, with `i` the number of agents asked so far,
    /// answered `listing`. Each identity it lists now maps to it; an
    /// unreachable agent is skipped; a failed request ends the refresh with
    /// its error, keeping the keys recorded so far.
    pub fn refresh_record<E>(&mut self, r: &mut Refresh, listing: Listing<E>) -> (res: Result<(), E>)
        requires
            old(self).wf(),
            old(r).wf(),
            old(r).listings() == old(self).heard(),
            old(r).listings().len() < old(self).agents().len(),
        ensures
            final(self).wf(),
            final(self).agents() == old(self).agents(),
            final(r).listings() == final(self).heard(),
            match listing {
                Listing::Failed(e) => {
                    &&& res == Err::<(), E>(e)
                    &&& final(self).known() == old(self).known()
                    &&& *final(r) == *old(r)
                },
                Listing::Unreachable => {
                    &&& res is Ok
                    &&& final(self).known() == old(self).known()
                    &&& final(r).wf()
                    &&& final(r).listings() == old(r).listings().push(Listing::Unreachable)
                    &&& final(r).collected() == old(r).collected()
                },
                Listing::Listed(ids) => {
                    &&& res is Ok
                    &&& final(self).known() == record_identities(
                        old(self).known(),
                        ids@,
                        old(r).listings().len() as usize,
                    )
                    &&& final(r).wf()
                    &&& final(r).listings() == old(r).listings().push(Listing::Listed(ids))
                    &&& final(r).collected() == old(r).collected() + ids@
                },
            },
            old(self).known() == table_after(old(r).listings()) && res is Ok
                ==> final(self).known() == table_after(final(r).listings()),
    {
        let agent = r.next;
        let count = self.socket_paths.len();
        assert(agent < count);
        let ghost old_known = self.known();
        let ghost old_seen = r.seen@;
        let ghost entry = forget_error(listing);
        match listing {
            Listing::Failed(e) => Err(e),
            Listing::Unreachable => {
                r.next = agent + 1;
                r.seen = Ghost(old_seen.push(Listing::Unreachable));
                self.heard = Ghost(old_seen.push(Listing::Unreachable));
                proof {
                    assert(r.seen@.drop_last() =~= old_seen);
                    assert forall|i: int| 0 <= i < r.seen@.len() implies !(#[trigger] r.seen@[i] is Failed) by {
                        if i < old_seen.len() {
                            assert(r.seen@[i] == old_seen[i]);
                        }
                    }
                }
                Ok(())
            },
            Listing::Listed(ids) => {
                let ghost listed = ids@;
                let mut j: usize = 0;
                while j < ids.len()
                    invariant
                        self.table_wf(),
                        forall|k: Seq<u8>| #[trigger]
                            self.known().contains_key(k) ==> self.known()[k] < self.agents().len(),
                        self.heard() == old_seen,
                        self.agents() == old(self).agents(),
                        agent < self.agents().len(),
                        agent < count,
                        ids@ == listed,
                        j <= ids.len(),
                        self.known() == record_identities(old_known, listed.subrange(0, j as int), agent),
                    decreases ids.len() - j,
                {
                    let k = ids[j].key.clone();
                    assert(k@ == listed[j as int].key@);
                    if self.known_keys.get(&k).is_none() {
                        self.known_keys.insert(k, agent);
                    }
                    proof {
                        let sub = listed.subrange(0, j + 1);
                        assert(sub.drop_last() =~= listed.subrange(0, j as int));
                        assert(sub.last() == listed[j as int]);
                    }
                    j = j + 1;
                }
                assert(listed.subrange(0, ids.len() as int) =~= listed);
                let mut ids = ids;
                r.collected.append(&mut ids);
                r.next = agent + 1;
                r.seen = Ghost(old_seen.push(entry));
                self.heard = Ghost(old_seen.push(entry));
                proof {
                    assert(r.seen@.drop_last() =~= old_seen);
                    assert forall|i: int| 0 <= i < r.seen@.len() implies !(#[trigger] r.seen@[i] is Failed) by {
                        if i < old_seen.len() {
                            assert(r.seen@[i] == old_seen[i]);
                        }
                    }
                }
                Ok(())
            },
        }
    }

    /// End a refresh and give the identities to offer to the client: those
    /// the reachable agents listed, in configuration order. The key table then
    /// holds exactly their keys (keys from before the refresh that no agent
    /// lists any more are gone), each mapped to the first agent that listed it.
    pub fn finish_refresh(&self, r: Refresh) -> (ids: Vec<Identity>)
        requires
            self.wf(),
            r.wf(),
            r.listings() == self.heard(),
        ensures
            ids@ == r.collected(),
            ids@ == offered_after(self.heard()),
            forall|k: Seq<u8>| #[trigger] self.known().contains_key(k) <==> has_key(ids@, k),
            forall|k: Seq<u8>| #[trigger]
                self.known().contains_key(k) ==> {
                    let a = self.known()[k] as int;
                    &&& 0 <= a < self.agents().len()
                    &&& lists_key(self.heard()[a], k)
                    &&& forall|b: int| 0 <= b < a ==> !lists_key(#[trigger] self.heard()[b], k)
                },
    {
        let count = self.socket_paths.len();
        proof {
            assert(self.agents().len() == count);
            assert forall|k: Seq<u8>| #[trigger] self.known().contains_key(k) <==> has_key(r.collected(), k) by {
                crate::laws::law_refresh_table_is_offered_keys(*self, r, k);
            }
            assert forall|k: Seq<u8>| #[trigger] self.known().contains_key(k) implies {
                let a = self.known()[k] as int;
                &&& 0 <= a < self.agents().len()
                &&& lists_key(self.heard()[a], k)
                &&& forall|b: int| 0 <= b < a ==> !lists_key(#[trigger] self.heard()[b], k)
            } by {
                crate::laws::law_refresh_table_is_offered_keys(*self, r, k);
            }
        }
        r.collected
    }

    /// Decide how to serve a signing request with the key `key`. A known key
    /// goes to the agent that offered it in the latest refresh; where several
    /// agents offered it, to the first of them in configuration order, the
    /// one whose copy of the key is also offered to clients first. An
    /// unknown key first triggers a refresh of every agent's identities; if
    /// it is still unknown after the refresh (`refreshed`), the request is
    /// refused.
    pub fn sign_action(&self, key: &Vec<u8>, refreshed: bool) -> (a: SignAction)
        requires
            self.wf(),
        ensures
            self.known().contains_key(key@) ==> a == SignAction::Forward(self.known()[key@]),
            !self.known().contains_key(key@) && !refreshed ==> a is Refresh,
            !self.known().contains_key(key@) && refreshed ==> (a matches SignAction::Reject(
                MuxError::NoAgentForKey { fingerprint },
            ) && match fingerprint {
                Some(f) => ssh_key_fingerprint(key@) == Some(f@),
                None => ssh_key_fingerprint(key@) is None,
            }),
            a matches SignAction::Forward(i) ==> i < self.agents().len(),
            a matches SignAction::Forward(i) ==> lists_key(self.heard()[i as int], key@) && forall|b: int|
                0 <= b < i ==> !lists_key(#[trigger] self.heard()[b], key@),
            !(a is Forward) ==> forall|b: int|
                0 <= b < self.heard().len() ==> !lists_key(#[trigger] self.heard()[b], key@),
    {
        let count = self.socket_paths.len();
        proof {
            assert(self.heard().len() <= count);
            crate::laws::law_refreshed_table(self.heard(), key@);
        }
        match self.known_keys.get(key) {
            Some(agent) => SignAction::Forward(agent),
            None => {
                if refreshed {
                    SignAction::Reject(MuxError::no_agent_for_key(key))
                } else {
                    SignAction::Refresh
                }
            },
        }
    }

    /// Decide how to serve an extension request named `name`: `query` is
    /// answered directly, `session-bind@openssh.com` goes to every upstream
    /// agent, any other extension is refused.
    pub fn extension_action(name: &str) -> (a: ExtensionAction)
        ensures
            name@ == "query"@ ==> a is AnswerQuery,
            name@ == "session-bind@openssh.com"@ ==> a is Broadcast,
            name@ != "query"@ && name@ != "session-bind@openssh.com"@ ==> (a matches ExtensionAction::Reject(
                MuxError::ExtensionFailure,
            )),
    {
        proof {
            reveal_strlit("query");
            reveal_strlit("session-bind@openssh.com");
            assert("query"@.len() != "session-bind@openssh.com"@.len());
        }
        if str_eq(name, "query") {
            ExtensionAction::AnswerQuery
        } else if str_eq(name, "session-bind@openssh.com") {
            ExtensionAction::Broadcast
        } else {
            ExtensionAction::Reject(MuxError::ExtensionFailure)
        }
    }

    /// Answer to a broadcast extension request, given each upstream agent's
    /// reply in configuration order (`None` where the agent could not be
    /// reached or failed): the reply of the last agent that gave one, or an
    /// extension failure if none did.
    pub fn settle_extension<R>(replies: Vec<Option<R>>) -> (res: Result<R, MuxError>)
        ensures
            match last_reply(replies@) {
                Some(r) => res == Ok::<R, MuxError>(r),
                None => res matches Err(MuxError::ExtensionFailure),
            },
    {
        match latest_reply(replies) {
            Some(r) => Ok(r),
            None => Err(MuxError::ExtensionFailure),
        }
    }

    /// Answer to a request to add a key, given whether each upstream agent
    /// accepted it: success if at least one did, a generic failure otherwise.
    pub fn settle_add(accepted: &Vec<bool>) -> (res: Result<(), MuxError>)
        ensures
            res is Ok <==> exists|i: int| 0 <= i < accepted@.len() && accepted@[i],
            res matches Err(e) ==> e is Failure,
    {
        let mut i: usize = 0;
        while i < accepted.len()
            invariant
                i <= accepted.len(),
                forall|k: int| 0 <= k < i ==> !accepted@[k],
            decreases accepted.len() - i,
        {
            if accepted[i] {
                return Ok(());
            }
            i = i + 1;
        }
        Err(MuxError::Failure)
    }
}

} // verus!
