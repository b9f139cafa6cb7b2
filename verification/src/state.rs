//! The versioned state: read-only snapshots, and state transactions that
//! buffer writes on top of a snapshot until they are committed or discarded.

use vstd::prelude::*;
use crate::client::ClientStatus;
use crate::connection::{ConnectionEnd, ConnectionEndView};
use crate::error::InternalError;
use crate::identifier::ConnectionIdentifier;
use crate::policy::{ClientPolicy, ClientPolicyView};
use crate::table::{
    clients_map, clone_clients, clone_connections, clone_links, collect_links, connections_map,
    find_client, find_connection, lemma_client_lookup_concat, lemma_clients_map_push,
    lemma_connection_lookup_concat, lemma_connections_map_push, lemma_links_map_push, links_map,
    ClientLink, ClientLinkView, ClientRecord, ClientRecordView, ConnectionRecord,
    ConnectionRecordView,
};

verus! {

/// The chain state as a mathematical value.
pub struct StateView {
    /// How many batches have been committed.
    pub version: nat,
    /// The counter value the next connection is allocated at.
    pub connection_counter: nat,
    /// The light clients, by identifier.
    pub clients: Map<Seq<char>, ClientStatus>,
    /// The connection ends, by the counter value they were allocated at.
    pub connections: Map<nat, ConnectionEndView>,
    /// For every client, the connections opened over it, oldest first.
    pub client_connections: Map<Seq<char>, Seq<nat>>,
    /// Which clients new connections may be opened over.
    pub client_policy: ClientPolicyView,
}

impl StateView {
    /// What holds of every state: connections sit below the counter, the index
    /// lists exactly the stored connections of each client.
    pub open spec fn wf(self) -> bool {
        &&& forall|n: nat| self.connections.contains_key(n) ==> n < self.connection_counter
        &&& forall|c: Seq<char>| self.client_connections.contains_key(c)
        &&& forall|c: Seq<char>, k: int|
            0 <= k < self.client_connections[c].len() ==> {
                let n = #[trigger] self.client_connections[c][k];
                self.connections.contains_key(n) && self.connections[n].client_id == c
            }
        &&& forall|n: nat| #[trigger]
            self.connections.contains_key(n) ==> {
                let c = self.connections[n].client_id;
                self.client_connections[c].contains(n)
            }
    }

    /// The state without any record and without restrictions, at the given
    /// version and counter.
    pub open spec fn blank(version: nat, connection_counter: nat) -> StateView {
        StateView {
            version,
            connection_counter,
            clients: Map::empty(),
            connections: Map::empty(),
            client_connections: Map::total(|c: Seq<char>| Seq::empty()),
            client_policy: ClientPolicyView::Unrestricted,
        }
    }

    /// The state after the client policy was written.
    pub open spec fn with_client_policy(self, policy: ClientPolicyView) -> StateView {
        StateView { client_policy: policy, ..self }
    }

    /// The state after the status of a client was written.
    pub open spec fn with_client(self, client_id: Seq<char>, status: ClientStatus) -> StateView {
        StateView { clients: self.clients.insert(client_id, status), ..self }
    }

    /// The state after a connection end was stored under the next identifier:
    /// the counter moves on by one, the end is stored at the old counter
    /// value and entered in its client's list.
    pub open spec fn with_connection(self, end: ConnectionEndView) -> StateView {
        StateView {
            connection_counter: self.connection_counter + 1,
            connections: self.connections.insert(self.connection_counter, end),
            client_connections: self.client_connections.insert(
                end.client_id,
                self.client_connections[end.client_id].push(self.connection_counter),
            ),
            ..self
        }
    }

    /// The same contents, one version later.
    pub open spec fn committed(self) -> StateView {
        StateView { version: self.version + 1, ..self }
    }

    /// Nothing that `earlier` allocated was taken back or changed: the counter
    /// did not fall and every connection of `earlier` is still there.
    pub open spec fn extends(self, earlier: StateView) -> bool {
        &&& earlier.connection_counter <= self.connection_counter
        &&& forall|n: nat| #[trigger]
            earlier.connections.contains_key(n) ==> self.connections.contains_key(n)
                && self.connections[n] == earlier.connections[n]
    }
}

/// Storing a connection keeps a state well formed, uses an identifier that was
/// free, and leaves what was there untouched.
pub proof fn lemma_with_connection(s: StateView, end: ConnectionEndView)
    requires
        s.wf(),
    ensures
        !s.connections.contains_key(s.connection_counter),
        s.with_connection(end).wf(),
        s.with_connection(end).extends(s),
{
    let t = s.with_connection(end);
    let n0 = s.connection_counter;
    assert forall|c: Seq<char>, k: int| 0 <= k < t.client_connections[c].len() implies {
        let n = #[trigger] t.client_connections[c][k];
        t.connections.contains_key(n) && t.connections[n].client_id == c
    } by {
        if c == end.client_id && k == s.client_connections[c].len() {
        } else {
            let n = s.client_connections[c][k];
            assert(s.connections.contains_key(n));
        }
    }
    assert forall|n: nat| #[trigger] t.connections.contains_key(n) implies {
        let c = t.connections[n].client_id;
        t.client_connections[c].contains(n)
    } by {
        if n == n0 {
            let list = t.client_connections[end.client_id];
            assert(list[list.len() - 1] == n0);
        } else {
            assert(s.connections.contains_key(n));
            let c = s.connections[n].client_id;
            let list = s.client_connections[c];
            let k = choose|k: int| 0 <= k < list.len() && list[k] == n;
            assert(t.client_connections[c][k] == n);
        }
    }
}

/// A read-only snapshot of the chain state at one version.
#[derive(Debug, PartialEq, Eq)]
pub struct State {
    version: u64,
    connection_counter: u64,
    policy: ClientPolicy,
    clients: Vec<ClientRecord>,
    connections: Vec<ConnectionRecord>,
    links: Vec<ClientLink>,
}

impl View for State {
    type V = StateView;

    closed spec fn view(&self) -> StateView {
        StateView {
            version: self.version as nat,
            connection_counter: self.connection_counter as nat,
            clients: clients_map(self.clients.deep_view()),
            connections: connections_map(self.connections.deep_view()),
            client_connections: links_map(self.links.deep_view()),
            client_policy: self.policy@,
        }
    }
}

impl Clone for State {
    fn clone(&self) -> (copy: Self)
        ensures
            copy@ == self@,
    {
        State {
            version: self.version,
            connection_counter: self.connection_counter,
            policy: self.policy.clone(),
            clients: clone_clients(&self.clients),
            connections: clone_connections(&self.connections),
            links: clone_links(&self.links),
        }
    }
}

impl State {
    /// The invariant of a snapshot.
    pub open spec fn wf(&self) -> bool {
        self@.wf()
    }

    /// The state of a chain that has not committed anything yet.
    pub fn new() -> (s: State)
        ensures
            s.wf(),
            s@ == StateView::blank(0, 0),
    {
        State::at(0, 0)
    }

    /// A snapshot without records that resumes at the given version and
    /// connection counter.
    pub fn at(version: u64, connection_counter: u64) -> (s: State)
        ensures
            s.wf(),
            s@ == StateView::blank(version as nat, connection_counter as nat),
    {
        let s = State {
            version,
            connection_counter,
            policy: ClientPolicy::Unrestricted,
            clients: Vec::new(),
            connections: Vec::new(),
            links: Vec::new(),
        };
        proof {
            let blank = StateView::blank(version as nat, connection_counter as nat);
            assert(s@.clients =~= blank.clients);
            assert(s@.connections =~= blank.connections);
            assert(s@.client_connections =~= blank.client_connections);
        }
        s
    }

    /// The version of this snapshot.
    pub fn version(&self) -> (v: u64)
        ensures
            v == self@.version,
    {
        self.version
    }

    /// The counter value the next connection is allocated at.
    pub fn connection_counter(&self) -> (n: u64)
        ensures
            n == self@.connection_counter,
    {
        self.connection_counter
    }

    /// The policy on which clients new connections may be opened over.
    pub fn client_policy(&self) -> (policy: &ClientPolicy)
        ensures
            policy@ == self@.client_policy,
    {
        &self.policy
    }

    /// The status of the client `client_id`, if the snapshot holds it.
    pub fn client_status(&self, client_id: &str) -> (r: Option<ClientStatus>)
        ensures
            r is Some <==> self@.clients.contains_key(client_id@),
            r is Some ==> r.unwrap() == self@.clients[client_id@],
    {
        let key = client_id.to_owned();
        find_client(&self.clients, &key)
    }

    /// The connection end stored under `id`, if any.
    pub fn connection(&self, id: &ConnectionIdentifier) -> (r: Option<ConnectionEnd>)
        ensures
            r is Some <==> self@.connections.contains_key(id.index()),
            r is Some ==> r.unwrap()@ == self@.connections[id.index()],
    {
        match find_connection(&self.connections, id.counter()) {
            Some(end) => Some(end.clone()),
            None => None,
        }
    }

    /// The counter values of the connections opened over `client_id`, oldest
    /// first.
    pub fn connections_of(&self, client_id: &str) -> (r: Vec<u64>)
        ensures
            r@.len() == self@.client_connections[client_id@].len(),
            forall|k: int| 0 <= k < r@.len() ==> r@[k] as nat == self@.client_connections[client_id@][k],
    {
        let key = client_id.to_owned();
        collect_links(&self.links, &key)
    }

    /// Starts a state transaction on top of this snapshot.
    pub fn begin_transaction(self) -> (tx: StateTransaction)
        requires
            self.wf(),
        ensures
            tx.wf(),
            tx.base() == self@,
            tx@ == self@,
    {
        let counter = self.connection_counter;
        let tx = StateTransaction {
            snapshot: self,
            connection_counter: counter,
            policy: None,
            clients: Vec::new(),
            connections: Vec::new(),
            links: Vec::new(),
        };
        proof {
            assert(tx.all_clients() =~= tx.snapshot.clients.deep_view());
            assert(tx.all_connections() =~= tx.snapshot.connections.deep_view());
            assert(tx.all_links() =~= tx.snapshot.links.deep_view());
        }
        tx
    }
}

/// A buffer of writes on top of a snapshot. Reads through the transaction see
/// its own writes; the snapshot stays as it was until the transaction is
/// committed.
#[derive(Debug)]
pub struct StateTransaction {
    snapshot: State,
    connection_counter: u64,
    policy: Option<ClientPolicy>,
    clients: Vec<ClientRecord>,
    connections: Vec<ConnectionRecord>,
    links: Vec<ClientLink>,
}

impl View for StateTransaction {
    type V = StateView;

    /// The state as reads through the transaction see it.
    closed spec fn view(&self) -> StateView {
        StateView {
            version: self.snapshot.version as nat,
            connection_counter: self.connection_counter as nat,
            clients: clients_map(self.all_clients()),
            connections: connections_map(self.all_connections()),
            client_connections: links_map(self.all_links()),
            client_policy: match self.policy {
                Some(policy) => policy@,
                None => self.snapshot.policy@,
            },
        }
    }
}

impl StateTransaction {
    spec fn all_clients(&self) -> Seq<ClientRecordView> {
        self.snapshot.clients.deep_view() + self.clients.deep_view()
    }

    spec fn all_connections(&self) -> Seq<ConnectionRecordView> {
        self.snapshot.connections.deep_view() + self.connections.deep_view()
    }

    spec fn all_links(&self) -> Seq<ClientLinkView> {
        self.snapshot.links.deep_view() + self.links.deep_view()
    }

    /// The snapshot the transaction was started on.
    pub closed spec fn base(&self) -> StateView {
        self.snapshot@
    }

    /// The invariant of a transaction: snapshot and current contents are well
    /// formed, at the same version, and the contents extend the snapshot.
    pub open spec fn wf(&self) -> bool {
        &&& self.base().wf()
        &&& self@.wf()
        &&& self@.version == self.base().version
        &&& self@.extends(self.base())
    }

    /// The snapshot the transaction was started on.
    pub fn snapshot(&self) -> (s: &State)
        ensures
            s@ == self.base(),
    {
        &self.snapshot
    }

    /// The counter value the next connection is allocated at.
    pub fn connection_counter(&self) -> (n: u64)
        ensures
            n == self@.connection_counter,
    {
        self.connection_counter
    }

    /// The status of the client `client_id` as the transaction sees it.
    pub fn client_status(&self, client_id: &str) -> (r: Option<ClientStatus>)
        ensures
            r is Some <==> self@.clients.contains_key(client_id@),
            r is Some ==> r.unwrap() == self@.clients[client_id@],
    {
        let key = client_id.to_owned();
        proof {
            lemma_client_lookup_concat(
                self.snapshot.clients.deep_view(),
                self.clients.deep_view(),
                key@,
            );
        }
        match find_client(&self.clients, &key) {
            Some(status) => Some(status),
            None => find_client(&self.snapshot.clients, &key),
        }
    }

    /// The connection end stored under `id` as the transaction sees it.
    pub fn connection(&self, id: &ConnectionIdentifier) -> (r: Option<ConnectionEnd>)
        ensures
            r is Some <==> self@.connections.contains_key(id.index()),
            r is Some ==> r.unwrap()@ == self@.connections[id.index()],
    {
        proof {
            lemma_connection_lookup_concat(
                self.snapshot.connections.deep_view(),
                self.connections.deep_view(),
                id.index(),
            );
        }
        match find_connection(&self.connections, id.counter()) {
            Some(end) => Some(end.clone()),
            None => match find_connection(&self.snapshot.connections, id.counter()) {
                Some(end) => Some(end.clone()),
                None => None,
            },
        }
    }

    /// The policy on which clients new connections may be opened over, as the
    /// transaction sees it.
    pub fn client_policy(&self) -> (policy: &ClientPolicy)
        ensures
            policy@ == self@.client_policy,
    {
        match &self.policy {
            Some(policy) => policy,
            None => &self.snapshot.policy,
        }
    }

    /// Writes the policy on which clients new connections may be opened over.
    pub fn put_client_policy(&mut self, policy: ClientPolicy)
        requires
            old(self).wf(),
        ensures
            final(self).wf(),
            final(self).base() == old(self).base(),
            final(self)@ == old(self)@.with_client_policy(policy@),
    {
        self.policy = Some(policy);
    }

    /// Writes the status of a client.
    pub fn put_client(&mut self, client_id: String, status: ClientStatus)
        requires
            old(self).wf(),
        ensures
            final(self).wf(),
            final(self).base() == old(self).base(),
            final(self)@ == old(self)@.with_client(client_id@, status),
    {
        let ghost before = self.all_clients();
        let ghost record = ClientRecordView { client_id: client_id@, status };
        self.clients.push(ClientRecord { client_id, status });
        proof {
            assert(self.all_clients() =~= before.push(record));
            lemma_clients_map_push(before, record);
        }
    }

    /// Stores a connection end under the next free identifier: allocates the
    /// identifier from the counter, moves the counter on, writes the end, and
    /// enters it in its client's list. Fails, and writes nothing, when the
    /// counter cannot move on.
    pub(crate) fn put_new_connection(&mut self, end: ConnectionEnd) -> (r: Result<
        ConnectionIdentifier,
        InternalError,
    >)
        requires
            old(self).wf(),
        ensures
            final(self).wf(),
            final(self).base() == old(self).base(),
            match r {
                Ok(id) => {
                    &&& old(self)@.connection_counter < u64::MAX
                    &&& id.index() == old(self)@.connection_counter
                    &&& final(self)@ == old(self)@.with_connection(end@)
                },
                Err(e) => {
                    &&& old(self)@.connection_counter >= u64::MAX
                    &&& e == InternalError::ConnectionCounterExhausted
                    &&& final(self)@ == old(self)@
                },
            },
    {
        let index = self.connection_counter;
        let (id, next_counter) = match ConnectionIdentifier::allocate(index) {
            Ok(allocated) => allocated,
            Err(e) => {
                return Err(e);
            },
        };
        let ghost links_before = self.all_links();
        let ghost connections_before = self.all_connections();
        let ghost link = ClientLinkView { client_id: end.client_id@, index: index as nat };
        let ghost record = ConnectionRecordView { index: index as nat, end: end@ };
        self.links.push(ClientLink { client_id: end.client_id.clone(), index });
        self.connections.push(ConnectionRecord { index, end });
        self.connection_counter = next_counter;
        proof {
            assert(self.all_links() =~= links_before.push(link));
            assert(self.all_connections() =~= connections_before.push(record));
            lemma_links_map_push(links_before, link);
            lemma_connections_map_push(connections_before, record);
            lemma_with_connection(old(self)@, end@);
            let now = self@;
            let then = old(self)@;
            assert(now.extends(self.base())) by {
                assert forall|n: nat| #[trigger]
                    self.base().connections.contains_key(n) implies now.connections.contains_key(n)
                    && now.connections[n] == self.base().connections[n] by {
                    assert(then.connections.contains_key(n));
                }
            }
        }
        Ok(id)
    }

    /// Makes the buffered writes the next version of the state. Fails, and
    /// hands the snapshot back as it was, when no further version exists.
    pub fn commit(self) -> (r: (State, Result<u64, InternalError>))
        requires
            self.wf(),
        ensures
            r.0.wf(),
            match r.1 {
                Ok(version) => {
                    &&& self@.version < u64::MAX
                    &&& r.0@ == self@.committed()
                    &&& version == self@.version + 1
                },
                Err(e) => {
                    &&& self@.version >= u64::MAX
                    &&& e == InternalError::StateVersionExhausted
                    &&& r.0@ == self.base()
                },
            },
    {
        let ghost clients = self.all_clients();
        let ghost connections = self.all_connections();
        let ghost links = self.all_links();
        let ghost view = self@;
        let StateTransaction {
            snapshot,
            connection_counter,
            policy: pending_policy,
            clients: mut pending_clients,
            connections: mut pending_connections,
            links: mut pending_links,
        } = self;
        if snapshot.version == u64::MAX {
            return (snapshot, Err(InternalError::StateVersionExhausted));
        }
        let State {
            version,
            connection_counter: _,
            policy: old_policy,
            clients: mut all_clients,
            connections: mut all_connections,
            links: mut all_links,
        } = snapshot;
        all_clients.append(&mut pending_clients);
        all_connections.append(&mut pending_connections);
        all_links.append(&mut pending_links);
        let next = State {
            version: version + 1,
            connection_counter,
            policy: match pending_policy {
                Some(policy) => policy,
                None => old_policy,
            },
            clients: all_clients,
            connections: all_connections,
            links: all_links,
        };
        proof {
            assert(next.clients.deep_view() =~= clients);
            assert(next.connections.deep_view() =~= connections);
            assert(next.links.deep_view() =~= links);
            assert(next@ == view.committed());
        }
        (next, Ok(version + 1))
    }

    /// Drops the buffered writes and hands the snapshot back as it was.
    pub fn discard(self) -> (s: State)
        requires
            self.wf(),
        ensures
            s.wf(),
            s@ == self.base(),
    {
        self.snapshot
    }
}

} // verus!
