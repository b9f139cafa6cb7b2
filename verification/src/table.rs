//! Tables as write logs: a table is the list of its writes, and a later write
//! to a key hides the earlier ones.

use vstd::prelude::*;
use crate::client::ClientStatus;
use crate::connection::{ConnectionEnd, ConnectionEndView};

verus! {

/// A client write as a mathematical value.
pub struct ClientRecordView {
    pub client_id: Seq<char>,
    pub status: ClientStatus,
}

/// One write to the client table.
#[derive(Debug, PartialEq, Eq)]
pub struct ClientRecord {
    pub client_id: String,
    pub status: ClientStatus,
}

impl DeepView for ClientRecord {
    type V = ClientRecordView;

    open spec fn deep_view(&self) -> ClientRecordView {
        ClientRecordView { client_id: self.client_id@, status: self.status }
    }
}

/// A connection write as a mathematical value.
pub struct ConnectionRecordView {
    pub index: nat,
    pub end: ConnectionEndView,
}

/// One write to the connection table.
#[derive(Debug, PartialEq, Eq)]
pub struct ConnectionRecord {
    pub index: u64,
    pub end: ConnectionEnd,
}

impl DeepView for ConnectionRecord {
    type V = ConnectionRecordView;

    open spec fn deep_view(&self) -> ConnectionRecordView {
        ConnectionRecordView { index: self.index as nat, end: self.end@ }
    }
}

/// An entry of the client-to-connections index as a mathematical value.
pub struct ClientLinkView {
    pub client_id: Seq<char>,
    pub index: nat,
}

/// One entry of the client-to-connections index.
#[derive(Debug, PartialEq, Eq)]
pub struct ClientLink {
    pub client_id: String,
    pub index: u64,
}

impl DeepView for ClientLink {
    type V = ClientLinkView;

    open spec fn deep_view(&self) -> ClientLinkView {
        ClientLinkView { client_id: self.client_id@, index: self.index as nat }
    }
}

/// The status last written for `id`, if any.
pub open spec fn client_lookup(log: Seq<ClientRecordView>, id: Seq<char>) -> Option<ClientStatus>
    decreases log.len(),
{
    if log.len() == 0 {
        None
    } else if log.last().client_id == id {
        Some(log.last().status)
    } else {
        client_lookup(log.drop_last(), id)
    }
}

/// The client table that a log of writes amounts to.
pub open spec fn clients_map(log: Seq<ClientRecordView>) -> Map<Seq<char>, ClientStatus> {
    Map::new(
        |id: Seq<char>| client_lookup(log, id) is Some,
        |id: Seq<char>| client_lookup(log, id).unwrap(),
    )
}

/// The connection end last written at `index`, if any.
pub open spec fn connection_lookup(log: Seq<ConnectionRecordView>, index: nat) -> Option<
    ConnectionEndView,
>
    decreases log.len(),
{
    if log.len() == 0 {
        None
    } else if log.last().index == index {
        Some(log.last().end)
    } else {
        connection_lookup(log.drop_last(), index)
    }
}

/// The connection table that a log of writes amounts to.
pub open spec fn connections_map(log: Seq<ConnectionRecordView>) -> Map<nat, ConnectionEndView> {
    Map::new(
        |index: nat| connection_lookup(log, index) is Some,
        |index: nat| connection_lookup(log, index).unwrap(),
    )
}

/// The connections indexed under `id`, in the order they were entered.
pub open spec fn links_of(log: Seq<ClientLinkView>, id: Seq<char>) -> Seq<nat>
    decreases log.len(),
{
    if log.len() == 0 {
        Seq::empty()
    } else if log.last().client_id == id {
        links_of(log.drop_last(), id).push(log.last().index)
    } else {
        links_of(log.drop_last(), id)
    }
}

/// The index that a log of entries amounts to: a list for every client.
pub open spec fn links_map(log: Seq<ClientLinkView>) -> Map<Seq<char>, Seq<nat>> {
    Map::total(|id: Seq<char>| links_of(log, id))
}

pub proof fn lemma_client_lookup_push(log: Seq<ClientRecordView>, r: ClientRecordView, id: Seq<char>)
    ensures
        client_lookup(log.push(r), id) == if r.client_id == id {
            Some(r.status)
        } else {
            client_lookup(log, id)
        },
{
    assert(log.push(r).drop_last() =~= log);
}

pub proof fn lemma_clients_map_push(log: Seq<ClientRecordView>, r: ClientRecordView)
    ensures
        clients_map(log.push(r)) == clients_map(log).insert(r.client_id, r.status),
{
    assert forall|id: Seq<char>|
        client_lookup(log.push(r), id) == if r.client_id == id {
            Some(r.status)
        } else {
            client_lookup(log, id)
        } by {
        lemma_client_lookup_push(log, r, id);
    }
    assert(clients_map(log.push(r)) =~= clients_map(log).insert(r.client_id, r.status));
}

pub proof fn lemma_client_lookup_concat(
    a: Seq<ClientRecordView>,
    b: Seq<ClientRecordView>,
    id: Seq<char>,
)
    ensures
        client_lookup(a + b, id) == match client_lookup(b, id) {
            Some(s) => Some(s),
            None => client_lookup(a, id),
        },
    decreases b.len(),
{
    if b.len() == 0 {
        assert(a + b =~= a);
    } else {
        assert((a + b).drop_last() =~= a + b.drop_last());
        assert((a + b).last() == b.last());
        lemma_client_lookup_concat(a, b.drop_last(), id);
    }
}

pub proof fn lemma_connection_lookup_push(
    log: Seq<ConnectionRecordView>,
    r: ConnectionRecordView,
    index: nat,
)
    ensures
        connection_lookup(log.push(r), index) == if r.index == index {
            Some(r.end)
        } else {
            connection_lookup(log, index)
        },
{
    assert(log.push(r).drop_last() =~= log);
}

pub proof fn lemma_connections_map_push(log: Seq<ConnectionRecordView>, r: ConnectionRecordView)
    ensures
        connections_map(log.push(r)) == connections_map(log).insert(r.index, r.end),
{
    assert forall|index: nat|
        connection_lookup(log.push(r), index) == if r.index == index {
            Some(r.end)
        } else {
            connection_lookup(log, index)
        } by {
        lemma_connection_lookup_push(log, r, index);
    }
    assert(connections_map(log.push(r)) =~= connections_map(log).insert(r.index, r.end));
}

pub proof fn lemma_connection_lookup_concat(
    a: Seq<ConnectionRecordView>,
    b: Seq<ConnectionRecordView>,
    index: nat,
)
    ensures
        connection_lookup(a + b, index) == match connection_lookup(b, index) {
            Some(e) => Some(e),
            None => connection_lookup(a, index),
        },
    decreases b.len(),
{
    if b.len() == 0 {
        assert(a + b =~= a);
    } else {
        assert((a + b).drop_last() =~= a + b.drop_last());
        assert((a + b).last() == b.last());
        lemma_connection_lookup_concat(a, b.drop_last(), index);
    }
}

pub proof fn lemma_links_of_push(log: Seq<ClientLinkView>, r: ClientLinkView, id: Seq<char>)
    ensures
        links_of(log.push(r), id) == if r.client_id == id {
            links_of(log, id).push(r.index)
        } else {
            links_of(log, id)
        },
{
    assert(log.push(r).drop_last() =~= log);
}

pub proof fn lemma_links_map_push(log: Seq<ClientLinkView>, r: ClientLinkView)
    ensures
        links_map(log.push(r)) == links_map(log).insert(
            r.client_id,
            links_map(log)[r.client_id].push(r.index),
        ),
{
    assert forall|id: Seq<char>|
        links_of(log.push(r), id) == if r.client_id == id {
            links_of(log, id).push(r.index)
        } else {
            links_of(log, id)
        } by {
        lemma_links_of_push(log, r, id);
    }
    assert(links_map(log.push(r)) =~= links_map(log).insert(
        r.client_id,
        links_map(log)[r.client_id].push(r.index),
    ));
}

/// Copies a log of client writes.
pub fn clone_clients(log: &Vec<ClientRecord>) -> (copy: Vec<ClientRecord>)
    ensures
        copy.deep_view() == log.deep_view(),
{
    let mut copy: Vec<ClientRecord> = Vec::new();
    let mut i: usize = 0;
    while i < log.len()
        invariant
            i <= log.len(),
            copy.len() == i,
            forall|k: int| 0 <= k < i ==> copy@[k].deep_view() == log@[k].deep_view(),
        decreases log.len() - i,
    {
        copy.push(ClientRecord { client_id: log[i].client_id.clone(), status: log[i].status });
        i += 1;
    }
    assert(copy.deep_view() =~= log.deep_view());
    copy
}

/// Copies a log of connection writes.
pub fn clone_connections(log: &Vec<ConnectionRecord>) -> (copy: Vec<ConnectionRecord>)
    ensures
        copy.deep_view() == log.deep_view(),
{
    let mut copy: Vec<ConnectionRecord> = Vec::new();
    let mut i: usize = 0;
    while i < log.len()
        invariant
            i <= log.len(),
            copy.len() == i,
            forall|k: int| 0 <= k < i ==> copy@[k].deep_view() == log@[k].deep_view(),
        decreases log.len() - i,
    {
        copy.push(ConnectionRecord { index: log[i].index, end: log[i].end.clone() });
        i += 1;
    }
    assert(copy.deep_view() =~= log.deep_view());
    copy
}

/// Copies a log of index entries.
pub fn clone_links(log: &Vec<ClientLink>) -> (copy: Vec<ClientLink>)
    ensures
        copy.deep_view() == log.deep_view(),
{
    let mut copy: Vec<ClientLink> = Vec::new();
    let mut i: usize = 0;
    while i < log.len()
        invariant
            i <= log.len(),
            copy.len() == i,
            forall|k: int| 0 <= k < i ==> copy@[k].deep_view() == log@[k].deep_view(),
        decreases log.len() - i,
    {
        copy.push(ClientLink { client_id: log[i].client_id.clone(), index: log[i].index });
        i += 1;
    }
    assert(copy.deep_view() =~= log.deep_view());
    copy
}

/// Looks up the status last written for `id`.
pub fn find_client(log: &Vec<ClientRecord>, id: &String) -> (r: Option<ClientStatus>)
    ensures
        r == client_lookup(log.deep_view(), id@),
{
    let mut i: usize = log.len();
    proof {
        assert(log.deep_view().take(log.len() as int) =~= log.deep_view());
    }
    while i > 0
        invariant
            i <= log.len(),
            client_lookup(log.deep_view(), id@) == client_lookup(log.deep_view().take(i as int), id@),
        decreases i,
    {
        proof {
            let t = log.deep_view().take(i as int);
            assert(t.drop_last() =~= log.deep_view().take(i - 1));
            assert(t.last() == log@[i - 1].deep_view());
        }
        if log[i - 1].client_id == *id {
            return Some(log[i - 1].status);
        }
        i -= 1;
    }
    None
}

/// Looks up the connection end last written at `index`.
pub fn find_connection(log: &Vec<ConnectionRecord>, index: u64) -> (r: Option<&ConnectionEnd>)
    ensures
        match r {
            Some(end) => connection_lookup(log.deep_view(), index as nat) == Some(end@),
            None => connection_lookup(log.deep_view(), index as nat) is None,
        },
{
    let mut i: usize = log.len();
    proof {
        assert(log.deep_view().take(log.len() as int) =~= log.deep_view());
    }
    while i > 0
        invariant
            i <= log.len(),
            connection_lookup(log.deep_view(), index as nat) == connection_lookup(
                log.deep_view().take(i as int),
                index as nat,
            ),
        decreases i,
    {
        proof {
            let t = log.deep_view().take(i as int);
            assert(t.drop_last() =~= log.deep_view().take(i - 1));
            assert(t.last() == log@[i - 1].deep_view());
        }
        if log[i - 1].index == index {
            return Some(&log[i - 1].end);
        }
        i -= 1;
    }
    None
}

/// Collects the connections indexed under `id`.
pub fn collect_links(log: &Vec<ClientLink>, id: &String) -> (r: Vec<u64>)
    ensures
        r@.len() == links_of(log.deep_view(), id@).len(),
        forall|k: int| 0 <= k < r@.len() ==> r@[k] as nat == links_of(log.deep_view(), id@)[k],
{
    let mut out: Vec<u64> = Vec::new();
    let mut i: usize = 0;
    while i < log.len()
        invariant
            i <= log.len(),
            out@.len() == links_of(log.deep_view().take(i as int), id@).len(),
            forall|k: int|
                0 <= k < out@.len() ==> out@[k] as nat == links_of(
                    log.deep_view().take(i as int),
                    id@,
                )[k],
        decreases log.len() - i,
    {
        proof {
            let t = log.deep_view().take(i + 1);
            assert(t.drop_last() =~= log.deep_view().take(i as int));
            assert(t.last() == log@[i as int].deep_view());
        }
        if log[i].client_id == *id {
            out.push(log[i].index);
        }
        i += 1;
    }
    proof {
        assert(log.deep_view().take(log.len() as int) =~= log.deep_view());
    }
    out
}

} // verus!
