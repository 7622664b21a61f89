//! A named collection that owns its request records, addressed by identity,
//! and the authorization its requests can inherit.

use vstd::prelude::*;
use vstd::set_lib::{lemma_int_range, lemma_len_subset, set_int_range};

use crate::auth::{
    apply_to_headers, derive_header, derived_header, opt_view, provisioned, with_auth_header,
    AuthCredentials, AuthData, AuthType, CredentialView,
};
use crate::exchange::{after_send, ExchangeView, WireRequest};
use crate::pairs::{pairs_view, store_entry};
use crate::request::{fresh_content, new_identity, Request, RequestDataView};

verus! {

/// Settings shared by the requests of a collection: the authorization a
/// request selecting `Inherit` receives.
#[derive(Debug, PartialEq, Eq)]
pub struct CollectionData {
    pub selected_auth: AuthType,
    pub credentials: AuthCredentials,
}

impl CollectionData {
    /// No shared authorization.
    pub fn new() -> (r: Self)
        ensures
            r.selected_auth == AuthType::NoAuth,
            r.credentials@.len() == 0,
    {
        CollectionData { selected_auth: AuthType::NoAuth, credentials: AuthCredentials::new() }
    }

    /// Selects the shared scheme, storing an empty credential for it unless
    /// one is there already.
    pub fn select_auth(&mut self, scheme: AuthType)
        ensures
            final(self).selected_auth == scheme,
            final(self).credentials@ == provisioned(old(self).credentials@, scheme),
    {
        self.selected_auth = scheme;
        self.credentials.provision(scheme);
    }

    /// Stores a shared credential under its scheme.
    pub fn set_credential(&mut self, cred: AuthData)
        ensures
            final(self).selected_auth == old(self).selected_auth,
            final(self).credentials@ == store_entry(old(self).credentials@, cred@.scheme(), cred@),
    {
        self.credentials.store(cred);
    }

    /// The `Authorization` value the shared scheme yields; `Inherit` at this
    /// level yields none.
    pub fn derive_header(&self) -> (r: Option<String>)
        ensures
            opt_view(r) == derived_header(self.credentials@, self.selected_auth),
    {
        derive_header(&self.credentials, self.selected_auth)
    }
}

/// The panes of a collection.
#[derive(Clone, Copy, Debug, PartialEq, Eq, Structural)]
pub enum CollectionTab {
    Auth,
}

/// The header a request of the collection sends: its own scheme's, or, when
/// it selects `Inherit`, the collection's.
pub open spec fn resolved_header(
    request: RequestDataView,
    shared: Seq<(AuthType, CredentialView)>,
    shared_scheme: AuthType,
) -> Option<Seq<char>> {
    if request.selected_auth is Inherit {
        derived_header(shared, shared_scheme)
    } else {
        derived_header(request.auth, request.selected_auth)
    }
}

/// The identities of the requests, as integers.
pub open spec fn ids_of(requests: Seq<Request>) -> Seq<int> {
    requests.map_values(|r: Request| r.id() as int)
}

/// The request at `i` is the first with identity `id`.
pub open spec fn first_with_id(requests: Seq<Request>, id: u128, i: int) -> bool {
    &&& 0 <= i < requests.len()
    &&& requests[i].id() == id
    &&& forall|j: int| 0 <= j < i ==> requests[j].id() != id
}

/// The headers sent for a request of the collection: its own list, where a
/// request selecting `Inherit` gets the collection's `Authorization` header.
pub open spec fn sent_headers(
    request: RequestDataView,
    shared: Seq<(AuthType, CredentialView)>,
    shared_scheme: AuthType,
) -> Seq<(Seq<char>, Seq<char>)> {
    if request.selected_auth is Inherit {
        with_auth_header(request.headers, derived_header(shared, shared_scheme))
    } else {
        request.headers
    }
}

/// Index of the first request with identity `id`, if any.
pub open spec fn request_index(requests: Seq<Request>, id: u128) -> Option<int> {
    if exists|i: int| first_with_id(requests, id, i) {
        Some(choose|i: int| first_with_id(requests, id, i))
    } else {
        None
    }
}

/// A named, ordered set of request records owned by the collection.
pub struct Collection {
    pub uuid: u128,
    pub name: String,
    pub requests: Vec<Request>,
    pub data: CollectionData,
    pub tab: CollectionTab,
}

impl Collection {
    /// An empty collection with a fresh identity.
    pub fn new(name: String) -> (r: Self)
        ensures
            r.name@ == name@,
            r.requests@.len() == 0,
            r.data.selected_auth == AuthType::NoAuth,
            r.data.credentials@.len() == 0,
    {
        Collection {
            uuid: new_identity(),
            name,
            requests: Vec::new(),
            data: CollectionData::new(),
            tab: CollectionTab::Auth,
        }
    }

    /// An identity that no request of the collection has: a fresh random one,
    /// or, should it clash, the least value no request uses.
    fn fresh_id(&self) -> (r: u128)
        ensures
            forall|k: int| 0 <= k < self.requests@.len() ==> self.requests@[k].id() != r,
    {
        let drawn = new_identity();
        if self.find_request(drawn).is_none() {
            return drawn;
        }
        let n = self.requests.len();
        let ghost ids = ids_of(self.requests@);
        let mut j: u128 = 0;
        while j <= n as u128
            invariant
                n == self.requests@.len(),
                ids == ids_of(self.requests@),
                forall|x: int| 0 <= x < j ==> ids.contains(x),
            decreases n + 1 - j,
        {
            match self.find_request(j) {
                None => {
                    return j;
                },
                Some(i) => {
                    proof {
                        assert(ids[i as int] == j as int);
                    }
                },
            }
            j = j + 1;
        }
        proof {
            broadcast use vstd::seq_lib::seq_to_set_is_finite;

            let range = set_int_range(0, n + 1);
            lemma_int_range(0, n + 1);
            assert forall|x: int| range.contains(x) implies ids.to_set().contains(x) by {
                assert(ids.contains(x));
            }
            ids.lemma_cardinality_of_set();
            lemma_len_subset(range, ids.to_set());
        }
        0
    }

    /// Appends a new request of the given name under an identity no other
    /// request of the collection has; returns that identity.
    pub fn create_request(&mut self, name: &str) -> (id: u128)
        ensures
            final(self).requests@.len() == old(self).requests@.len() + 1,
            final(self).requests@.drop_last() == old(self).requests@,
            final(self).requests@.last().id() == id,
            forall|k: int| 0 <= k < old(self).requests@.len() ==> old(self).requests@[k].id() != id,
            final(self).requests@.last().content() == (RequestDataView {
                name: name@,
                ..final(self).requests@.last().content()
            }),
            fresh_content(
                (RequestDataView { name: "New Request"@, ..final(self).requests@.last().content() }),
            ),
            final(self).requests@.last().params().len() == 0,
            final(self).requests@.last().exchange_state() == (ExchangeView {
                sent: 0,
                pending: false,
                outcome: None,
            }),
            !final(self).requests@.last().save_requested(),
            final(self).requests@.last().saved_hash() is None,
            final(self).uuid == old(self).uuid,
            final(self).name == old(self).name,
            final(self).data == old(self).data,
    {
        let id = self.fresh_id();
        let mut request = Request::new();
        request.set_identity(id);
        request.set_name(name.to_owned());
        let ghost before = self.requests@;
        self.requests.push(request);
        proof {
            assert(self.requests@.drop_last() =~= before);
        }
        id
    }

    /// Index of the first request with identity `id`.
    pub fn find_request(&self, id: u128) -> (r: Option<usize>)
        ensures
            match r {
                Some(i) => request_index(self.requests@, id) == Some(i as int) && i
                    < self.requests@.len() && self.requests@[i as int].id() == id,
                None => request_index(self.requests@, id) is None && forall|k: int|
                    0 <= k < self.requests@.len() ==> self.requests@[k].id() != id,
            },
    {
        for i in 0..self.requests.len()
            invariant
                forall|j: int| 0 <= j < i ==> self.requests@[j].id() != id,
        {
            if self.requests[i].uuid() == id {
                proof {
                    assert(first_with_id(self.requests@, id, i as int));
                    let k = choose|k: int| first_with_id(self.requests@, id, k);
                    assert(k == i as int) by {
                        if k > i {
                            assert(self.requests@[i as int].id() == id);
                        }
                    }
                }
                return Some(i);
            }
        }
        None
    }

    /// Appends a copy of the request with identity `id` under an identity no
    /// other request of the collection has; returns that identity, or `None`, with nothing changed, when
    /// no request has `id`.
    pub fn duplicate_request(&mut self, id: u128) -> (r: Option<u128>)
        ensures
            match request_index(old(self).requests@, id) {
                Some(i) => {
                    &&& final(self).requests@.drop_last() == old(self).requests@
                    &&& final(self).requests@.len() == old(self).requests@.len() + 1
                    &&& r == Some(final(self).requests@.last().id())
                    &&& forall|k: int|
                        0 <= k < old(self).requests@.len() ==> old(self).requests@[k].id()
                            != final(self).requests@.last().id()
                    &&& final(self).requests@.last().content() == old(self).requests@[i].content()
                    &&& !final(self).requests@.last().save_requested()
                    &&& final(self).requests@.last().saved_hash() is None
                },
                None => r is None && final(self).requests@ == old(self).requests@,
            },
            final(self).uuid == old(self).uuid,
            final(self).name == old(self).name,
            final(self).data == old(self).data,
    {
        match self.find_request(id) {
            Some(i) => {
                let new_id = self.fresh_id();
                let mut copy = self.requests[i].duplicate();
                copy.set_identity(new_id);
                let ghost before = self.requests@;
                self.requests.push(copy);
                proof {
                    assert(self.requests@.drop_last() =~= before);
                }
                Some(new_id)
            },
            None => None,
        }
    }

    /// Removes the request with identity `id`; returns the index it stood
    /// at, so that a view showing it can be closed, or `None`, with nothing
    /// changed, when no request has `id`.
    pub fn remove_request(&mut self, id: u128) -> (r: Option<usize>)
        ensures
            match request_index(old(self).requests@, id) {
                Some(i) => r == Some(i as usize) && final(self).requests@ == old(
                    self,
                ).requests@.remove(i),
                None => r is None && final(self).requests@ == old(self).requests@,
            },
            final(self).uuid == old(self).uuid,
            final(self).name == old(self).name,
            final(self).data == old(self).data,
    {
        match self.find_request(id) {
            Some(i) => {
                self.requests.remove(i);
                Some(i)
            },
            None => None,
        }
    }

    /// Starts an exchange for the request at `index` (see
    /// `Request::send_request`); a request selecting `Inherit` sends the
    /// collection's `Authorization` header.
    pub fn send_request(&mut self, index: usize) -> (r: Option<(u64, WireRequest)>)
        requires
            index < old(self).requests@.len(),
        ensures
            final(self).requests@.len() == old(self).requests@.len(),
            forall|j: int|
                0 <= j < old(self).requests@.len() && j != index ==> final(self).requests@[j] == old(
                    self,
                ).requests@[j],
            ({
                let before = old(self).requests@[index as int];
                let after = final(self).requests@[index as int];
                &&& after.content() == before.content()
                &&& after.params() == before.params()
                &&& after.id() == before.id()
                &&& after.save_requested() == before.save_requested()
                &&& after.saved_hash() == before.saved_hash()
                &&& before.exchange_state().sent < u64::MAX ==> {
                    &&& after.exchange_state() == after_send(before.exchange_state())
                    &&& r matches Some((ticket, wire))
                    &&& ticket == after.exchange_state().sent
                    &&& wire.method@ == before.content().method.verb()
                    &&& wire.url@ == before.content().url
                    &&& pairs_view(wire.headers@) == sent_headers(
                        before.content(),
                        old(self).data.credentials@,
                        old(self).data.selected_auth,
                    )
                    &&& wire.body@ == crate::body::selected_bytes(
                        before.content().body,
                        before.content().selected_body,
                    )
                }
                &&& before.exchange_state().sent >= u64::MAX ==> r is None
                    && after.exchange_state() == before.exchange_state()
            }),
            final(self).uuid == old(self).uuid,
            final(self).name == old(self).name,
            final(self).data == old(self).data,
    {
        let shared = match self.requests[index].data().selected_auth {
            AuthType::Inherit => Some(self.data.derive_header()),
            _ => None,
        };
        let sent = self.requests[index].send_request();
        match sent {
            Some((ticket, wire)) => {
                let mut wire = wire;
                match shared {
                    Some(derived) => apply_to_headers(&mut wire.headers, derived),
                    None => {},
                }
                Some((ticket, wire))
            },
            None => None,
        }
    }

    /// Hands in what the transfer numbered `ticket` of the request at `index`
    /// delivered (see `Request::receive`).
    pub fn receive(&mut self, index: usize, ticket: u64, fetched: Result<Vec<u8>, String>) -> (taken:
        bool)
        requires
            index < old(self).requests@.len(),
        ensures
            final(self).requests@.len() == old(self).requests@.len(),
            forall|j: int|
                0 <= j < old(self).requests@.len() && j != index ==> final(self).requests@[j] == old(
                    self,
                ).requests@[j],
            ({
                let before = old(self).requests@[index as int];
                let after = final(self).requests@[index as int];
                &&& after.content() == before.content()
                &&& after.params() == before.params()
                &&& after.id() == before.id()
                &&& after.save_requested() == before.save_requested()
                &&& after.saved_hash() == before.saved_hash()
                &&& after.exchange_state() == crate::exchange::after_receive(
                    before.exchange_state(),
                    ticket as nat,
                    crate::exchange::fetched_view(fetched),
                )
                &&& taken == (before.exchange_state().pending && ticket
                    == before.exchange_state().sent)
            }),
            final(self).uuid == old(self).uuid,
            final(self).name == old(self).name,
            final(self).data == old(self).data,
    {
        self.requests[index].receive(ticket, fetched)
    }

    /// The `Authorization` value the request at `index` sends: its own
    /// scheme's, or the collection's when it selects `Inherit`.
    pub fn resolved_auth_header(&self, index: usize) -> (r: Option<String>)
        requires
            index < self.requests@.len(),
        ensures
            opt_view(r) == resolved_header(
                self.requests@[index as int].content(),
                self.data.credentials@,
                self.data.selected_auth,
            ),
    {
        let request = &self.requests[index];
        match request.data().selected_auth {
            AuthType::Inherit => self.data.derive_header(),
            _ => request.data().derive_header(),
        }
    }
}

} // verus!
