//! A request definition, the record that owns it, and the record's save
//! tracking.

use vstd::prelude::*;

use crate::auth::{
    apply_to_headers, authorization_key, derive_header, derived_header, provisioned,
    with_auth_header, AuthCredentials, AuthData, AuthType, CredentialView,
};
use crate::body::{provisioned_body, selected_bytes, BodyData, BodyPayloads, BodyType, BodyView};
use crate::exchange::{
    after_send, build_wire_request, fetched_view, after_receive, is_wire_of, outcome_view, Exchange,
    ExchangeView, WireRequest,
};
use crate::headers::{put_header, set_header, HeadersTab};
use crate::pairs::{copy_pairs, count_key, is_blank_pair, pairs_view, store_entry, without_blank};
use crate::params::{params_of_url, url_with_params, ParametersTab};

verus! {

/// The HTTP method of a request.
#[derive(Clone, Copy, Debug, PartialEq, Eq, Hash, Structural)]
pub enum RequestMethod {
    Options,
    Head,
    Get,
    Post,
    Put,
    Patch,
}

impl RequestMethod {
    /// The verb sent on the wire.
    pub open spec fn verb(self) -> Seq<char> {
        match self {
            RequestMethod::Options => "OPTIONS"@,
            RequestMethod::Head => "HEAD"@,
            RequestMethod::Get => "GET"@,
            RequestMethod::Post => "POST"@,
            RequestMethod::Put => "PUT"@,
            RequestMethod::Patch => "PATCH"@,
        }
    }

    /// The verb sent on the wire.
    pub fn to_string(&self) -> (r: String)
        ensures
            r@ == self.verb(),
    {
        match self {
            RequestMethod::Options => String::from_str("OPTIONS"),
            RequestMethod::Head => String::from_str("HEAD"),
            RequestMethod::Get => String::from_str("GET"),
            RequestMethod::Post => String::from_str("POST"),
            RequestMethod::Put => String::from_str("PUT"),
            RequestMethod::Patch => String::from_str("PATCH"),
        }
    }
}

impl Default for RequestMethod {
    fn default() -> (r: Self)
        ensures
            r == RequestMethod::Get,
    {
        RequestMethod::Get
    }
}

/// The editor pane shown for a request.
#[derive(Clone, Copy, Debug, PartialEq, Eq, Structural)]
pub enum RequestTab {
    Parameters,
    Authorization,
    Headers,
    Body,
}

/// What a request has received.
#[derive(Debug, PartialEq, Eq)]
pub enum RequestResult {
    Idle,
    Pending,
    Received { body: String, headers: String },
}

/// The editable content of a request.
#[derive(Debug, PartialEq, Eq, Hash)]
pub struct RequestData {
    pub name: String,
    pub method: RequestMethod,
    pub url_string: String,
    pub headers: Vec<(String, String)>,
    pub auth: AuthCredentials,
    pub selected_auth: AuthType,
    pub body: BodyPayloads,
    pub selected_body: BodyType,
}

/// The content of a request, as text and sequences.
pub struct RequestDataView {
    pub name: Seq<char>,
    pub method: RequestMethod,
    pub url: Seq<char>,
    pub headers: Seq<(Seq<char>, Seq<char>)>,
    pub auth: Seq<(AuthType, CredentialView)>,
    pub selected_auth: AuthType,
    pub body: Seq<(BodyType, BodyView)>,
    pub selected_body: BodyType,
}

impl View for RequestData {
    type V = RequestDataView;

    open spec fn view(&self) -> RequestDataView {
        RequestDataView {
            name: self.name@,
            method: self.method,
            url: self.url_string@,
            headers: pairs_view(self.headers@),
            auth: self.auth@,
            selected_auth: self.selected_auth,
            body: self.body@,
            selected_body: self.selected_body,
        }
    }
}

/// A deterministic hash of the whole content of a request.
pub uninterp spec fn content_hash(data: RequestDataView) -> u64;

/// Relies on `BuildHasher::hash_one` with std's `DefaultHasher`, over the
/// derived `Hash` of `RequestData`: hashers made by `DefaultHasher::new` all
/// start alike, so the hash depends on the hashed content alone. The value is
/// not portable across platforms or std versions, which is why the saved hash
/// is kept in memory only and never persisted.
#[verifier::external_body]
fn hash_content(data: &RequestData) -> (r: u64)
    ensures
        r == content_hash(data@),
{
    std::hash::BuildHasher::hash_one(
        &std::hash::BuildHasherDefault::<std::collections::hash_map::DefaultHasher>::default(),
        data,
    )
}

impl Default for RequestData {
    fn default() -> (r: Self)
        ensures
            r@.name == "New Request"@,
            r@.method == RequestMethod::Get,
            r@.url.len() == 0,
            r@.headers.len() == 0,
            r@.auth.len() == 0,
            r@.selected_auth == AuthType::NoAuth,
            r@.body.len() == 0,
            r@.selected_body == BodyType::NoBody,
    {
        let r = RequestData {
            name: String::from_str("New Request"),
            method: RequestMethod::Get,
            url_string: String::new(),
            headers: Vec::new(),
            auth: AuthCredentials::new(),
            selected_auth: AuthType::NoAuth,
            body: BodyPayloads::new(),
            selected_body: BodyType::NoBody,
        };
        assert(r@.headers =~= Seq::<(Seq<char>, Seq<char>)>::empty());
        r
    }
}

impl RequestData {
    /// The `Authorization` value the selected scheme yields.
    pub fn derive_header(&self) -> (r: Option<String>)
        ensures
            crate::auth::opt_view(r) == derived_header(self@.auth, self@.selected_auth),
    {
        derive_header(&self.auth, self.selected_auth)
    }

    /// Brings the `Authorization` header in line with the selected scheme.
    pub fn sync_auth_header(&mut self)
        ensures
            final(self)@ == (RequestDataView {
                headers: with_auth_header(
                    old(self)@.headers,
                    derived_header(old(self)@.auth, old(self)@.selected_auth),
                ),
                ..old(self)@
            }),
            count_key(final(self)@.headers, authorization_key()) <= 1,
    {
        let derived = derive_header(&self.auth, self.selected_auth);
        apply_to_headers(&mut self.headers, derived);
    }

    /// Selects an authentication scheme: an empty credential is stored for
    /// it unless one is there already, and the `Authorization` header follows
    /// the selection.
    pub fn select_auth(&mut self, scheme: AuthType)
        ensures
            final(self)@ == (RequestDataView {
                selected_auth: scheme,
                auth: provisioned(old(self)@.auth, scheme),
                headers: with_auth_header(
                    old(self)@.headers,
                    derived_header(provisioned(old(self)@.auth, scheme), scheme),
                ),
                ..old(self)@
            }),
            count_key(final(self)@.headers, authorization_key()) <= 1,
    {
        self.selected_auth = scheme;
        self.auth.provision(scheme);
        self.sync_auth_header();
    }

    /// Stores a credential under its scheme; the `Authorization` header
    /// follows.
    pub fn set_credential(&mut self, cred: AuthData)
        ensures
            final(self)@ == (RequestDataView {
                auth: store_entry(old(self)@.auth, cred@.scheme(), cred@),
                headers: with_auth_header(
                    old(self)@.headers,
                    derived_header(
                        store_entry(old(self)@.auth, cred@.scheme(), cred@),
                        old(self)@.selected_auth,
                    ),
                ),
                ..old(self)@
            }),
            count_key(final(self)@.headers, authorization_key()) <= 1,
    {
        self.auth.store(cred);
        self.sync_auth_header();
    }

    /// Selects a body kind; an empty payload is stored for a raw or binary
    /// body unless one is there already.
    pub fn select_body(&mut self, kind: BodyType)
        ensures
            final(self)@ == (RequestDataView {
                selected_body: kind,
                body: if kind is NoBody {
                    old(self)@.body
                } else {
                    provisioned_body(old(self)@.body, kind)
                },
                ..old(self)@
            }),
    {
        self.selected_body = kind;
        match kind {
            BodyType::NoBody => {},
            _ => self.body.provision(kind),
        }
    }

    /// Stores a payload under its kind.
    pub fn set_body(&mut self, payload: BodyData)
        ensures
            final(self)@ == (RequestDataView {
                body: store_entry(old(self)@.body, payload@.kind(), payload@),
                ..old(self)@
            }),
    {
        self.body.store(payload);
    }

    /// The bytes sent for the selected body kind.
    pub fn body_bytes(&self) -> (r: Vec<u8>)
        ensures
            r@ == selected_bytes(self@.body, self@.selected_body),
    {
        self.body.bytes_for(self.selected_body)
    }
}

impl Clone for RequestData {
    fn clone(&self) -> (r: Self)
        ensures
            r@ == self@,
    {
        RequestData {
            name: self.name.clone(),
            method: self.method,
            url_string: self.url_string.clone(),
            headers: copy_pairs(&self.headers),
            auth: self.auth.clone(),
            selected_auth: self.selected_auth,
            body: self.body.clone(),
            selected_body: self.selected_body,
        }
    }
}

/// The authorization pane of a request.
#[derive(Clone, Copy, Debug, PartialEq, Eq, Structural)]
pub struct AuthorizationTab {}

impl AuthorizationTab {
    pub fn new() -> Self {
        AuthorizationTab {  }
    }
}

/// The body pane of a request.
#[derive(Clone, Copy, Debug, PartialEq, Eq, Structural)]
pub struct BodyTab {}

impl BodyTab {
    pub fn new() -> Self {
        BodyTab {  }
    }
}

/// The content of a new request: named `New Request`, `GET`, and empty
/// otherwise.
pub open spec fn fresh_content(c: RequestDataView) -> bool {
    &&& c.name == "New Request"@
    &&& c.method == RequestMethod::Get
    &&& c.url.len() == 0
    &&& c.headers.len() == 0
    &&& c.auth.len() == 0
    &&& c.selected_auth == AuthType::NoAuth
    &&& c.body.len() == 0
    &&& c.selected_body == BodyType::NoBody
}

/// Whether content counts as changed against the hash stored at the last
/// save: always when it was never saved.
pub open spec fn changed_since(saved: Option<u64>, content: RequestDataView) -> bool {
    match saved {
        Some(h) => h != content_hash(content),
        None => true,
    }
}

/// A record never saved counts as changed; right after a save it does not;
/// later it counts as changed exactly when its content hashes otherwise than
/// the saved content, so writing back the same content leaves it unchanged.
pub proof fn lemma_save_tracking(saved: RequestDataView, later: RequestDataView)
    ensures
        changed_since(None, saved),
        !changed_since(Some(content_hash(saved)), saved),
        changed_since(Some(content_hash(saved)), later) == (content_hash(later) != content_hash(
            saved,
        )),
        later == saved ==> !changed_since(Some(content_hash(saved)), later),
{
}

/// Relies on `uuid::Uuid::new_v4`: a random identity; nothing is promised of
/// its value.
#[verifier::external_body]
pub(crate) fn new_identity() -> (r: u128) {
    uuid::Uuid::new_v4().as_u128()
}

/// A request record: a stable identity, the request content with its editor
/// panes, the pending exchange, and save tracking.
pub struct Request {
    uuid: u128,
    request_data: RequestData,
    exchange: Exchange,
    tab: RequestTab,
    auth_tab: AuthorizationTab,
    params_tab: ParametersTab,
    headers_tab: HeadersTab,
    body_tab: BodyTab,
    wants_save: bool,
    saved_data_hash: Option<u64>,
}

impl Request {
    /// The request content.
    pub closed spec fn content(&self) -> RequestDataView {
        self.request_data@
    }

    /// The parameter list kept in step with the URL.
    pub closed spec fn params(&self) -> Seq<(Seq<char>, Seq<char>)> {
        self.params_tab.params()
    }

    /// The exchanges of the record.
    pub closed spec fn exchange_state(&self) -> ExchangeView {
        self.exchange@
    }

    /// The identity of the record.
    pub closed spec fn id(&self) -> u128 {
        self.uuid
    }

    /// The editor pane shown.
    pub closed spec fn shown_tab(&self) -> RequestTab {
        self.tab
    }

    /// Whether the next `do_save` saves.
    pub closed spec fn save_requested(&self) -> bool {
        self.wants_save
    }

    /// The content hash recorded at the last save, if any.
    pub closed spec fn saved_hash(&self) -> Option<u64> {
        self.saved_data_hash
    }

    /// Whether the content counts as changed since the last save.
    pub open spec fn is_changed(&self) -> bool {
        changed_since(self.saved_hash(), self.content())
    }

    /// Identity, save state and exchanges are as in `other`.
    pub open spec fn same_record(&self, other: &Request) -> bool {
        &&& self.id() == other.id()
        &&& self.save_requested() == other.save_requested()
        &&& self.saved_hash() == other.saved_hash()
        &&& self.exchange_state() == other.exchange_state()
    }

    /// A new record with a fresh identity, never saved.
    pub fn new() -> (r: Self)
        ensures
            fresh_content(r.content()),
            r.params().len() == 0,
            !r.save_requested(),
            r.saved_hash() is None,
            r.exchange_state() == (ExchangeView { sent: 0, pending: false, outcome: None }),
    {
        Request {
            uuid: new_identity(),
            request_data: RequestData::default(),
            exchange: Exchange::new(),
            tab: RequestTab::Parameters,
            auth_tab: AuthorizationTab::new(),
            params_tab: ParametersTab::new(),
            headers_tab: HeadersTab::new(),
            body_tab: BodyTab::new(),
            wants_save: false,
            saved_data_hash: None,
        }
    }

    /// A copy of the content under a fresh identity, distinct from this
    /// record's; the copy is unsaved and has no exchange.
    pub fn duplicate(&self) -> (r: Self)
        ensures
            r.id() != self.id(),
            r.content() == self.content(),
            r.params() == self.params(),
            !r.save_requested(),
            r.saved_hash() is None,
            r.exchange_state() == (ExchangeView { sent: 0, pending: false, outcome: None }),
    {
        let mut id = new_identity();
        if id == self.uuid {
            id = if id == u128::MAX {
                0
            } else {
                id + 1
            };
        }
        Request {
            uuid: id,
            request_data: self.request_data.clone(),
            exchange: Exchange::new(),
            tab: self.tab,
            auth_tab: self.auth_tab,
            params_tab: self.params_tab.duplicate(),
            headers_tab: self.headers_tab.duplicate(),
            body_tab: self.body_tab,
            wants_save: false,
            saved_data_hash: None,
        }
    }

    /// The name of the request.
    pub fn name(&self) -> (r: String)
        ensures
            r@ == self.content().name,
    {
        self.request_data.name.clone()
    }

    /// The identity of the record.
    pub fn uuid(&self) -> (r: u128)
        ensures
            r == self.id(),
    {
        self.uuid
    }

    /// Takes on an identity, as when a saved record is loaded.
    pub fn set_identity(&mut self, id: u128)
        ensures
            final(self).id() == id,
            final(self).save_requested() == old(self).save_requested(),
            final(self).saved_hash() == old(self).saved_hash(),
            final(self).exchange_state() == old(self).exchange_state(),
            final(self).content() == old(self).content(),
            final(self).params() == old(self).params(),
    {
        self.uuid = id;
    }

    /// Whether the next `do_save` saves.
    pub fn wants_save(&self) -> (r: bool)
        ensures
            r == self.save_requested(),
    {
        self.wants_save
    }

    /// The content hash recorded at the last save, if any.
    pub fn saved_data_hash(&self) -> (r: Option<u64>)
        ensures
            r == self.saved_hash(),
    {
        self.saved_data_hash
    }

    /// The request content.
    pub fn data(&self) -> (r: &RequestData)
        ensures
            r@ == self.content(),
    {
        &self.request_data
    }

    /// The parameter list kept in step with the URL.
    pub fn parameters(&self) -> (r: &Vec<(String, String)>)
        ensures
            pairs_view(r@) == self.params(),
    {
        self.params_tab.parameters()
    }

    /// The editor pane shown.
    pub fn tab(&self) -> (r: RequestTab)
        ensures
            r == self.shown_tab(),
    {
        self.tab
    }

    /// Shows another editor pane.
    pub fn select_tab(&mut self, tab: RequestTab)
        ensures
            final(self).shown_tab() == tab,
            final(self).content() == old(self).content(),
            final(self).params() == old(self).params(),
            final(self).same_record(old(self)),
    {
        self.tab = tab;
    }

    /// Asks for the next `do_save` to save.
    pub fn mark_want_save(&mut self)
        ensures
            final(self).save_requested(),
            final(self).id() == old(self).id(),
            final(self).saved_hash() == old(self).saved_hash(),
            final(self).content() == old(self).content(),
            final(self).params() == old(self).params(),
            final(self).exchange_state() == old(self).exchange_state(),
    {
        self.wants_save = true;
    }

    /// Saves when a save was asked for: clears the ask and records the hash
    /// of the content; returns whether it saved.
    pub fn do_save(&mut self) -> (saved: bool)
        ensures
            saved == old(self).save_requested(),
            !final(self).save_requested(),
            saved ==> final(self).saved_hash() == Some(content_hash(old(self).content())),
            saved ==> !final(self).is_changed(),
            !saved ==> final(self).saved_hash() == old(self).saved_hash(),
            final(self).id() == old(self).id(),
            final(self).content() == old(self).content(),
            final(self).params() == old(self).params(),
            final(self).exchange_state() == old(self).exchange_state(),
    {
        if !self.wants_save {
            return false;
        }
        self.wants_save = false;
        self.saved_data_hash = Some(hash_content(&self.request_data));
        true
    }

    /// Whether the content changed since the last save; always true before
    /// the first save.
    pub fn changed_since_save(&self) -> (r: bool)
        ensures
            r == self.is_changed(),
    {
        match self.saved_data_hash {
            None => true,
            Some(saved) => saved != hash_content(&self.request_data),
        }
    }

    /// Renames the request.
    pub fn set_name(&mut self, name: String)
        ensures
            final(self).content() == (RequestDataView { name: name@, ..old(self).content() }),
            final(self).params() == old(self).params(),
            final(self).same_record(old(self)),
    {
        self.request_data.name = name;
    }

    /// Sets the HTTP method.
    pub fn set_method(&mut self, method: RequestMethod)
        ensures
            final(self).content() == (RequestDataView { method: method, ..old(self).content() }),
            final(self).params() == old(self).params(),
            final(self).same_record(old(self)),
    {
        self.request_data.method = method;
    }

    /// Sets the URL as typed; the parameter list is read back from it.
    pub fn set_url(&mut self, url: String)
        ensures
            final(self).content() == (RequestDataView { url: url@, ..old(self).content() }),
            final(self).params() == params_of_url(url@),
            final(self).same_record(old(self)),
    {
        self.request_data.url_string = url;
        self.params_tab.url_to_params(&mut self.request_data);
    }

    /// Selects an authentication scheme; see `RequestData::select_auth`.
    pub fn select_auth(&mut self, scheme: AuthType)
        ensures
            final(self).content() == (RequestDataView {
                selected_auth: scheme,
                auth: provisioned(old(self).content().auth, scheme),
                headers: with_auth_header(
                    old(self).content().headers,
                    derived_header(provisioned(old(self).content().auth, scheme), scheme),
                ),
                ..old(self).content()
            }),
            count_key(final(self).content().headers, authorization_key()) <= 1,
            final(self).params() == old(self).params(),
            final(self).same_record(old(self)),
    {
        self.request_data.select_auth(scheme);
    }

    /// Stores a credential; see `RequestData::set_credential`.
    pub fn set_credential(&mut self, cred: AuthData)
        ensures
            final(self).content() == (RequestDataView {
                auth: store_entry(old(self).content().auth, cred@.scheme(), cred@),
                headers: with_auth_header(
                    old(self).content().headers,
                    derived_header(
                        store_entry(old(self).content().auth, cred@.scheme(), cred@),
                        old(self).content().selected_auth,
                    ),
                ),
                ..old(self).content()
            }),
            count_key(final(self).content().headers, authorization_key()) <= 1,
            final(self).params() == old(self).params(),
            final(self).same_record(old(self)),
    {
        self.request_data.set_credential(cred);
    }

    /// Selects a body kind; see `RequestData::select_body`.
    pub fn select_body(&mut self, kind: BodyType)
        ensures
            final(self).content() == (RequestDataView {
                selected_body: kind,
                body: if kind is NoBody {
                    old(self).content().body
                } else {
                    provisioned_body(old(self).content().body, kind)
                },
                ..old(self).content()
            }),
            final(self).params() == old(self).params(),
            final(self).same_record(old(self)),
    {
        self.request_data.select_body(kind);
    }

    /// Stores a body payload under its kind.
    pub fn set_body(&mut self, payload: BodyData)
        ensures
            final(self).content() == (RequestDataView {
                body: store_entry(old(self).content().body, payload@.kind(), payload@),
                ..old(self).content()
            }),
            final(self).params() == old(self).params(),
            final(self).same_record(old(self)),
    {
        self.request_data.set_body(payload);
    }

    /// Edits the parameter at `index`; the URL follows. `false`, with nothing
    /// changed, when there is no such parameter.
    pub fn edit_param(&mut self, index: usize, key: String, value: String) -> (r: bool)
        ensures
            r == (index < old(self).params().len()),
            r ==> final(self).params() == without_blank(
                old(self).params().update(index as int, (key@, value@)),
            ) && final(self).content() == (RequestDataView {
                url: url_with_params(final(self).params(), old(self).content().url),
                ..old(self).content()
            }),
            !r ==> final(self).params() == old(self).params() && final(self).content() == old(
                self,
            ).content(),
            final(self).same_record(old(self)),
    {
        self.params_tab.edit_param(&mut self.request_data, index, key, value)
    }

    /// Removes the parameter at `index`; the URL follows. `false`, with
    /// nothing changed, when there is no such parameter.
    pub fn remove_param(&mut self, index: usize) -> (r: bool)
        ensures
            r == (index < old(self).params().len()),
            r ==> final(self).params() == without_blank(old(self).params().remove(index as int))
                && final(self).content() == (RequestDataView {
                url: url_with_params(final(self).params(), old(self).content().url),
                ..old(self).content()
            }),
            !r ==> final(self).params() == old(self).params() && final(self).content() == old(
                self,
            ).content(),
            final(self).same_record(old(self)),
    {
        self.params_tab.remove_param(&mut self.request_data, index)
    }

    /// Types a new parameter; once it is not blank it joins the list and the
    /// URL follows.
    pub fn edit_new_param(&mut self, key: String, value: String)
        ensures
            is_blank_pair((key@, value@)) ==> final(self).params() == old(self).params()
                && final(self).content() == old(self).content(),
            !is_blank_pair((key@, value@)) ==> final(self).params() == without_blank(
                old(self).params().push((key@, value@)),
            ) && final(self).content() == (RequestDataView {
                url: url_with_params(final(self).params(), old(self).content().url),
                ..old(self).content()
            }),
            final(self).same_record(old(self)),
    {
        self.params_tab.edit_new_param(&mut self.request_data, key, value);
    }

    /// Edits the header at `index`, dropping blank headers. `false`, with
    /// nothing changed, when there is no such header.
    pub fn edit_header(&mut self, index: usize, key: String, value: String) -> (r: bool)
        ensures
            r == (index < old(self).content().headers.len()),
            r ==> final(self).content() == (RequestDataView {
                headers: without_blank(
                    set_header(old(self).content().headers, index as int, (key@, value@)),
                ),
                ..old(self).content()
            }),
            !r ==> final(self).content() == old(self).content(),
            count_key(old(self).content().headers, authorization_key()) <= 1 ==> count_key(
                final(self).content().headers,
                authorization_key(),
            ) <= 1,
            final(self).params() == old(self).params(),
            final(self).same_record(old(self)),
    {
        self.headers_tab.edit_header(&mut self.request_data, index, key, value)
    }

    /// Removes the header at `index`, dropping blank headers. `false`, with
    /// nothing changed, when there is no such header.
    pub fn remove_header(&mut self, index: usize) -> (r: bool)
        ensures
            r == (index < old(self).content().headers.len()),
            r ==> final(self).content() == (RequestDataView {
                headers: without_blank(old(self).content().headers.remove(index as int)),
                ..old(self).content()
            }),
            !r ==> final(self).content() == old(self).content(),
            count_key(final(self).content().headers, authorization_key()) <= count_key(
                old(self).content().headers,
                authorization_key(),
            ),
            final(self).params() == old(self).params(),
            final(self).same_record(old(self)),
    {
        self.headers_tab.remove_header(&mut self.request_data, index)
    }

    /// Types a new header; once it is not blank it joins the list.
    pub fn edit_new_header(&mut self, key: String, value: String)
        ensures
            is_blank_pair((key@, value@)) ==> final(self).content() == old(self).content(),
            !is_blank_pair((key@, value@)) ==> final(self).content() == (RequestDataView {
                headers: without_blank(put_header(old(self).content().headers, (key@, value@))),
                ..old(self).content()
            }),
            count_key(old(self).content().headers, authorization_key()) <= 1 ==> count_key(
                final(self).content().headers,
                authorization_key(),
            ) <= 1,
            final(self).params() == old(self).params(),
            final(self).same_record(old(self)),
    {
        self.headers_tab.edit_new_header(&mut self.request_data, key, value);
    }

    /// Starts an exchange: returns its ticket and the snapshot to send. Any
    /// earlier exchange is no longer awaited. `None`, with nothing changed,
    /// once the counter of sends is exhausted.
    pub fn send_request(&mut self) -> (r: Option<(u64, WireRequest)>)
        ensures
            old(self).exchange_state().sent < u64::MAX ==> {
                &&& final(self).exchange_state() == after_send(old(self).exchange_state())
                &&& r matches Some((ticket, wire))
                &&& ticket == final(self).exchange_state().sent
                &&& is_wire_of(wire, old(self).content())
            },
            old(self).exchange_state().sent >= u64::MAX ==> r is None
                && final(self).exchange_state() == old(self).exchange_state(),
            final(self).id() == old(self).id(),
            final(self).save_requested() == old(self).save_requested(),
            final(self).saved_hash() == old(self).saved_hash(),
            final(self).content() == old(self).content(),
            final(self).params() == old(self).params(),
    {
        match self.exchange.begin() {
            Some(ticket) => Some((ticket, build_wire_request(&self.request_data))),
            None => None,
        }
    }

    /// Hands in what the transfer numbered `ticket` delivered; it is shown
    /// only when it answers the latest send. Returns whether it was taken.
    pub fn receive(&mut self, ticket: u64, fetched: Result<Vec<u8>, String>) -> (taken: bool)
        ensures
            final(self).exchange_state() == after_receive(
                old(self).exchange_state(),
                ticket as nat,
                fetched_view(fetched),
            ),
            taken == (old(self).exchange_state().pending && ticket == old(
                self,
            ).exchange_state().sent),
            final(self).id() == old(self).id(),
            final(self).save_requested() == old(self).save_requested(),
            final(self).saved_hash() == old(self).saved_hash(),
            final(self).content() == old(self).content(),
            final(self).params() == old(self).params(),
    {
        self.exchange.deliver(ticket, fetched)
    }

    /// Whether the latest exchange is still awaited.
    pub fn is_pending(&self) -> (r: bool)
        ensures
            r == self.exchange_state().pending,
    {
        self.exchange.is_pending()
    }

    /// The result shown, if any.
    pub fn response(&self) -> (r: Option<Result<String, String>>)
        ensures
            match r {
                Some(o) => self.exchange_state().outcome == Some(outcome_view(o)),
                None => self.exchange_state().outcome is None,
            },
    {
        self.exchange.outcome()
    }
}

} // verus!
