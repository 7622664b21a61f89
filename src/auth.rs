//! Authentication schemes, stored credentials and the `Authorization`
//! header derived from them.

use vstd::prelude::*;
use vstd::utf8::encode_utf8;

use crate::pairs::{
    count_key, entry_of, key_index, keys_unique, lemma_key_index, lemma_without_key_count,
    pairs_view, remove_key, store_entry, without_key,
};

verus! {

/// An authentication scheme a request can select.
#[derive(Clone, Copy, Debug, PartialEq, Eq, Hash, PartialOrd, Ord, Structural)]
pub enum AuthType {
    NoAuth,
    Inherit,
    Basic,
    Bearer,
}

impl Default for AuthType {
    fn default() -> (r: Self)
        ensures
            r == AuthType::NoAuth,
    {
        AuthType::NoAuth
    }
}

impl AuthType {
    /// The name shown for the scheme.
    pub open spec fn label(self) -> Seq<char> {
        match self {
            AuthType::NoAuth => "None"@,
            AuthType::Inherit => "Inherit"@,
            AuthType::Basic => "Basic"@,
            AuthType::Bearer => "Bearer Token"@,
        }
    }

    /// The name shown for the scheme.
    pub fn to_string(&self) -> (r: String)
        ensures
            r@ == self.label(),
    {
        match self {
            AuthType::NoAuth => String::from_str("None"),
            AuthType::Inherit => String::from_str("Inherit"),
            AuthType::Basic => String::from_str("Basic"),
            AuthType::Bearer => String::from_str("Bearer Token"),
        }
    }

    /// Schemes that carry a credential and yield a header of their own.
    pub open spec fn has_credential(self) -> bool {
        self is Basic || self is Bearer
    }
}

/// The secret material of a scheme.
#[derive(Debug, PartialEq, Eq, Hash)]
pub enum AuthData {
    NoAuth,
    Basic { username: String, password: String },
    Bearer { token: String },
}

/// The text of a credential.
pub enum CredentialView {
    NoAuth,
    Basic { username: Seq<char>, password: Seq<char> },
    Bearer { token: Seq<char> },
}

/// The key of the header that carries the credential.
pub open spec fn authorization_key() -> Seq<char> {
    "Authorization"@
}

/// Padded standard-alphabet Base64 text of a byte string.
pub uninterp spec fn base64_standard(bytes: Seq<u8>) -> Seq<char>;

impl CredentialView {
    /// The scheme the credential belongs to.
    pub open spec fn scheme(self) -> AuthType {
        match self {
            CredentialView::NoAuth => AuthType::NoAuth,
            CredentialView::Basic { .. } => AuthType::Basic,
            CredentialView::Bearer { .. } => AuthType::Bearer,
        }
    }

    /// The `Authorization` header value: Base64 of `username:password`, or
    /// `Bearer ` followed by the token.
    pub open spec fn header_value(self) -> Seq<char> {
        match self {
            CredentialView::NoAuth => Seq::empty(),
            CredentialView::Basic { username, password } => base64_standard(
                encode_utf8(username + ":"@ + password),
            ),
            CredentialView::Bearer { token } => "Bearer "@ + token,
        }
    }

    /// The empty credential provisioned when a scheme is first selected.
    pub open spec fn empty_for(scheme: AuthType) -> CredentialView {
        match scheme {
            AuthType::Basic => CredentialView::Basic {
                username: Seq::empty(),
                password: Seq::empty(),
            },
            AuthType::Bearer => CredentialView::Bearer { token: Seq::empty() },
            _ => CredentialView::NoAuth,
        }
    }
}

impl View for AuthData {
    type V = CredentialView;

    open spec fn view(&self) -> CredentialView {
        match self {
            AuthData::NoAuth => CredentialView::NoAuth,
            AuthData::Basic { username, password } => CredentialView::Basic {
                username: username@,
                password: password@,
            },
            AuthData::Bearer { token } => CredentialView::Bearer { token: token@ },
        }
    }
}

impl Clone for AuthData {
    fn clone(&self) -> (r: Self)
        ensures
            r == *self,
    {
        match self {
            AuthData::NoAuth => AuthData::NoAuth,
            AuthData::Basic { username, password } => AuthData::Basic {
                username: username.clone(),
                password: password.clone(),
            },
            AuthData::Bearer { token } => AuthData::Bearer { token: token.clone() },
        }
    }
}

impl Default for AuthData {
    fn default() -> (r: Self)
        ensures
            r@ == CredentialView::NoAuth,
    {
        AuthData::NoAuth
    }
}

/// Relies on the standard engine of `base64` (re-exported by `base64_url`):
/// its `encode` returns the padded standard-alphabet Base64 text of the bytes.
#[verifier::external_body]
fn encode_base64(text: &str) -> (r: String)
    ensures
        r@ == base64_standard(encode_utf8(text@)),
{
    base64_url::base64::Engine::encode(&base64_url::base64::engine::general_purpose::STANDARD, text)
}

impl AuthData {
    /// The `Authorization` header value of the credential.
    pub fn to_header(&self) -> (r: String)
        requires
            !(self is NoAuth),
        ensures
            r@ == self@.header_value(),
    {
        match self {
            AuthData::NoAuth => unreached(),
            AuthData::Basic { username, password } => {
                let mut cred = username.clone();
                cred.append(":");
                cred.append(password.as_str());
                encode_base64(cred.as_str())
            },
            AuthData::Bearer { token } => {
                let mut header = String::from_str("Bearer ");
                header.append(token.as_str());
                header
            },
        }
    }

    /// The scheme the credential belongs to.
    pub fn get_type(&self) -> (r: AuthType)
        ensures
            r == self@.scheme(),
    {
        match self {
            AuthData::NoAuth => AuthType::NoAuth,
            AuthData::Basic { .. } => AuthType::Basic,
            AuthData::Bearer { .. } => AuthType::Bearer,
        }
    }

    /// The empty credential of a scheme.
    pub fn default_from_type(auth_type: &AuthType) -> (r: Self)
        ensures
            r@ == CredentialView::empty_for(*auth_type),
    {
        match auth_type {
            AuthType::NoAuth | AuthType::Inherit => AuthData::NoAuth,
            AuthType::Basic => AuthData::Basic { username: String::new(), password: String::new() },
            AuthType::Bearer => AuthData::Bearer { token: String::new() },
        }
    }
}

/// A credential may be stored under its own scheme; `Inherit` holds no
/// credential.
pub open spec fn fits_scheme(scheme: AuthType, cred: CredentialView) -> bool {
    cred.scheme() == scheme || (scheme is Inherit && cred is NoAuth)
}

/// One credential per scheme, each of that scheme.
pub open spec fn credentials_wf(s: Seq<(AuthType, CredentialView)>) -> bool {
    &&& keys_unique(s)
    &&& forall|i: int| 0 <= i < s.len() ==> fits_scheme(#[trigger] s[i].0, s[i].1)
}

/// The credential list with an empty credential added for `scheme` when it
/// has none yet.
pub open spec fn provisioned(s: Seq<(AuthType, CredentialView)>, scheme: AuthType) -> Seq<
    (AuthType, CredentialView),
> {
    if entry_of(s, scheme) is Some {
        s
    } else {
        s.push((scheme, CredentialView::empty_for(scheme)))
    }
}

/// The header a selected scheme yields from the stored credentials: none for
/// `None` and `Inherit` (which defers to the collection), nor where no
/// credential is stored.
pub open spec fn derived_header(s: Seq<(AuthType, CredentialView)>, scheme: AuthType) -> Option<
    Seq<char>,
> {
    if scheme.has_credential() {
        match entry_of(s, scheme) {
            Some(c) => if c is NoAuth {
                None
            } else {
                Some(c.header_value())
            },
            None => None,
        }
    } else {
        None
    }
}

/// The header list once the `Authorization` entries are replaced by the
/// derived value, if any, appended at the end.
pub open spec fn with_auth_header(s: Seq<(Seq<char>, Seq<char>)>, derived: Option<Seq<char>>) -> Seq<
    (Seq<char>, Seq<char>),
> {
    let rest = without_key(s, authorization_key());
    match derived {
        Some(h) => rest.push((authorization_key(), h)),
        None => rest,
    }
}

/// The text of an optional string.
pub open spec fn opt_view(o: Option<String>) -> Option<Seq<char>> {
    match o {
        Some(s) => Some(s@),
        None => None,
    }
}

spec fn entries_view(s: Seq<(AuthType, AuthData)>) -> Seq<(AuthType, CredentialView)> {
    s.map_values(|e: (AuthType, AuthData)| (e.0, e.1@))
}

/// The stored credential of each scheme that has been selected, so that
/// switching schemes back and forth keeps what was typed.
#[derive(Debug, PartialEq, Eq, Hash)]
pub struct AuthCredentials {
    entries: Vec<(AuthType, AuthData)>,
}

impl View for AuthCredentials {
    type V = Seq<(AuthType, CredentialView)>;

    closed spec fn view(&self) -> Seq<(AuthType, CredentialView)> {
        entries_view(self.entries@)
    }
}

impl AuthCredentials {
    #[verifier::type_invariant]
    spec fn inv(self) -> bool {
        credentials_wf(self@)
    }

    /// No stored credential.
    pub fn new() -> (r: Self)
        ensures
            r@ == Seq::<(AuthType, CredentialView)>::empty(),
    {
        let r = AuthCredentials { entries: Vec::new() };
        assert(r@ =~= Seq::<(AuthType, CredentialView)>::empty());
        r
    }

    fn find(&self, scheme: AuthType) -> (r: Option<usize>)
        ensures
            match r {
                Some(i) => i == key_index(self@, scheme) && i < self.entries.len(),
                None => key_index(self@, scheme) < 0,
            },
    {
        let ghost view = self@;
        let mut found: Option<usize> = None;
        for i in 0..self.entries.len()
            invariant
                view == self@,
                view.len() == self.entries.len(),
                match found {
                    Some(j) => j == key_index(view.take(i as int), scheme) && j < i,
                    None => key_index(view.take(i as int), scheme) < 0,
                },
        {
            proof {
                assert(view.take(i + 1).drop_last() =~= view.take(i as int));
            }
            if self.entries[i].0 == scheme {
                found = Some(i);
            }
        }
        proof {
            assert(view.take(self.entries.len() as int) =~= view);
        }
        found
    }

    /// The credential stored for a scheme.
    pub fn get(&self, scheme: AuthType) -> (r: Option<&AuthData>)
        ensures
            credentials_wf(self@),
            match r {
                Some(d) => entry_of(self@, scheme) == Some(d@),
                None => entry_of(self@, scheme) is None,
            },
    {
        proof {
            use_type_invariant(self);
        }
        match self.find(scheme) {
            Some(i) => Some(&self.entries[i].1),
            None => None,
        }
    }

    /// Adds the empty credential of `scheme` when none is stored for it;
    /// stored credentials are kept.
    pub fn provision(&mut self, scheme: AuthType)
        ensures
            final(self)@ == provisioned(old(self)@, scheme),
            credentials_wf(final(self)@),
    {
        proof {
            use_type_invariant(&*self);
        }
        if self.find(scheme).is_none() {
            let cred = AuthData::default_from_type(&scheme);
            let ghost before = self@;
            proof {
                lemma_key_index(before, scheme);
            }
            let mut entries: Vec<(AuthType, AuthData)> = Vec::new();
            std::mem::swap(&mut self.entries, &mut entries);
            entries.push((scheme, cred));
            proof {
                assert(entries_view(entries@) =~= before.push(
                    (scheme, CredentialView::empty_for(scheme)),
                ));
            }
            self.entries = entries;
        }
    }

    /// Stores a credential under its own scheme, replacing the one stored
    /// there before.
    pub fn store(&mut self, cred: AuthData)
        ensures
            final(self)@ == store_entry(old(self)@, cred@.scheme(), cred@),
            credentials_wf(final(self)@),
    {
        proof {
            use_type_invariant(&*self);
        }
        let scheme = cred.get_type();
        let ghost before = self@;
        let ghost cv = cred@;
        proof {
            lemma_key_index(before, scheme);
        }
        match self.find(scheme) {
            Some(i) => {
                let mut entries: Vec<(AuthType, AuthData)> = Vec::new();
                std::mem::swap(&mut self.entries, &mut entries);
                entries.set(i, (scheme, cred));
                proof {
                    assert(entries_view(entries@) =~= before.update(i as int, (scheme, cv)));
                }
                self.entries = entries;
            },
            None => {
                let mut entries: Vec<(AuthType, AuthData)> = Vec::new();
                std::mem::swap(&mut self.entries, &mut entries);
                entries.push((scheme, cred));
                proof {
                    assert(entries_view(entries@) =~= before.push((scheme, cv)));
                }
                self.entries = entries;
            },
        }
    }
}

/// The header that `scheme` yields from the stored credentials.
pub fn derive_header(creds: &AuthCredentials, scheme: AuthType) -> (r: Option<String>)
    ensures
        opt_view(r) == derived_header(creds@, scheme),
{
    match scheme {
        AuthType::NoAuth | AuthType::Inherit => None,
        _ => match creds.get(scheme) {
            Some(d) => match d {
                AuthData::NoAuth => None,
                _ => Some(d.to_header()),
            },
            None => None,
        },
    }
}

/// Replaces every `Authorization` entry of the header list by the derived
/// value, if any, appended at the end; the other headers keep their order.
pub fn apply_to_headers(headers: &mut Vec<(String, String)>, derived: Option<String>)
    ensures
        pairs_view(final(headers)@) == with_auth_header(pairs_view(old(headers)@), opt_view(derived)),
        count_key(pairs_view(final(headers)@), authorization_key()) <= 1,
{
    let key = String::from_str("Authorization");
    remove_key(headers, &key);
    proof {
        lemma_singleton_after_apply(pairs_view(old(headers)@), opt_view(derived));
    }
    match derived {
        Some(value) => {
            let ghost before = headers@;
            headers.push((key, value));
            proof {
                assert(pairs_view(headers@) =~= pairs_view(before).push(
                    (authorization_key(), value@),
                ));
            }
        },
        None => {},
    }
}

/// Whatever the header list held before, once the derived header has been
/// applied it holds at most one `Authorization` entry.
pub proof fn lemma_singleton_after_apply(
    headers: Seq<(Seq<char>, Seq<char>)>,
    derived: Option<Seq<char>>,
)
    ensures
        count_key(with_auth_header(headers, derived), authorization_key()) <= 1,
{
    let rest = without_key(headers, authorization_key());
    lemma_without_key_count(headers, authorization_key());
    if let Some(h) = derived {
        assert(rest.push((authorization_key(), h)).drop_last() =~= rest);
    }
}

impl Clone for AuthCredentials {
    fn clone(&self) -> (r: Self)
        ensures
            r@ == self@,
    {
        let mut entries: Vec<(AuthType, AuthData)> = Vec::new();
        for i in 0..self.entries.len()
            invariant
                entries_view(entries@) == entries_view(self.entries@).take(i as int),
        {
            let entry = (self.entries[i].0, self.entries[i].1.clone());
            let ghost prev = entries@;
            entries.push(entry);
            proof {
                assert(entries_view(entries@) =~= entries_view(prev).push((entry.0, entry.1@)));
                assert(entries_view(entries@) =~= entries_view(self.entries@).take(i + 1));
            }
        }
        proof {
            use_type_invariant(self);
            assert(entries_view(self.entries@).take(self.entries.len() as int) =~= self@);
        }
        AuthCredentials { entries }
    }
}

} // verus!
