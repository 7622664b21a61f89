//! Editing the header list of a request. A row written under the
//! `Authorization` key replaces every other `Authorization` entry, so the
//! list never holds two.

use vstd::prelude::*;

use crate::auth::authorization_key;
use crate::pairs::{
    count_key, is_blank_pair, lemma_count_push, lemma_count_remove, lemma_count_update,
    lemma_count_without_blank, lemma_without_key_count, pair_view, pairs_view, remove_blank,
    remove_key, without_blank, without_key,
};
use crate::request::{RequestData, RequestDataView};

verus! {

/// The header list once `row` is added at the end; a row keyed
/// `Authorization` first takes the place of every other such entry.
pub open spec fn put_header(s: Seq<(Seq<char>, Seq<char>)>, row: (Seq<char>, Seq<char>)) -> Seq<
    (Seq<char>, Seq<char>),
> {
    if row.0 == authorization_key() {
        without_key(s, authorization_key()).push(row)
    } else {
        s.push(row)
    }
}

/// The header list once the entry at `i` is set to `row`; a row keyed
/// `Authorization` instead replaces every such entry, the edited one
/// included, at the end.
pub open spec fn set_header(s: Seq<(Seq<char>, Seq<char>)>, i: int, row: (Seq<char>, Seq<char>)) -> Seq<
    (Seq<char>, Seq<char>),
> {
    if row.0 == authorization_key() {
        without_key(s.remove(i), authorization_key()).push(row)
    } else {
        s.update(i, row)
    }
}

/// Adding a header keeps at most one `Authorization` entry where there was at
/// most one.
pub proof fn lemma_put_header_singleton(s: Seq<(Seq<char>, Seq<char>)>, row: (Seq<char>, Seq<char>))
    ensures
        count_key(s, authorization_key()) <= 1 ==> count_key(put_header(s, row), authorization_key())
            <= 1,
        row.0 == authorization_key() ==> count_key(put_header(s, row), authorization_key()) == 1,
{
    let key = authorization_key();
    if row.0 == key {
        lemma_without_key_count(s, key);
        lemma_count_push(without_key(s, key), row, key);
    } else {
        lemma_count_push(s, row, key);
    }
}

/// Setting a header keeps at most one `Authorization` entry where there was
/// at most one.
pub proof fn lemma_set_header_singleton(
    s: Seq<(Seq<char>, Seq<char>)>,
    i: int,
    row: (Seq<char>, Seq<char>),
)
    requires
        0 <= i < s.len(),
    ensures
        count_key(s, authorization_key()) <= 1 ==> count_key(set_header(s, i, row), authorization_key())
            <= 1,
{
    let key = authorization_key();
    if row.0 == key {
        lemma_without_key_count(s.remove(i), key);
        lemma_count_push(without_key(s.remove(i), key), row, key);
    } else {
        lemma_count_update(s, i, row, key);
    }
}

/// The row where a new header is typed.
#[derive(Debug, PartialEq, Eq)]
pub struct HeadersTab {
    new_header: (String, String),
}

impl HeadersTab {
    /// The row being typed.
    pub closed spec fn typed(&self) -> (Seq<char>, Seq<char>) {
        pair_view(self.new_header)
    }

    /// An empty row.
    pub fn new() -> (r: Self)
        ensures
            r.typed() == (Seq::<char>::empty(), Seq::<char>::empty()),
    {
        HeadersTab { new_header: (String::new(), String::new()) }
    }

    /// A copy of the tab.
    pub fn duplicate(&self) -> (r: Self)
        ensures
            r.typed() == self.typed(),
    {
        HeadersTab { new_header: (self.new_header.0.clone(), self.new_header.1.clone()) }
    }

    /// Moves the typed row to the end of the header list unless both its key
    /// and value are empty; returns whether it moved.
    pub fn update_new_header(&mut self, request_data: &mut RequestData) -> (moved: bool)
        ensures
            moved == !is_blank_pair(old(self).typed()),
            moved ==> final(request_data)@ == (RequestDataView {
                headers: put_header(old(request_data)@.headers, old(self).typed()),
                ..old(request_data)@
            }) && final(self).typed() == (Seq::<char>::empty(), Seq::<char>::empty()),
            !moved ==> *final(request_data) == *old(request_data) && final(self).typed()
                == old(self).typed(),
            count_key(old(request_data)@.headers, authorization_key()) <= 1 ==> count_key(
                final(request_data)@.headers,
                authorization_key(),
            ) <= 1,
    {
        if self.new_header.0.as_str().is_empty() && self.new_header.1.as_str().is_empty() {
            return false;
        }
        let mut row = (String::new(), String::new());
        std::mem::swap(&mut self.new_header, &mut row);
        let auth = String::from_str("Authorization");
        if row.0 == auth {
            remove_key(&mut request_data.headers, &auth);
        }
        let ghost before = request_data.headers@;
        request_data.headers.push(row);
        proof {
            assert(pairs_view(request_data.headers@) =~= pairs_view(before).push(pair_view(row)));
            lemma_put_header_singleton(old(request_data)@.headers, pair_view(row));
        }
        true
    }

    /// Sets the key and value of the header at `index`, then drops blank
    /// headers; `false`, with nothing changed, when there is no such header.
    pub fn edit_header(
        &mut self,
        request_data: &mut RequestData,
        index: usize,
        key: String,
        value: String,
    ) -> (r: bool)
        ensures
            r == (index < old(request_data)@.headers.len()),
            r ==> final(request_data)@ == (RequestDataView {
                headers: without_blank(
                    set_header(old(request_data)@.headers, index as int, (key@, value@)),
                ),
                ..old(request_data)@
            }),
            !r ==> *final(request_data) == *old(request_data),
            final(self).typed() == old(self).typed(),
            count_key(old(request_data)@.headers, authorization_key()) <= 1 ==> count_key(
                final(request_data)@.headers,
                authorization_key(),
            ) <= 1,
    {
        if index >= request_data.headers.len() {
            return false;
        }
        let ghost before = request_data.headers@;
        let auth = String::from_str("Authorization");
        if key == auth {
            request_data.headers.remove(index);
            proof {
                assert(pairs_view(request_data.headers@) =~= pairs_view(before).remove(index as int));
            }
            remove_key(&mut request_data.headers, &auth);
            let ghost kept = request_data.headers@;
            request_data.headers.push((key, value));
            proof {
                assert(pairs_view(request_data.headers@) =~= pairs_view(kept).push((key@, value@)));
            }
        } else {
            request_data.headers.set(index, (key, value));
            proof {
                assert(pairs_view(request_data.headers@) =~= pairs_view(before).update(
                    index as int,
                    (key@, value@),
                ));
            }
        }
        let ghost edited = pairs_view(request_data.headers@);
        remove_blank(&mut request_data.headers);
        proof {
            lemma_set_header_singleton(pairs_view(before), index as int, (key@, value@));
            lemma_count_without_blank(edited, authorization_key());
        }
        true
    }

    /// Removes the header at `index`, then drops blank headers; `false`, with
    /// nothing changed, when there is no such header.
    pub fn remove_header(&mut self, request_data: &mut RequestData, index: usize) -> (r: bool)
        ensures
            r == (index < old(request_data)@.headers.len()),
            r ==> final(request_data)@ == (RequestDataView {
                headers: without_blank(old(request_data)@.headers.remove(index as int)),
                ..old(request_data)@
            }),
            !r ==> *final(request_data) == *old(request_data),
            final(self).typed() == old(self).typed(),
            count_key(final(request_data)@.headers, authorization_key()) <= count_key(
                old(request_data)@.headers,
                authorization_key(),
            ),
    {
        if index >= request_data.headers.len() {
            return false;
        }
        let ghost before = request_data.headers@;
        request_data.headers.remove(index);
        proof {
            assert(pairs_view(request_data.headers@) =~= pairs_view(before).remove(index as int));
        }
        let ghost edited = pairs_view(request_data.headers@);
        remove_blank(&mut request_data.headers);
        proof {
            lemma_count_remove(pairs_view(before), index as int, authorization_key());
            lemma_count_without_blank(edited, authorization_key());
        }
        true
    }

    /// Types into the new-header row; once it is not blank it joins the list.
    pub fn edit_new_header(&mut self, request_data: &mut RequestData, key: String, value: String)
        ensures
            is_blank_pair((key@, value@)) ==> *final(request_data) == *old(request_data)
                && final(self).typed() == (key@, value@),
            !is_blank_pair((key@, value@)) ==> final(request_data)@ == (RequestDataView {
                headers: without_blank(put_header(old(request_data)@.headers, (key@, value@))),
                ..old(request_data)@
            }) && final(self).typed() == (Seq::<char>::empty(), Seq::<char>::empty()),
            count_key(old(request_data)@.headers, authorization_key()) <= 1 ==> count_key(
                final(request_data)@.headers,
                authorization_key(),
            ) <= 1,
    {
        self.new_header = (key, value);
        if self.update_new_header(request_data) {
            let ghost edited = request_data@.headers;
            remove_blank(&mut request_data.headers);
            proof {
                lemma_count_without_blank(edited, authorization_key());
            }
        }
    }
}

} // verus!
