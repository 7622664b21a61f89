//! Request bodies: one payload per body kind, and its bytes on the wire.

use vstd::prelude::*;
use vstd::utf8::encode_utf8;

use crate::pairs::{entry_of, key_index, keys_unique, lemma_key_index, store_entry};

verus! {

/// The kind of body a request sends.
#[derive(Clone, Copy, Debug, PartialEq, Eq, Hash, PartialOrd, Ord, Structural)]
pub enum BodyType {
    NoBody,
    Raw,
    Binary,
}

impl Default for BodyType {
    fn default() -> (r: Self)
        ensures
            r == BodyType::NoBody,
    {
        BodyType::NoBody
    }
}

/// A body payload.
#[allow(inconsistent_fields)]
#[derive(Debug, PartialEq, Eq, Hash)]
pub enum BodyData {
    NoBody,
    Raw { data: String },
    Binary { data: Vec<u8> },
}

/// The content of a body payload.
pub enum BodyView {
    NoBody,
    Raw { text: Seq<char> },
    Binary { bytes: Seq<u8> },
}

impl BodyView {
    /// The kind of the payload.
    pub open spec fn kind(self) -> BodyType {
        match self {
            BodyView::NoBody => BodyType::NoBody,
            BodyView::Raw { .. } => BodyType::Raw,
            BodyView::Binary { .. } => BodyType::Binary,
        }
    }

    /// The bytes sent: nothing, the UTF-8 encoding of the text, or the bytes
    /// themselves.
    pub open spec fn bytes(self) -> Seq<u8> {
        match self {
            BodyView::NoBody => Seq::empty(),
            BodyView::Raw { text } => encode_utf8(text),
            BodyView::Binary { bytes } => bytes,
        }
    }

    /// The empty payload of a kind.
    pub open spec fn empty_for(kind: BodyType) -> BodyView {
        match kind {
            BodyType::NoBody => BodyView::NoBody,
            BodyType::Raw => BodyView::Raw { text: Seq::empty() },
            BodyType::Binary => BodyView::Binary { bytes: Seq::empty() },
        }
    }
}

impl View for BodyData {
    type V = BodyView;

    open spec fn view(&self) -> BodyView {
        match self {
            BodyData::NoBody => BodyView::NoBody,
            BodyData::Raw { data } => BodyView::Raw { text: data@ },
            BodyData::Binary { data } => BodyView::Binary { bytes: data@ },
        }
    }
}

impl Clone for BodyData {
    fn clone(&self) -> (r: Self)
        ensures
            r@ == self@,
    {
        match self {
            BodyData::NoBody => BodyData::NoBody,
            BodyData::Raw { data } => BodyData::Raw { data: data.clone() },
            BodyData::Binary { data } => {
                let copy = data.clone();
                assert(copy@ =~= data@);
                BodyData::Binary { data: copy }
            },
        }
    }
}

impl Default for BodyData {
    fn default() -> (r: Self)
        ensures
            r@ == BodyView::NoBody,
    {
        BodyData::NoBody
    }
}

impl BodyData {
    /// The bytes sent for this payload.
    pub fn to_body(self) -> (r: Vec<u8>)
        ensures
            r@ == self@.bytes(),
    {
        match self {
            BodyData::NoBody => Vec::new(),
            BodyData::Raw { data } => data.as_str().as_bytes_vec(),
            BodyData::Binary { data } => data,
        }
    }

    /// The kind of the payload.
    pub fn kind(&self) -> (r: BodyType)
        ensures
            r == self@.kind(),
    {
        match self {
            BodyData::NoBody => BodyType::NoBody,
            BodyData::Raw { .. } => BodyType::Raw,
            BodyData::Binary { .. } => BodyType::Binary,
        }
    }

    /// The empty payload of a kind.
    pub fn empty_for(kind: BodyType) -> (r: Self)
        ensures
            r@ == BodyView::empty_for(kind),
    {
        match kind {
            BodyType::NoBody => BodyData::NoBody,
            BodyType::Raw => BodyData::Raw { data: String::new() },
            BodyType::Binary => BodyData::Binary { data: Vec::new() },
        }
    }
}

/// One payload per kind, each of that kind.
pub open spec fn payloads_wf(s: Seq<(BodyType, BodyView)>) -> bool {
    &&& keys_unique(s)
    &&& forall|i: int| 0 <= i < s.len() ==> (#[trigger] s[i].1).kind() == s[i].0
}

/// The payload list with an empty payload added for `kind` when it has none
/// yet.
pub open spec fn provisioned_body(s: Seq<(BodyType, BodyView)>, kind: BodyType) -> Seq<
    (BodyType, BodyView),
> {
    if entry_of(s, kind) is Some {
        s
    } else {
        s.push((kind, BodyView::empty_for(kind)))
    }
}

/// The bytes sent for the selected kind: those of its payload, or nothing
/// where none is stored.
pub open spec fn selected_bytes(s: Seq<(BodyType, BodyView)>, kind: BodyType) -> Seq<u8> {
    match entry_of(s, kind) {
        Some(b) => b.bytes(),
        None => Seq::empty(),
    }
}

spec fn entries_view(s: Seq<(BodyType, BodyData)>) -> Seq<(BodyType, BodyView)> {
    s.map_values(|e: (BodyType, BodyData)| (e.0, e.1@))
}

/// The stored payload of each body kind, so that switching kinds keeps what
/// was entered.
#[derive(Debug, PartialEq, Eq, Hash)]
pub struct BodyPayloads {
    entries: Vec<(BodyType, BodyData)>,
}

impl View for BodyPayloads {
    type V = Seq<(BodyType, BodyView)>;

    closed spec fn view(&self) -> Seq<(BodyType, BodyView)> {
        entries_view(self.entries@)
    }
}

impl BodyPayloads {
    #[verifier::type_invariant]
    spec fn inv(self) -> bool {
        payloads_wf(self@)
    }

    /// No stored payload.
    pub fn new() -> (r: Self)
        ensures
            r@ == Seq::<(BodyType, BodyView)>::empty(),
    {
        let r = BodyPayloads { entries: Vec::new() };
        assert(r@ =~= Seq::<(BodyType, BodyView)>::empty());
        r
    }

    fn find(&self, kind: BodyType) -> (r: Option<usize>)
        ensures
            match r {
                Some(i) => i == key_index(self@, kind) && i < self.entries.len(),
                None => key_index(self@, kind) < 0,
            },
    {
        let ghost view = self@;
        let mut found: Option<usize> = None;
        for i in 0..self.entries.len()
            invariant
                view == self@,
                view.len() == self.entries.len(),
                match found {
                    Some(j) => j == key_index(view.take(i as int), kind) && j < i,
                    None => key_index(view.take(i as int), kind) < 0,
                },
        {
            proof {
                assert(view.take(i + 1).drop_last() =~= view.take(i as int));
            }
            if self.entries[i].0 == kind {
                found = Some(i);
            }
        }
        proof {
            assert(view.take(self.entries.len() as int) =~= view);
        }
        found
    }

    /// The payload stored for a kind.
    pub fn get(&self, kind: BodyType) -> (r: Option<&BodyData>)
        ensures
            payloads_wf(self@),
            match r {
                Some(d) => entry_of(self@, kind) == Some(d@),
                None => entry_of(self@, kind) is None,
            },
    {
        proof {
            use_type_invariant(self);
        }
        match self.find(kind) {
            Some(i) => Some(&self.entries[i].1),
            None => None,
        }
    }

    /// Adds the empty payload of `kind` when none is stored for it; stored
    /// payloads are kept.
    pub fn provision(&mut self, kind: BodyType)
        ensures
            final(self)@ == provisioned_body(old(self)@, kind),
            payloads_wf(final(self)@),
    {
        proof {
            use_type_invariant(&*self);
        }
        if self.find(kind).is_none() {
            let payload = BodyData::empty_for(kind);
            let ghost before = self@;
            proof {
                lemma_key_index(before, kind);
            }
            let mut entries: Vec<(BodyType, BodyData)> = Vec::new();
            std::mem::swap(&mut self.entries, &mut entries);
            entries.push((kind, payload));
            proof {
                assert(entries_view(entries@) =~= before.push((kind, BodyView::empty_for(kind))));
            }
            self.entries = entries;
        }
    }

    /// Stores a payload under its own kind, replacing the one stored there
    /// before.
    pub fn store(&mut self, payload: BodyData)
        ensures
            final(self)@ == store_entry(old(self)@, payload@.kind(), payload@),
            payloads_wf(final(self)@),
    {
        proof {
            use_type_invariant(&*self);
        }
        let kind = payload.kind();
        let ghost before = self@;
        let ghost pv = payload@;
        proof {
            lemma_key_index(before, kind);
        }
        match self.find(kind) {
            Some(i) => {
                let mut entries: Vec<(BodyType, BodyData)> = Vec::new();
                std::mem::swap(&mut self.entries, &mut entries);
                entries.set(i, (kind, payload));
                proof {
                    assert(entries_view(entries@) =~= before.update(i as int, (kind, pv)));
                }
                self.entries = entries;
            },
            None => {
                let mut entries: Vec<(BodyType, BodyData)> = Vec::new();
                std::mem::swap(&mut self.entries, &mut entries);
                entries.push((kind, payload));
                proof {
                    assert(entries_view(entries@) =~= before.push((kind, pv)));
                }
                self.entries = entries;
            },
        }
    }

    /// The bytes sent for the selected kind.
    pub fn bytes_for(&self, kind: BodyType) -> (r: Vec<u8>)
        ensures
            r@ == selected_bytes(self@, kind),
    {
        match self.get(kind) {
            Some(d) => d.clone().to_body(),
            None => Vec::new(),
        }
    }
}

impl Clone for BodyPayloads {
    fn clone(&self) -> (r: Self)
        ensures
            r@ == self@,
    {
        let mut entries: Vec<(BodyType, BodyData)> = Vec::new();
        for i in 0..self.entries.len()
            invariant
                entries_view(entries@) == entries_view(self.entries@).take(i as int),
        {
            let entry = (self.entries[i].0, self.entries[i].1.clone());
            let ghost prev = entries@;
            entries.push(entry);
            proof {
                assert(entries_view(entries@) =~= entries_view(prev).push((entry.0, entry.1@)));
                assert(entries_view(entries@) =~= entries_view(self.entries@).take(i + 1));
            }
        }
        proof {
            use_type_invariant(self);
            assert(entries_view(self.entries@).take(self.entries.len() as int) =~= self@);
        }
        BodyPayloads { entries }
    }
}

} // verus!
