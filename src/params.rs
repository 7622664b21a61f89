//! Keeps a list of query parameters and the query of the request URL in
//! step: the list is written into the URL, and the URL is read back into the
//! list.

use vstd::prelude::*;
use vstd::utf8::{encode_scalar, encode_utf8};

use crate::pairs::{is_blank_pair, pair_view, pairs_view, remove_blank, without_blank};
use crate::request::{RequestData, RequestDataView};

verus! {

/// An ASCII letter or digit.
pub open spec fn is_alphanumeric_byte(b: u8) -> bool {
    (48 <= b && b <= 57) || (65 <= b && b <= 90) || (97 <= b && b <= 122)
}

/// Upper-case hex digit of a value below 16.
pub open spec fn hex_digit(n: u8) -> char {
    if n < 10 {
        ((48 + n) as u8) as char
    } else {
        ((55 + n) as u8) as char
    }
}

/// A byte as it stands in a percent-encoded text: letters and digits as
/// themselves, every other byte as `%` and two upper-case hex digits.
pub open spec fn percent_byte(b: u8) -> Seq<char> {
    if is_alphanumeric_byte(b) {
        seq![b as char]
    } else {
        seq!['%', hex_digit(b / 16), hex_digit(b % 16)]
    }
}

/// The percent-encoding of a byte string, byte by byte.
pub open spec fn percent_encoded(bytes: Seq<u8>) -> Seq<char>
    decreases bytes.len(),
{
    if bytes.len() == 0 {
        Seq::empty()
    } else {
        percent_encoded(bytes.drop_last()) + percent_byte(bytes.last())
    }
}

/// The query pairs of a URL, decoded, in order; `None` when the text is not a
/// URL.
pub uninterp spec fn url_query_pairs(url: Seq<char>) -> Option<Seq<(Seq<char>, Seq<char>)>>;

/// Relies on `percent_encoding::percent_encode` with `NON_ALPHANUMERIC`: each
/// ASCII letter or digit of the UTF-8 bytes is kept, every other byte becomes
/// `%` and two upper-case hex digits.
#[verifier::external_body]
fn percent_encode_text(text: &str) -> (r: String)
    ensures
        r@ == percent_encoded(encode_utf8(text@)),
{
    percent_encoding::percent_encode(text.as_bytes(), percent_encoding::NON_ALPHANUMERIC).collect()
}

/// Relies on `url::Url::parse` and `Url::query_pairs`: `None` when the text
/// does not parse as a URL, else its decoded query pairs in order.
#[verifier::external_body]
fn parse_query_pairs(url: &str) -> (r: Option<Vec<(String, String)>>)
    ensures
        match r {
            Some(v) => url_query_pairs(url@) == Some(pairs_view(v@)),
            None => url_query_pairs(url@) is None,
        },
{
    url::Url::parse(url).ok().map(
        |u| u.query_pairs().map(|(k, v)| (k.into_owned(), v.into_owned())).collect(),
    )
}

/// Index of the first `c` of the text, or its length when there is none.
pub open spec fn first_of(s: Seq<char>, c: char) -> int
    decreases s.len(),
{
    if s.len() == 0 {
        0
    } else if s[0] == c {
        0
    } else {
        1 + first_of(s.drop_first(), c)
    }
}

/// Index of the last `c` of the text, or -1 when there is none.
pub open spec fn last_of(s: Seq<char>, c: char) -> int
    decreases s.len(),
{
    if s.len() == 0 {
        -1
    } else if s.last() == c {
        s.len() - 1
    } else {
        last_of(s.drop_last(), c)
    }
}

/// The URL without its query: the text before the first `?`.
pub open spec fn base_of(url: Seq<char>) -> Seq<char> {
    url.take(first_of(url, '?'))
}

/// The first `c` stands at `i` when none comes before it.
pub proof fn lemma_first_of(s: Seq<char>, c: char, i: int)
    requires
        0 <= i <= s.len(),
        forall|j: int| 0 <= j < i ==> s[j] != c,
        i == s.len() || s[i] == c,
    ensures
        first_of(s, c) == i,
    decreases i,
{
    if i > 0 {
        lemma_first_of(s.drop_first(), c, i - 1);
    }
}

/// The first `c` lies within the text and none comes before it.
pub proof fn lemma_first_of_bounds(s: Seq<char>, c: char)
    ensures
        0 <= first_of(s, c) <= s.len(),
        forall|j: int| 0 <= j < first_of(s, c) ==> s[j] != c,
        first_of(s, c) == s.len() || s[first_of(s, c)] == c,
    decreases s.len(),
{
    if s.len() > 0 && s[0] != c {
        lemma_first_of_bounds(s.drop_first(), c);
        assert forall|j: int| 0 <= j < first_of(s, c) implies s[j] != c by {
            if j > 0 {
                assert(s[j] == s.drop_first()[j - 1]);
            }
        }
    }
}

/// One parameter as it stands in the query: the encoded key, then `=` and the
/// encoded value unless the value is empty.
pub open spec fn pair_text(p: (Seq<char>, Seq<char>)) -> Seq<char> {
    let key = percent_encoded(encode_utf8(p.0));
    let value = percent_encoded(encode_utf8(p.1));
    if value.len() == 0 {
        key
    } else {
        key + "="@ + value
    }
}

/// The parameters joined with `&`.
pub open spec fn query_text(ps: Seq<(Seq<char>, Seq<char>)>) -> Seq<char>
    decreases ps.len(),
{
    if ps.len() == 0 {
        Seq::empty()
    } else if ps.len() == 1 {
        pair_text(ps[0])
    } else {
        query_text(ps.drop_last()) + "&"@ + pair_text(ps.last())
    }
}

/// The URL with its query replaced by the parameters: `base?query`, or the
/// base alone when there are none.
pub open spec fn url_with_params(ps: Seq<(Seq<char>, Seq<char>)>, url: Seq<char>) -> Seq<char> {
    if ps.len() == 0 {
        base_of(url)
    } else {
        base_of(url) + "?"@ + query_text(ps)
    }
}

/// Writing the same parameters into a URL that already holds them changes
/// nothing: the result keeps the base of the URL it was made from.
pub proof fn lemma_params_to_url_stable(ps: Seq<(Seq<char>, Seq<char>)>, url: Seq<char>)
    ensures
        base_of(url_with_params(ps, url)) == base_of(url),
        url_with_params(ps, url_with_params(ps, url)) == url_with_params(ps, url),
{
    let b = base_of(url);
    lemma_first_of_bounds(url, '?');
    assert forall|j: int| 0 <= j < b.len() implies b[j] != '?' by {}
    if ps.len() == 0 {
        lemma_first_of(b, '?', b.len() as int);
        assert(b.take(b.len() as int) =~= b);
    } else {
        reveal_strlit("?");
        let t = b + "?"@ + query_text(ps);
        assert forall|j: int| 0 <= j < b.len() implies t[j] != '?' by {
            assert(t[j] == b[j]);
        }
        assert(t[b.len() as int] == '?');
        lemma_first_of(t, '?', b.len() as int);
        assert(t.take(b.len() as int) =~= b);
    }
}

/// An upper-case hex digit.
pub open spec fn is_hex_digit(c: char) -> bool {
    ('0' <= c && c <= '9') || ('A' <= c && c <= 'F')
}

/// The value of an upper-case hex digit.
pub open spec fn hex_value(c: char) -> int {
    if c <= '9' {
        c as int - 48
    } else {
        c as int - 55
    }
}

/// Percent-decoding: `%` and two hex digits stand for one byte, any other
/// character for its own code.
pub open spec fn percent_decoded(s: Seq<char>) -> Seq<u8>
    decreases s.len(),
{
    if s.len() == 0 {
        Seq::empty()
    } else if s.len() >= 3 && s[0] == '%' && is_hex_digit(s[1]) && is_hex_digit(s[2]) {
        seq![(hex_value(s[1]) * 16 + hex_value(s[2])) as u8] + percent_decoded(s.subrange(3, s.len() as int))
    } else {
        seq![s[0] as u8] + percent_decoded(s.drop_first())
    }
}

proof fn lemma_percent_byte(b: u8, rest: Seq<char>)
    ensures
        percent_decoded(percent_byte(b) + rest) == seq![b] + percent_decoded(rest),
        forall|i: int| 0 <= i < percent_byte(b).len() ==> (#[trigger] percent_byte(b)[i] == '%'
            || is_alphanumeric_byte(percent_byte(b)[i] as u8)),
{
    let t = percent_byte(b) + rest;
    if is_alphanumeric_byte(b) {
        assert(t.drop_first() =~= rest);
        assert((b as char) as u8 == b);
        assert(t[0] != '%');
    } else {
        let hi = b / 16;
        let lo = b % 16;
        assert(is_hex_digit(hex_digit(hi)) && hex_value(hex_digit(hi)) == hi);
        assert(is_hex_digit(hex_digit(lo)) && hex_value(hex_digit(lo)) == lo);
        assert(t.subrange(3, t.len() as int) =~= rest);
        assert(hi * 16 + lo == b);
        assert(!is_alphanumeric_byte(hex_digit(hi) as u8) ==> hex_digit(hi) == '%') by {
            if hi < 10 {
            } else {
            }
        }
        assert(!is_alphanumeric_byte(hex_digit(lo) as u8) ==> hex_digit(lo) == '%') by {
            if lo < 10 {
            } else {
            }
        }
    }
}

/// Encoding a byte string in front of more text: the encoding of its first
/// byte comes first.
proof fn lemma_percent_encoded_front(bytes: Seq<u8>)
    requires
        bytes.len() > 0,
    ensures
        percent_encoded(bytes) == percent_byte(bytes[0]) + percent_encoded(bytes.drop_first()),
    decreases bytes.len(),
{
    if bytes.len() > 1 {
        lemma_percent_encoded_front(bytes.drop_last());
        assert(bytes.drop_last().drop_first() =~= bytes.drop_first().drop_last());
        assert(bytes.drop_first().last() == bytes.last());
        assert(percent_byte(bytes[0]) + percent_encoded(bytes.drop_first().drop_last())
            + percent_byte(bytes.last()) =~= percent_byte(bytes[0]) + (percent_encoded(
            bytes.drop_first().drop_last(),
        ) + percent_byte(bytes.last())));
    } else {
        assert(bytes.drop_last() =~= Seq::<u8>::empty());
        assert(bytes.drop_first() =~= Seq::<u8>::empty());
        assert(percent_encoded(Seq::<u8>::empty()) =~= Seq::<char>::empty());
        assert(percent_byte(bytes[0]) + Seq::<char>::empty() =~= percent_byte(bytes[0]));
        assert(Seq::<char>::empty() + percent_byte(bytes[0]) =~= percent_byte(bytes[0]));
    }
}

/// The encoded text of a key or value holds only letters, digits and `%`, so
/// none of the query's separators `&`, `=`, `+`, `#` or `?` stands inside it,
/// and percent-decoding gives the bytes back.
pub proof fn lemma_percent_encoding_reversible(bytes: Seq<u8>)
    ensures
        forall|i: int|
            0 <= i < percent_encoded(bytes).len() ==> (#[trigger] percent_encoded(bytes)[i] == '%'
                || is_alphanumeric_byte(percent_encoded(bytes)[i] as u8)),
        percent_decoded(percent_encoded(bytes)) == bytes,
    decreases bytes.len(),
{
    if bytes.len() == 0 {
        assert(percent_decoded(percent_encoded(bytes)) =~= bytes);
    } else {
        let rest = bytes.drop_first();
        lemma_percent_encoding_reversible(rest);
        lemma_percent_encoded_front(bytes);
        lemma_percent_byte(bytes[0], percent_encoded(rest));
        let e = percent_encoded(bytes);
        let head = percent_byte(bytes[0]);
        assert forall|i: int| 0 <= i < e.len() implies (#[trigger] e[i] == '%'
            || is_alphanumeric_byte(e[i] as u8)) by {
            if i < head.len() {
                assert(e[i] == head[i]);
            } else {
                assert(e[i] == percent_encoded(rest)[i - head.len()]);
            }
        }
        assert(seq![bytes[0]] + rest =~= bytes);
    }
}

/// One query segment read back: the bytes of the text before its first `=`,
/// and of the text after it, percent-decoded.
pub open spec fn pair_of_text(t: Seq<char>) -> (Seq<u8>, Seq<u8>) {
    let e = first_of(t, '=');
    (
        percent_decoded(t.take(e)),
        if e < t.len() {
            percent_decoded(t.skip(e + 1))
        } else {
            Seq::empty()
        },
    )
}

/// A query read back: split at each `&`, each segment read back.
pub open spec fn split_query(q: Seq<char>) -> Seq<(Seq<u8>, Seq<u8>)>
    decreases q.len(),
{
    if q.len() == 0 {
        Seq::empty()
    } else {
        let a = last_of(q, '&');
        if 0 <= a < q.len() {
            split_query(q.take(a)).push(pair_of_text(q.skip(a + 1)))
        } else {
            seq![pair_of_text(q)]
        }
    }
}

/// The UTF-8 bytes of a key and its value.
pub open spec fn pair_bytes(p: (Seq<char>, Seq<char>)) -> (Seq<u8>, Seq<u8>) {
    (encode_utf8(p.0), encode_utf8(p.1))
}

proof fn lemma_last_of_none(s: Seq<char>, c: char)
    requires
        forall|i: int| 0 <= i < s.len() ==> s[i] != c,
    ensures
        last_of(s, c) == -1,
    decreases s.len(),
{
    if s.len() > 0 {
        lemma_last_of_none(s.drop_last(), c);
    }
}

proof fn lemma_last_of_after(a: Seq<char>, c: char, b: Seq<char>)
    requires
        forall|i: int| 0 <= i < b.len() ==> b[i] != c,
    ensures
        last_of(a.push(c) + b, c) == a.len(),
    decreases b.len(),
{
    if b.len() == 0 {
        assert(a.push(c) + b =~= a.push(c));
    } else {
        lemma_last_of_after(a, c, b.drop_last());
        assert((a.push(c) + b).drop_last() =~= a.push(c) + b.drop_last());
    }
}

/// Neither `&` nor `=` stands in an encoded text, and it is empty only for
/// no bytes.
proof fn lemma_encoded_plain(bytes: Seq<u8>)
    ensures
        forall|i: int|
            0 <= i < percent_encoded(bytes).len() ==> #[trigger] percent_encoded(bytes)[i] != '&'
                && percent_encoded(bytes)[i] != '=',
        percent_encoded(bytes).len() == 0 <==> bytes.len() == 0,
{
    lemma_percent_encoding_reversible(bytes);
    if bytes.len() > 0 {
        assert(percent_byte(bytes.last()).len() > 0);
    }
    assert forall|i: int| 0 <= i < percent_encoded(bytes).len() implies #[trigger] percent_encoded(
        bytes,
    )[i] != '&' && percent_encoded(bytes)[i] != '=' by {
        let c = percent_encoded(bytes)[i];
        assert(c == '%' || is_alphanumeric_byte(c as u8));
    }
}

proof fn lemma_encode_utf8_empty(chars: Seq<char>)
    ensures
        encode_utf8(chars).len() == 0 <==> chars.len() == 0,
{
    if chars.len() > 0 {
        assert(encode_scalar(chars[0] as u32).len() > 0);
    }
}

/// One parameter's text reads back as the bytes of its key and value, and
/// holds no `&`.
proof fn lemma_pair_text_reads_back(p: (Seq<char>, Seq<char>))
    ensures
        pair_of_text(pair_text(p)) == pair_bytes(p),
        forall|i: int| 0 <= i < pair_text(p).len() ==> #[trigger] pair_text(p)[i] != '&',
{
    reveal_strlit("=");
    let key = percent_encoded(encode_utf8(p.0));
    let value = percent_encoded(encode_utf8(p.1));
    lemma_encoded_plain(encode_utf8(p.0));
    lemma_encoded_plain(encode_utf8(p.1));
    lemma_percent_encoding_reversible(encode_utf8(p.0));
    lemma_percent_encoding_reversible(encode_utf8(p.1));
    lemma_encode_utf8_empty(p.1);
    let t = pair_text(p);
    if value.len() == 0 {
        lemma_first_of(t, '=', t.len() as int);
        assert(t.take(t.len() as int) =~= t);
    } else {
        assert(t =~= key + seq!['='] + value);
        assert forall|j: int| 0 <= j < key.len() implies t[j] != '=' by {
            assert(t[j] == key[j]);
        }
        lemma_first_of(t, '=', key.len() as int);
        assert(t.take(key.len() as int) =~= key);
        assert(t.skip(key.len() as int + 1) =~= value);
        assert forall|i: int| 0 <= i < t.len() implies #[trigger] t[i] != '&' by {
            if i < key.len() {
                assert(t[i] == key[i]);
            } else if i > key.len() {
                assert(t[i] == value[i - key.len() - 1]);
            }
        }
    }
}

/// The query this library writes reads back, split at each `&` and at the
/// first `=` of each part and percent-decoded, as the UTF-8 bytes of every
/// key and value, in order, provided no key is empty. (What a URL parser
/// then makes of those bytes is the parser's.)
pub proof fn lemma_query_splits_back(ps: Seq<(Seq<char>, Seq<char>)>)
    requires
        forall|i: int| 0 <= i < ps.len() ==> (#[trigger] ps[i]).0.len() > 0,
    ensures
        split_query(query_text(ps)) == ps.map_values(|p: (Seq<char>, Seq<char>)| pair_bytes(p)),
    decreases ps.len(),
{
    let expected = ps.map_values(|p: (Seq<char>, Seq<char>)| pair_bytes(p));
    if ps.len() == 0 {
        assert(expected =~= Seq::<(Seq<u8>, Seq<u8>)>::empty());
    } else if ps.len() == 1 {
        let q = pair_text(ps[0]);
        lemma_pair_text_reads_back(ps[0]);
        lemma_last_of_none(q, '&');
        lemma_encoded_plain(encode_utf8(ps[0].0));
        lemma_encode_utf8_empty(ps[0].0);
        reveal_strlit("=");
        assert(q.len() > 0);
        assert(expected =~= seq![pair_bytes(ps[0])]);
    } else {
        reveal_strlit("&");
        let front = query_text(ps.drop_last());
        let back = pair_text(ps.last());
        let q = query_text(ps);
        lemma_pair_text_reads_back(ps.last());
        assert forall|i: int| 0 <= i < ps.drop_last().len() implies (#[trigger] ps.drop_last()[i]).0.len()
            > 0 by {
            assert(ps.drop_last()[i] == ps[i]);
        }
        lemma_query_splits_back(ps.drop_last());
        assert(q =~= front.push('&') + back);
        lemma_last_of_after(front, '&', back);
        assert(q.take(front.len() as int) =~= front);
        assert(q.skip(front.len() as int + 1) =~= back);
        assert(expected =~= ps.drop_last().map_values(
            |p: (Seq<char>, Seq<char>)| pair_bytes(p),
        ).push(pair_bytes(ps.last())));
    }
}

/// The URL without its query: the text before the first `?`.
pub fn get_base_url(url: &str) -> (r: &str)
    ensures
        r@ == base_of(url@),
{
    let n = url.unicode_len();
    let mut i: usize = 0;
    while i < n && url.get_char(i) != '?'
        invariant
            n == url@.len(),
            i <= n,
            forall|j: int| 0 <= j < i ==> url@[j] != '?',
        decreases n - i,
    {
        i = i + 1;
    }
    proof {
        lemma_first_of(url@, '?', i as int);
    }
    url.substring_char(0, i)
}

/// The URL with its query replaced by the percent-encoded parameters.
pub fn params_to_url(params: &Vec<(String, String)>, url: &str) -> (r: String)
    ensures
        r@ == url_with_params(pairs_view(params@), url@),
{
    let ghost ps = pairs_view(params@);
    let mut out = get_base_url(url).to_owned();
    if params.len() == 0 {
        return out;
    }
    out.append("?");
    let ghost head = out@;
    for i in 0..params.len()
        invariant
            ps == pairs_view(params@),
            params.len() > 0,
            head == base_of(url@) + "?"@,
            out@ == head + query_text(ps.take(i as int)),
    {
        let ghost before = out@;
        if i > 0 {
            out.append("&");
        }
        let key = percent_encode_text(params[i].0.as_str());
        let value = percent_encode_text(params[i].1.as_str());
        out.append(key.as_str());
        if !value.as_str().is_empty() {
            out.append("=");
            out.append(value.as_str());
        }
        proof {
            let t = ps.take(i + 1);
            assert(t.drop_last() =~= ps.take(i as int));
            assert(t.last() == ps[i as int]);
            if i == 0 {
                assert(t.len() == 1);
                assert(out@ =~= head + query_text(t));
            } else {
                assert(out@ =~= head + query_text(t));
            }
        }
    }
    proof {
        assert(ps.take(params.len() as int) =~= ps);
    }
    out
}

/// The parameters read from a URL: its query pairs, or none when it does not
/// parse.
pub open spec fn params_of_url(url: Seq<char>) -> Seq<(Seq<char>, Seq<char>)> {
    match url_query_pairs(url) {
        Some(ps) => ps,
        None => Seq::empty(),
    }
}

/// The parameter list of a request and the row where a new parameter is
/// typed.
#[derive(Debug, PartialEq, Eq)]
pub struct ParametersTab {
    parameters: Vec<(String, String)>,
    new_param: (String, String),
}

impl ParametersTab {
    /// The parameters, in order.
    pub closed spec fn params(&self) -> Seq<(Seq<char>, Seq<char>)> {
        pairs_view(self.parameters@)
    }

    /// The row being typed.
    pub closed spec fn typed(&self) -> (Seq<char>, Seq<char>) {
        pair_view(self.new_param)
    }

    /// No parameter, and an empty row.
    pub fn new() -> (r: Self)
        ensures
            r.params().len() == 0,
            r.typed() == (Seq::<char>::empty(), Seq::<char>::empty()),
    {
        ParametersTab { parameters: Vec::new(), new_param: (String::new(), String::new()) }
    }

    /// The parameters, in order.
    pub fn parameters(&self) -> (r: &Vec<(String, String)>)
        ensures
            pairs_view(r@) == self.params(),
    {
        &self.parameters
    }

    /// A copy of the tab.
    pub fn duplicate(&self) -> (r: Self)
        ensures
            r.params() == self.params(),
            r.typed() == self.typed(),
    {
        ParametersTab {
            parameters: crate::pairs::copy_pairs(&self.parameters),
            new_param: (self.new_param.0.clone(), self.new_param.1.clone()),
        }
    }

    /// Moves the typed row into the list unless both its key and value are
    /// empty; returns whether it moved.
    pub fn update_new_param(&mut self) -> (moved: bool)
        ensures
            moved == !is_blank_pair(old(self).typed()),
            moved ==> final(self).params() == old(self).params().push(old(self).typed())
                && final(self).typed() == (Seq::<char>::empty(), Seq::<char>::empty()),
            !moved ==> final(self).params() == old(self).params() && final(self).typed()
                == old(self).typed(),
    {
        if self.new_param.0.as_str().is_empty() && self.new_param.1.as_str().is_empty() {
            return false;
        }
        let mut row = (String::new(), String::new());
        std::mem::swap(&mut self.new_param, &mut row);
        let ghost before = self.parameters@;
        self.parameters.push(row);
        proof {
            assert(pairs_view(self.parameters@) =~= pairs_view(before).push(pair_view(row)));
        }
        true
    }

    /// Writes the parameters into the query of the request URL.
    pub fn update_url_from_params(&self, request_data: &mut RequestData)
        ensures
            final(request_data)@ == (RequestDataView {
                url: url_with_params(self.params(), old(request_data)@.url),
                ..old(request_data)@
            }),
    {
        let url = params_to_url(&self.parameters, request_data.url_string.as_str());
        request_data.url_string = url;
    }

    /// Replaces the parameters by those parsed from a URL, or by none when it
    /// did not parse.
    pub fn set_parsed_params(&mut self, parsed: Option<Vec<(String, String)>>)
        ensures
            final(self).params() == match parsed {
                Some(v) => pairs_view(v@),
                None => Seq::empty(),
            },
            final(self).typed() == old(self).typed(),
    {
        self.parameters = match parsed {
            Some(v) => v,
            None => Vec::new(),
        };
        proof {
            if parsed is None {
                assert(pairs_view(self.parameters@) =~= Seq::empty());
            }
        }
    }

    /// Reads the parameters back from the query of the request URL.
    pub fn url_to_params(&mut self, request_data: &mut RequestData)
        ensures
            *final(request_data) == *old(request_data),
            final(self).params() == params_of_url(old(request_data)@.url),
            final(self).typed() == old(self).typed(),
    {
        let parsed = parse_query_pairs(request_data.url_string.as_str());
        self.set_parsed_params(parsed);
    }

    /// After an edit: drops the blank pairs and writes the rest into the URL.
    pub fn params_edited(&mut self, request_data: &mut RequestData)
        ensures
            final(self).params() == without_blank(old(self).params()),
            final(self).typed() == old(self).typed(),
            final(request_data)@ == (RequestDataView {
                url: url_with_params(without_blank(old(self).params()), old(request_data)@.url),
                ..old(request_data)@
            }),
    {
        remove_blank(&mut self.parameters);
        self.update_url_from_params(request_data);
    }

    /// Sets the key and value of the parameter at `index`, then syncs the URL;
    /// `false`, with nothing changed, when there is no such parameter.
    pub fn edit_param(
        &mut self,
        request_data: &mut RequestData,
        index: usize,
        key: String,
        value: String,
    ) -> (r: bool)
        ensures
            r == (index < old(self).params().len()),
            r ==> final(self).params() == without_blank(
                old(self).params().update(index as int, (key@, value@)),
            ) && final(request_data)@ == (RequestDataView {
                url: url_with_params(final(self).params(), old(request_data)@.url),
                ..old(request_data)@
            }),
            !r ==> final(self).params() == old(self).params() && *final(request_data) == *old(
                request_data,
            ),
            final(self).typed() == old(self).typed(),
    {
        if index >= self.parameters.len() {
            return false;
        }
        let ghost before = self.parameters@;
        self.parameters.set(index, (key, value));
        proof {
            assert(pairs_view(self.parameters@) =~= pairs_view(before).update(
                index as int,
                (key@, value@),
            ));
        }
        self.params_edited(request_data);
        true
    }

    /// Removes the parameter at `index`, then syncs the URL; `false`, with
    /// nothing changed, when there is no such parameter.
    pub fn remove_param(&mut self, request_data: &mut RequestData, index: usize) -> (r: bool)
        ensures
            r == (index < old(self).params().len()),
            r ==> final(self).params() == without_blank(old(self).params().remove(index as int))
                && final(request_data)@ == (RequestDataView {
                url: url_with_params(final(self).params(), old(request_data)@.url),
                ..old(request_data)@
            }),
            !r ==> final(self).params() == old(self).params() && *final(request_data) == *old(
                request_data,
            ),
            final(self).typed() == old(self).typed(),
    {
        if index >= self.parameters.len() {
            return false;
        }
        let ghost before = self.parameters@;
        self.parameters.remove(index);
        proof {
            assert(pairs_view(self.parameters@) =~= pairs_view(before).remove(index as int));
        }
        self.params_edited(request_data);
        true
    }

    /// Types into the new-parameter row; once it is not blank it joins the
    /// list and the URL is synced.
    pub fn edit_new_param(&mut self, request_data: &mut RequestData, key: String, value: String)
        ensures
            is_blank_pair((key@, value@)) ==> final(self).params() == old(self).params()
                && final(self).typed() == (key@, value@) && *final(request_data) == *old(
                request_data,
            ),
            !is_blank_pair((key@, value@)) ==> final(self).params() == without_blank(
                old(self).params().push((key@, value@)),
            ) && final(self).typed() == (Seq::<char>::empty(), Seq::<char>::empty())
                && final(request_data)@ == (RequestDataView {
                url: url_with_params(final(self).params(), old(request_data)@.url),
                ..old(request_data)@
            }),
    {
        self.new_param = (key, value);
        if self.update_new_param() {
            self.params_edited(request_data);
        }
    }
}

} // verus!
