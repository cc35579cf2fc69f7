//! Composite identifiers and the aggregation engine's decisions.

use vstd::prelude::*;
use vstd::string::StringExecFns;
use std::marker::PhantomData;
use crate::repositories::config::{first_with_id, lemma_first_with_id_is_first, Config, Source};
use crate::repositories::text::{
    chars_of, dec_digits, dec_numeral, hex_field, hex_fixed, hex_value, is_upper_hex,
    lemma_dec_digits, lemma_dec_numeral_range, lemma_fixed_of_hex_value, lemma_hex_fixed_shape,
    lemma_hex_ignores_case, lemma_hex_value_of_fixed, lemma_upper_hex_is_hex, parse_decimal_u32,
    parse_hex, pow16, push_decimal, push_hex, same_text, upper_text,
};

verus! {

/// Filters of a request, each a name and a value.
pub type FilterList = Vec<(String, String)>;

/// The names and values of a list of filters, as text.
pub open spec fn pair_views(list: Seq<(String, String)>) -> Seq<(Seq<char>, Seq<char>)> {
    Seq::new(list.len(), |i: int| (list[i].0@, list[i].1@))
}

/// No two of `pairs` have the same name.
pub open spec fn distinct_names(pairs: Seq<(Seq<char>, Seq<char>)>) -> bool {
    forall|i: int, j: int|
        0 <= i < j < pairs.len() ==> (#[trigger] pairs[i]).0 != (#[trigger] pairs[j]).0
}

/// Tells whether no two of `list` have the same name.
pub fn has_distinct_names(list: &Vec<(String, String)>) -> (ok: bool)
    ensures
        ok == distinct_names(pair_views(list@)),
{
    let n = list.len();
    let mut i: usize = 0;
    while i < n
        invariant
            n == list@.len(),
            i <= n,
            forall|a: int, b: int|
                0 <= a < b < n && a < i ==> (#[trigger] pair_views(list@)[a]).0 != (
                #[trigger] pair_views(list@)[b]).0,
        decreases n - i,
    {
        let mut j: usize = i + 1;
        while j < n
            invariant
                n == list@.len(),
                i < j <= n,
                forall|b: int|
                    i < b < j ==> pair_views(list@)[i as int].0 != (#[trigger] pair_views(
                        list@,
                    )[b]).0,
            decreases n - j,
        {
            if same_text(list[i].0.as_str(), list[j].0.as_str()) {
                assert(pair_views(list@)[i as int].0 == pair_views(list@)[j as int].0);
                return false;
            }
            j = j + 1;
        }
        i = i + 1;
    }
    true
}

/// The value of the last of `list` whose name is `name`, if there is one.
pub open spec fn last_value(list: Seq<(String, String)>, name: Seq<char>) -> Option<String>
    decreases list.len(),
{
    if list.len() == 0 {
        None
    } else if list.last().0@ == name {
        Some(list.last().1)
    } else {
        last_value(list.drop_last(), name)
    }
}

/// One filter as it stands in a query: `name=value`.
pub open spec fn filter_text(filter: (Seq<char>, Seq<char>)) -> Seq<char> {
    filter.0.push('=') + filter.1
}

/// The filters as a query: `name=value`, joined by `&`.
pub open spec fn query_text(filters: Seq<(Seq<char>, Seq<char>)>) -> Seq<char>
    decreases filters.len(),
{
    if filters.len() == 0 {
        Seq::empty()
    } else if filters.len() == 1 {
        filter_text(filters[0])
    } else {
        query_text(filters.drop_last()).push('&') + filter_text(filters.last())
    }
}

/// The path with the filters behind it: the path alone where there are
/// none, else the path, `?` and the query.
pub open spec fn path_with_filters_spec(
    path: Seq<char>,
    filters: Seq<(Seq<char>, Seq<char>)>,
) -> Seq<char> {
    if filters.len() == 0 {
        path
    } else {
        path.push('?') + query_text(filters)
    }
}

/// Incorporates the filters of the list in the path of a request:
/// `path?name1=value1&name2=value2`.
pub fn path_with_filters(path: &str, filters_list: FilterList) -> (complete_path: String)
    ensures
        complete_path@ == path_with_filters_spec(path@, pair_views(filters_list@)),
{
    let mut complete_path = path.to_owned();
    let n = filters_list.len();
    if n > 0 {
        complete_path.push('?');
        let mut i: usize = 0;
        while i < n
            invariant
                i <= n,
                n == filters_list@.len(),
                complete_path@ == path@.push('?') + query_text(
                    pair_views(filters_list@).take(i as int),
                ),
            decreases n - i,
        {
            let ghost done = pair_views(filters_list@).take(i as int);
            let ghost next = pair_views(filters_list@).take(i + 1);
            proof {
                assert(next.drop_last() == done);
                assert(next.last() == (filters_list@[i as int].0@, filters_list@[i as int].1@));
                if i > 0 {
                    assert(query_text(next) == query_text(done).push('&') + filter_text(
                        next.last(),
                    ));
                } else {
                    assert(query_text(done) == Seq::<char>::empty());
                    assert(next[0] == next.last());
                }
            }
            if i > 0 {
                complete_path.push('&');
            }
            complete_path.append(filters_list[i].0.as_str());
            complete_path.push('=');
            complete_path.append(filters_list[i].1.as_str());
            i = i + 1;
        }
        proof {
            assert(pair_views(filters_list@).take(n as int) == pair_views(filters_list@));
        }
    }
    complete_path
}

/// A resource of one source: the source's key and the resource's local id.
pub struct RelativeId {
    pub source_id: u16,
    pub resource_id: u32,
}

/// A composite identifier that cannot be read.
#[derive(Debug, Clone, Copy, PartialEq, Eq, Structural)]
pub struct DecodeError;

/// The index of the first `-` in `s`, or the length of `s` where it has none.
pub open spec fn first_dash(s: Seq<char>) -> int
    decreases s.len(),
{
    if s.len() == 0 {
        0
    } else if s[0] == '-' {
        0
    } else {
        1 + first_dash(s.drop_first())
    }
}

/// The composite identifier of source `source_id` and local id `resource_id`:
/// four upper-case hexadecimal digits, `-`, eight upper-case hexadecimal digits.
pub open spec fn encode_spec(source_id: u16, resource_id: u32) -> Seq<char> {
    hex_fixed(source_id as int, 4).push('-') + hex_fixed(resource_id as int, 8)
}

/// What a composite identifier denotes: the text is cut at its first `-`;
/// each part is a non-empty run of hexadecimal digits, either case, the
/// first of at most `0xFFFF` and the second of at most `0xFFFFFFFF`.
pub open spec fn decode_spec(s: Seq<char>) -> Option<(u16, u32)> {
    let cut = first_dash(s);
    if cut < s.len() {
        match (
            hex_field(s.subrange(0, cut), 0xFFFF),
            hex_field(s.subrange(cut + 1, s.len() as int), 0xFFFF_FFFF),
        ) {
            (Some(source), Some(resource)) => Some((source as u16, resource as u32)),
            _ => None,
        }
    } else {
        None
    }
}

/// `s` is written as `encode_spec` writes: thirteen characters, a `-` in the
/// fifth place and upper-case hexadecimal digits everywhere else.
pub open spec fn is_canonical(s: Seq<char>) -> bool {
    &&& s.len() == 13
    &&& s[4] == '-'
    &&& is_upper_hex(s.subrange(0, 4))
    &&& is_upper_hex(s.subrange(5, 13))
}

/// `first_dash` is the least index that holds a `-`.
pub proof fn lemma_first_dash(s: Seq<char>)
    ensures
        0 <= first_dash(s) <= s.len(),
        first_dash(s) < s.len() ==> s[first_dash(s)] == '-',
        forall|i: int| 0 <= i < first_dash(s) ==> s[i] != '-',
    decreases s.len(),
{
    if s.len() > 0 && s[0] != '-' {
        let rest = s.drop_first();
        lemma_first_dash(rest);
        assert forall|i: int| 0 <= i < first_dash(s) implies s[i] != '-' by {
            if i > 0 {
                assert(s[i] == rest[i - 1]);
            }
        }
        if first_dash(s) < s.len() {
            assert(s[first_dash(s)] == rest[first_dash(rest)]);
        }
    }
}

/// An index that holds a `-` with none before it is the first dash.
pub proof fn lemma_first_dash_at(s: Seq<char>, k: int)
    requires
        0 <= k <= s.len(),
        k < s.len() ==> s[k] == '-',
        forall|i: int| 0 <= i < k ==> s[i] != '-',
    ensures
        first_dash(s) == k,
{
    lemma_first_dash(s);
    let d = first_dash(s);
    if d < k {
        assert(s[d] != '-');
    } else if k < d {
        assert(s[k] != '-');
    }
}

/// Decoding an encoded pair gives the pair back.
pub proof fn lemma_decode_encode(source_id: u16, resource_id: u32)
    ensures
        decode_spec(encode_spec(source_id, resource_id)) == Some((source_id, resource_id)),
{
    let head = hex_fixed(source_id as int, 4);
    let tail = hex_fixed(resource_id as int, 8);
    let s = encode_spec(source_id, resource_id);
    lemma_hex_fixed_shape(source_id as int, 4);
    lemma_hex_fixed_shape(resource_id as int, 8);
    assert(pow16(4) == 0x1_0000 && pow16(8) == 0x1_0000_0000) by {
        reveal_with_fuel(pow16, 9);
    }
    lemma_hex_value_of_fixed(source_id as int, 4);
    lemma_hex_value_of_fixed(resource_id as int, 8);
    assert(s.len() == 13);
    assert(s[4] == '-');
    assert forall|i: int| 0 <= i < 4 implies s[i] != '-' by {
        assert(s[i] == head[i]);
    }
    lemma_first_dash_at(s, 4);
    assert(s.subrange(0, 4) == head);
    assert(s.subrange(5, 13) == tail);
}

/// Encoding what a canonical identifier denotes gives the identifier back.
pub proof fn lemma_encode_decode(x: Seq<char>)
    requires
        is_canonical(x),
    ensures
        decode_spec(x) matches Some(pair) && encode_spec(pair.0, pair.1) == x,
{
    let head = x.subrange(0, 4);
    let tail = x.subrange(5, 13);
    assert forall|i: int| 0 <= i < 4 implies x[i] != '-' by {
        assert(x[i] == head[i]);
    }
    lemma_first_dash_at(x, 4);
    lemma_fixed_of_hex_value(head);
    lemma_fixed_of_hex_value(tail);
    assert(pow16(4) == 0x1_0000 && pow16(8) == 0x1_0000_0000) by {
        reveal_with_fuel(pow16, 9);
    }
    lemma_upper_hex_is_hex(head);
    lemma_upper_hex_is_hex(tail);
    let s = hex_value(head);
    let l = hex_value(tail);
    assert(decode_spec(x) == Some((s as u16, l as u32)));
    assert(encode_spec(s as u16, l as u32) == x);
}

/// Decoding goes by the letters, not by their case: an identifier denotes
/// what it denotes in upper case.
pub proof fn lemma_decode_ignores_case(x: Seq<char>)
    ensures
        decode_spec(upper_text(x)) == decode_spec(x),
{
    let u = upper_text(x);
    lemma_first_dash(x);
    let cut = first_dash(x);
    assert forall|i: int| 0 <= i < cut implies u[i] != '-' by {
        assert(x[i] != '-');
    }
    lemma_first_dash_at(u, cut);
    if cut < x.len() {
        let n = x.len() as int;
        assert(u.subrange(0, cut) == upper_text(x.subrange(0, cut)));
        assert(u.subrange(cut + 1, n) == upper_text(x.subrange(cut + 1, n)));
        lemma_hex_ignores_case(x.subrange(0, cut));
        lemma_hex_ignores_case(x.subrange(cut + 1, n));
    }
}

impl RelativeId {
    /// Reads a composite identifier.
    pub fn from_str(id: &str) -> (r: Result<RelativeId, DecodeError>)
        ensures
            match r {
                Ok(rid) => decode_spec(id@) == Some((rid.source_id, rid.resource_id)),
                Err(_) => decode_spec(id@) is None,
            },
    {
        let chars = chars_of(id);
        let n = chars.len();
        let mut cut: usize = 0;
        while cut < n && chars[cut] != '-'
            invariant
                cut <= n,
                n == chars.len(),
                forall|i: int| 0 <= i < cut ==> chars@[i] != '-',
            decreases n - cut,
        {
            cut = cut + 1;
        }
        proof {
            lemma_first_dash_at(chars@, cut as int);
        }
        if cut == n {
            return Err(DecodeError);
        }
        let source = parse_hex(&chars, 0, cut, 0xFFFF);
        let resource = parse_hex(&chars, cut + 1, n, 0xFFFF_FFFF);
        match (source, resource) {
            (Some(s), Some(l)) => Ok(RelativeId { source_id: s as u16, resource_id: l as u32 }),
            _ => Err(DecodeError),
        }
    }

    /// Writes the composite identifier.
    pub fn to_string(&self) -> (out: String)
        ensures
            out@ == encode_spec(self.source_id, self.resource_id),
    {
        let mut out = String::new();
        push_hex(&mut out, self.source_id as u64, 4);
        out.push('-');
        push_hex(&mut out, self.resource_id as u64, 8);
        out
    }
}

/// What the engine asks of a record: access to the one text field that
/// identifies it, so that the identifier can be rewritten without knowing
/// the rest of the record.
///
/// `ident` and `same_but_ident` describe the record to the proofs, and a
/// record type that is verified defines both. A type that implements `id`
/// alone, where nothing is verified, keeps the bodies given here; what is
/// proved of the engine then says nothing of that type.
pub trait Identifiable: Sized {
    /// The identifier that the record holds.
    open spec fn ident(&self) -> Seq<char> {
        Seq::empty()
    }

    /// `other` is this record with, at most, another identifier.
    open spec fn same_but_ident(&self, other: &Self) -> bool {
        true
    }

    /// The identifier field, for reading and writing: what is written
    /// through the reference becomes the record's identifier, and nothing
    /// else of the record changes.
    fn id(&mut self) -> (r: &mut String)
        ensures
            r@ == old(self).ident(),
            final(self).ident() == final(r)@,
            old(self).same_but_ident(final(self)),
    ;
}

/// Rewrites the identifier of `object` from the local form, a decimal
/// numeral, to the composite form under the source `source_id`. A record
/// whose identifier is no such numeral is left as it is.
pub fn to_absolute<T: Identifiable>(object: &mut T, source_id: u16) -> (ok: bool)
    ensures
        old(object).same_but_ident(final(object)),
        match dec_numeral(old(object).ident(), u32::MAX as int) {
            Some(n) => ok && final(object).ident() == encode_spec(source_id, n as u32),
            None => !ok && final(object).ident() == old(object).ident(),
        },
{
    let slot = object.id();
    match parse_decimal_u32(slot.as_str()) {
        Some(n) => {
            *slot = RelativeId { source_id, resource_id: n }.to_string();
            true
        },
        None => false,
    }
}

/// Rewrites the identifier of `object` from the composite form to the local
/// form, the local identifier in decimal. A record whose identifier is no
/// composite one is left as it is.
pub fn to_relative<T: Identifiable>(object: &mut T) -> (ok: bool)
    ensures
        old(object).same_but_ident(final(object)),
        match decode_spec(old(object).ident()) {
            Some(pair) => ok && final(object).ident() == dec_digits(pair.1 as int),
            None => !ok && final(object).ident() == old(object).ident(),
        },
{
    let slot = object.id();
    match RelativeId::from_str(slot.as_str()) {
        Ok(rid) => {
            let mut local = String::new();
            push_decimal(&mut local, rid.resource_id as u64);
            *slot = local;
            true
        },
        Err(_) => false,
    }
}

/// Why a request to a source gave no record.
#[derive(Debug, Clone, Copy, PartialEq, Eq, Structural)]
pub enum FetchError {
    /// The composite identifier could not be read.
    Decode,
    /// The registry holds no source with the key asked for.
    SourceNotFound,
    /// The source could not be reached, or its answer could not be read.
    Networking,
    /// The source answered, but not with what was expected of it.
    Serialization,
    /// The source answered with a status that is neither success nor absence.
    Internal,
}

/// What came back from a source: nothing, or a status with the body as far
/// as it could be parsed.
pub enum Reply<B> {
    /// The request failed in transport.
    Unreachable,
    /// The source answered; `body` is `None` where its text is not a `B`.
    Answer { status: u16, body: Option<B> },
}

/// The status is of the success class, 200 to 299.
pub open spec fn is_success_spec(status: u16) -> bool {
    200 <= status < 300
}

/// Tells whether a status is of the success class.
pub fn is_success(status: u16) -> (b: bool)
    ensures
        b == is_success_spec(status),
{
    200 <= status && status < 300
}

/// The identifier of `r` is a local one: a decimal numeral within 32 bits.
pub open spec fn has_local_id<T: Identifiable>(r: &T) -> bool {
    dec_numeral(r.ident(), u32::MAX as int) is Some
}

/// `after` is `before` with its local identifier rewritten to the composite
/// form under the source `source_id`.
pub open spec fn absolute_of<T: Identifiable>(before: &T, after: &T, source_id: u16) -> bool {
    &&& before.same_but_ident(after)
    &&& dec_numeral(before.ident(), u32::MAX as int) matches Some(n)
    &&& after.ident() == encode_spec(source_id, n as u32)
}

/// A record that the engine hands out names its source: its identifier
/// decodes to the key of the source it was rewritten under, and to the local
/// identifier that it had.
pub proof fn lemma_absolute_decodes<T: Identifiable>(before: &T, after: &T, source_id: u16)
    requires
        absolute_of(before, after, source_id),
    ensures
        decode_spec(after.ident()) matches Some(pair) && pair.0 == source_id && Some(
            pair.1 as int,
        ) == dec_numeral(before.ident(), u32::MAX as int),
{
    let n = dec_numeral(before.ident(), u32::MAX as int)->0;
    lemma_dec_numeral_range(before.ident(), u32::MAX as int);
    lemma_decode_encode(source_id, n as u32);
}

/// The two forms of an identifier lead into each other: the local form of
/// an identifier that the engine handed out is a local identifier again,
/// and denotes the number that the record had from its source.
pub proof fn lemma_relative_of_absolute<T: Identifiable>(before: &T, after: &T, source_id: u16)
    requires
        absolute_of(before, after, source_id),
    ensures
        decode_spec(after.ident()) matches Some(pair) && dec_numeral(
            dec_digits(pair.1 as int),
            u32::MAX as int,
        ) == dec_numeral(before.ident(), u32::MAX as int),
{
    lemma_absolute_decodes(before, after, source_id);
    let pair = decode_spec(after.ident())->0;
    lemma_dec_digits(pair.1 as int);
}

/// Every record of `list` holds a local identifier.
pub open spec fn all_local<T: Identifiable>(list: Seq<T>) -> bool {
    forall|i: int| 0 <= i < list.len() ==> has_local_id(&#[trigger] list[i])
}

/// `after` holds the records of `before`, in the same order, each rewritten
/// to the composite form under the source `source_id`.
pub open spec fn all_absolute_of<T: Identifiable>(
    before: Seq<T>,
    after: Seq<T>,
    source_id: u16,
) -> bool {
    &&& after.len() == before.len()
    &&& forall|i: int|
        0 <= i < before.len() ==> absolute_of(&#[trigger] before[i], &after[i], source_id)
}

/// Rewrites every record of `objects` to the composite form under
/// `source_id`; gives the records back only if all of them could be rewritten.
pub fn all_to_absolute<T: Identifiable>(objects: Vec<T>, source_id: u16) -> (r: Option<Vec<T>>)
    ensures
        match r {
            Some(out) => all_local(objects@) && all_absolute_of(objects@, out@, source_id),
            None => !all_local(objects@),
        },
{
    let mut work = objects;
    let ghost before = work@;
    assert(before == objects@);
    let n = work.len();
    let mut i: usize = 0;
    while i < n
        invariant
            i <= n,
            n == work@.len(),
            n == before.len(),
            before == objects@,
            forall|k: int| 0 <= k < i ==> absolute_of(&#[trigger] before[k], &work@[k], source_id),
            forall|k: int| i <= k < n ==> work@[k] == before[k],
        decreases n - i,
    {
        assert(work@[i as int] == before[i as int]);
        let ok = to_absolute(&mut work[i], source_id);
        if !ok {
            assert(!has_local_id(&objects@[i as int]));
            return None;
        }
        i = i + 1;
    }
    Some(work)
}

/// The verb of a request.
#[derive(Debug, Clone, Copy, PartialEq, Eq, Structural)]
pub enum Method {
    Get,
    Post,
    Delete,
}

/// A request that the engine wants sent: the verb, the source it goes to and
/// the full URL.
#[derive(Debug)]
pub struct Request {
    pub method: Method,
    pub source_id: u16,
    pub url: String,
}

/// `base`, a `/`, then `path`.
pub open spec fn join_path(base: Seq<char>, path: Seq<char>) -> Seq<char> {
    base.push('/') + path
}

/// Joins a base URL and a relative path with a `/`.
pub fn join_url(base: &str, path: &str) -> (url: String)
    ensures
        url@ == join_path(base@, path@),
{
    let mut url = base.to_owned();
    url.push('/');
    url.append(path);
    url
}

/// The request for one resource of one source: where `id` reads as a
/// composite identifier and the registry has its source, the source's key
/// and the URL `{base}/{path}/{local id}`, the local id in decimal.
pub open spec fn single_plan(sources: Seq<Source>, id: Seq<char>, path: Seq<char>) -> Result<
    (u16, Seq<char>),
    FetchError,
> {
    match decode_spec(id) {
        None => Err(FetchError::Decode),
        Some((source_id, resource_id)) => match first_with_id(sources, source_id) {
            None => Err(FetchError::SourceNotFound),
            Some(i) => Ok(
                (
                    sources[i].id,
                    join_path(join_path(sources[i].url@, path), dec_digits(resource_id as int)),
                ),
            ),
        },
    }
}

/// The request for a collection of one source: where the registry has the
/// source, its key and the URL `{base}/{path}`.
pub open spec fn collection_plan(sources: Seq<Source>, source_id: u16, path: Seq<char>) -> Result<
    (u16, Seq<char>),
    FetchError,
> {
    match first_with_id(sources, source_id) {
        None => Err(FetchError::SourceNotFound),
        Some(i) => Ok((sources[i].id, join_path(sources[i].url@, path))),
    }
}

/// An identifier that the engine hands out leads back to where it came from:
/// the request for it goes to the source of that key, for that local
/// identifier.
pub proof fn lemma_routes_back(
    sources: Seq<Source>,
    source_id: u16,
    resource_id: u32,
    path: Seq<char>,
)
    ensures
        single_plan(sources, encode_spec(source_id, resource_id), path) == match first_with_id(
            sources,
            source_id,
        ) {
            Some(i) => Ok::<(u16, Seq<char>), FetchError>(
                (
                    source_id,
                    join_path(join_path(sources[i].url@, path), dec_digits(resource_id as int)),
                ),
            ),
            None => Err::<(u16, Seq<char>), FetchError>(FetchError::SourceNotFound),
        },
{
    lemma_decode_encode(source_id, resource_id);
    lemma_first_with_id_is_first(sources, source_id);
}

/// `requests` holds one request per source, in the order of `sources`: a
/// `GET` of `{base}/{path}`.
pub open spec fn is_dispatch_plan(
    requests: Seq<Request>,
    sources: Seq<Source>,
    path: Seq<char>,
) -> bool {
    &&& requests.len() == sources.len()
    &&& forall|i: int|
        0 <= i < requests.len() ==> {
            &&& (#[trigger] requests[i]).method == Method::Get
            &&& requests[i].source_id == sources[i].id
            &&& requests[i].url@ == join_path(sources[i].url@, path)
        }
}

/// `r` is the request that `plan` describes, with the verb `method`, or the
/// error that `plan` gives.
pub open spec fn follows_plan(
    r: Result<Request, FetchError>,
    method: Method,
    plan: Result<(u16, Seq<char>), FetchError>,
) -> bool {
    match plan {
        Ok((source_id, url)) => r matches Ok(req) && req.method == method && req.source_id
            == source_id && req.url@ == url,
        Err(e) => r == Err::<Request, FetchError>(e),
    }
}

/// The aggregation engine over records of type `T`: it decides which
/// requests go to which sources and what their answers mean. Sending the
/// requests is left to the caller.
pub struct Manager<T> {
    config: Config,
    _phantom: PhantomData<T>,
}

impl<T: Identifiable> Manager<T> {
    /// The registry that the engine works on.
    pub closed spec fn config(&self) -> Config {
        self.config
    }

    /// An engine over the registry `config`.
    pub fn new(config: Config) -> (m: Self)
        ensures
            m.config() == config,
    {
        Self { config, _phantom: PhantomData }
    }

    /// The registry that the engine works on.
    pub fn registry(&self) -> (c: &Config)
        ensures
            *c == self.config(),
    {
        &self.config
    }

    fn single_request(&self, method: Method, id: &str, path: &str) -> (r: Result<
        Request,
        FetchError,
    >)
        ensures
            follows_plan(r, method, single_plan(self.config().sources@, id@, path@)),
    {
        let rid = match RelativeId::from_str(id) {
            Ok(rid) => rid,
            Err(_) => {
                return Err(FetchError::Decode);
            },
        };
        match self.config.get_source(rid.source_id) {
            None => Err(FetchError::SourceNotFound),
            Some(source) => {
                let mut url = join_url(source.url.as_str(), path);
                url.push('/');
                push_decimal(&mut url, rid.resource_id as u64);
                Ok(Request { method, source_id: source.id, url })
            },
        }
    }

    fn collection_request(&self, method: Method, source_id: u16, path: &str) -> (r: Result<
        Request,
        FetchError,
    >)
        ensures
            follows_plan(r, method, collection_plan(self.config().sources@, source_id, path@)),
    {
        match self.config.get_source(source_id) {
            None => Err(FetchError::SourceNotFound),
            Some(source) => Ok(
                Request { method, source_id: source.id, url: join_url(source.url.as_str(), path) },
            ),
        }
    }

    /// The request that fetches the record with the composite identifier
    /// `id` under the relative path `path`.
    pub fn get_request(&self, id: &str, path: &str) -> (r: Result<Request, FetchError>)
        ensures
            follows_plan(r, Method::Get, single_plan(self.config().sources@, id@, path@)),
    {
        self.single_request(Method::Get, id, path)
    }

    /// The request that deletes the record with the composite identifier
    /// `id` under the relative path `path`.
    pub fn delete_request(&self, id: &str, path: &str) -> (r: Result<Request, FetchError>)
        ensures
            follows_plan(r, Method::Delete, single_plan(self.config().sources@, id@, path@)),
    {
        self.single_request(Method::Delete, id, path)
    }

    /// What the answer to a `get_request` means. A success carries the
    /// record, its identifier rewritten to the composite form under the
    /// source that was asked; the status 404 is a well-formed "no such
    /// record"; any other status is an error, and so is a body that is no
    /// record or holds no local identifier.
    pub fn get_result(&self, source_id: u16, reply: Reply<T>) -> (r: Result<Option<T>, FetchError>)
        ensures
            match reply {
                Reply::Unreachable => r == Err::<Option<T>, FetchError>(FetchError::Networking),
                Reply::Answer { status, body } => if is_success_spec(status) {
                    match body {
                        Some(b) if has_local_id(&b) => r matches Ok(Some(o)) && absolute_of(
                            &b,
                            &o,
                            source_id,
                        ),
                        _ => r == Err::<Option<T>, FetchError>(FetchError::Serialization),
                    }
                } else if status == 404 {
                    r == Ok::<Option<T>, FetchError>(None)
                } else {
                    r == Err::<Option<T>, FetchError>(FetchError::Internal)
                },
            },
    {
        match reply {
            Reply::Unreachable => Err(FetchError::Networking),
            Reply::Answer { status, body } => {
                if is_success(status) {
                    match body {
                        Some(mut object) => {
                            if to_absolute(&mut object, source_id) {
                                Ok(Some(object))
                            } else {
                                Err(FetchError::Serialization)
                            }
                        },
                        None => Err(FetchError::Serialization),
                    }
                } else if status == 404 {
                    Ok(None)
                } else {
                    Err(FetchError::Internal)
                }
            },
        }
    }

    /// What the answer to a `post_request` means: the record that the source
    /// created, its identifier rewritten to the composite form under
    /// `source_id`, whatever the status; an error where the body is no
    /// record or holds no local identifier.
    pub fn post_result(&self, source_id: u16, reply: Reply<T>) -> (r: Result<T, FetchError>)
        ensures
            match reply {
                Reply::Unreachable => r == Err::<T, FetchError>(FetchError::Networking),
                Reply::Answer { status, body } => match body {
                    Some(b) if has_local_id(&b) => r matches Ok(o) && absolute_of(&b, &o, source_id),
                    _ => r == Err::<T, FetchError>(FetchError::Serialization),
                },
            },
    {
        match reply {
            Reply::Unreachable => Err(FetchError::Networking),
            Reply::Answer { status, body } => match body {
                Some(mut object) => {
                    if to_absolute(&mut object, source_id) {
                        Ok(object)
                    } else {
                        Err(FetchError::Serialization)
                    }
                },
                None => Err(FetchError::Serialization),
            },
        }
    }

    /// What the answer to a `delete_request` means, by the class of its
    /// status alone: `status` is `None` where the source was not reached.
    pub fn delete_result(&self, status: Option<u16>) -> (r: Result<(), FetchError>)
        ensures
            r == match status {
                None => Err::<(), FetchError>(FetchError::Networking),
                Some(code) => if is_success_spec(code) {
                    Ok(())
                } else {
                    Err(FetchError::Internal)
                },
            },
    {
        match status {
            None => Err(FetchError::Networking),
            Some(code) => if is_success(code) {
                Ok(())
            } else {
                Err(FetchError::Internal)
            },
        }
    }

    /// What one source's answer to a request of `dispatch_requests` means:
    /// its records, in the order given, each with its identifier rewritten
    /// to the composite form under `source_id`; an error, and no record,
    /// where the body is no list of records or one of them holds no local
    /// identifier.
    pub fn get_objects(&self, source_id: u16, reply: Reply<Vec<T>>) -> (r: Result<
        Vec<T>,
        FetchError,
    >)
        ensures
            match reply {
                Reply::Unreachable => r == Err::<Vec<T>, FetchError>(FetchError::Networking),
                Reply::Answer { status, body } => match body {
                    Some(list) if all_local(list@) => r matches Ok(out) && all_absolute_of(
                        list@,
                        out@,
                        source_id,
                    ),
                    _ => r == Err::<Vec<T>, FetchError>(FetchError::Serialization),
                },
            },
    {
        match reply {
            Reply::Unreachable => Err(FetchError::Networking),
            Reply::Answer { status, body } => match body {
                Some(list) => match all_to_absolute(list, source_id) {
                    Some(out) => Ok(out),
                    None => Err(FetchError::Serialization),
                },
                None => Err(FetchError::Serialization),
            },
        }
    }

    /// One request per source of the registry, in its order: a `GET` of
    /// `{base}/{path}`.
    pub fn dispatch_requests(&self, path: &str) -> (requests: Vec<Request>)
        ensures
            is_dispatch_plan(requests@, self.config().sources@, path@),
    {
        let mut requests: Vec<Request> = Vec::new();
        let n = self.config.sources.len();
        let mut i: usize = 0;
        while i < n
            invariant
                i <= n,
                n == self.config.sources@.len(),
                requests@.len() == i,
                forall|k: int|
                    0 <= k < i ==> {
                        &&& (#[trigger] requests@[k]).method == Method::Get
                        &&& requests@[k].source_id == self.config.sources@[k].id
                        &&& requests@[k].url@ == join_path(self.config.sources@[k].url@, path@)
                    },
            decreases n - i,
        {
            let source = &self.config.sources[i];
            requests.push(
                Request {
                    method: Method::Get,
                    source_id: source.id,
                    url: join_url(source.url.as_str(), path),
                },
            );
            i = i + 1;
        }
        requests
    }

    /// The request that creates a record on the source `source_id` under the
    /// relative path `path`.
    pub fn post_request(&self, source_id: u16, path: &str) -> (r: Result<Request, FetchError>)
        ensures
            follows_plan(
                r,
                Method::Post,
                collection_plan(self.config().sources@, source_id, path@),
            ),
    {
        self.collection_request(Method::Post, source_id, path)
    }
}

} // verus!
