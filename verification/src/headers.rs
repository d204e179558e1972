//! User-provided HTTP headers: which of them can be sent, and the map that they make.

use crate::text;
use vstd::prelude::*;

verus! {

/// A header as the user configured it.
#[derive(Debug, PartialEq, Eq)]
pub struct StaticHeader {
    pub name: String,
    pub value: String,
}

/// [`StaticHeader`] by its contents.
pub struct HeaderView {
    pub name: Seq<char>,
    pub value: Seq<char>,
}

impl DeepView for StaticHeader {
    type V = HeaderView;

    open spec fn deep_view(&self) -> HeaderView {
        HeaderView { name: self.name@, value: self.value@ }
    }
}

impl Clone for StaticHeader {
    fn clone(&self) -> (copy: Self)
        ensures
            copy == *self,
    {
        StaticHeader { name: self.name.clone(), value: self.value.clone() }
    }
}

/// The characters that a header name is made of (`tchar` of RFC 9110).
pub open spec fn is_token_char(c: char) -> bool {
    ||| '0' <= c && c <= '9'
    ||| 'a' <= c && c <= 'z'
    ||| 'A' <= c && c <= 'Z'
    ||| c == '!' || c == '#' || c == '$' || c == '%' || c == '&' || c == '\'' || c == '*'
    ||| c == '+' || c == '-' || c == '.' || c == '^' || c == '_' || c == '`' || c == '|'
    ||| c == '~'
}

/// The longest header name.
pub const MAX_HEADER_NAME_LEN: usize = 65535;

/// Whether a text can be a header name.
pub open spec fn is_header_name(name: Seq<char>) -> bool {
    &&& 1 <= name.len() <= MAX_HEADER_NAME_LEN
    &&& forall|i: int| 0 <= i < name.len() ==> is_token_char(#[trigger] name[i])
}

/// The characters that a header value is made of: all but control characters, and the tab.
pub open spec fn is_value_char(c: char) -> bool {
    c == '\t' || (c as u32 >= 32 && c as u32 != 127)
}

/// Whether a text can be a header value.
pub open spec fn is_header_value(value: Seq<char>) -> bool {
    forall|i: int| 0 <= i < value.len() ==> is_value_char(#[trigger] value[i])
}

/// Whether a header can be sent: its name and its value are both valid.
pub open spec fn is_valid_header(header: HeaderView) -> bool {
    is_header_name(header.name) && is_header_value(header.value)
}

/// `http::HeaderMap`, a multimap of header names and values.
#[verifier::external_type_specification]
#[verifier::external_body]
#[verifier::reject_recursive_types(T)]
pub struct ExHeaderMap<T>(http::HeaderMap<T>);

/// `http::HeaderValue`, carried as it is.
#[verifier::external_type_specification]
#[verifier::external_body]
pub struct ExHeaderValue(http::HeaderValue);

/// What a header map holds: for each name, in lower case, the bytes of its values in
/// the order in which they were appended.
pub uninterp spec fn header_entries(map: http::HeaderMap<http::HeaderValue>) -> Map<
    Seq<char>,
    Seq<Seq<u8>>,
>;

/// Entries with one more value behind the values of a name.
pub open spec fn with_value(
    entries: Map<Seq<char>, Seq<Seq<u8>>>,
    name: Seq<char>,
    value: Seq<u8>,
) -> Map<Seq<char>, Seq<Seq<u8>>> {
    if entries.contains_key(name) {
        entries.insert(name, entries[name].push(value))
    } else {
        entries.insert(name, seq![value])
    }
}

/// The most names that a header map is asked to hold. A map has at most 32768 slots and
/// panics when it must grow beyond them, which it may once a fifth of them are filled: with
/// 6554 names. One name less than the 6553 that are safe leaves room for the `accept` that
/// a client adds to its own copy of the map.
pub const MAX_HEADERS: usize = 6552;

/// `http::HeaderMap::new`: an empty map.
#[verifier::external_body]
fn empty_header_map() -> (map: http::HeaderMap<http::HeaderValue>)
    ensures
        header_entries(map).dom() == Set::<Seq<char>>::empty(),
{
    http::HeaderMap::new()
}

/// `http::HeaderName::from_bytes` on the bytes of a text: succeeds on one to 65535 token
/// characters and on nothing else.
#[verifier::external_body]
fn header_name_is_valid(name: &str) -> (valid: bool)
    ensures
        valid == is_header_name(name@),
{
    http::HeaderName::from_bytes(name.as_bytes()).is_ok()
}

/// `http::HeaderValue::from_bytes` on the bytes of a text: succeeds where no byte is a
/// control character other than the tab. Every byte of a character beyond ASCII is accepted.
#[verifier::external_body]
fn header_value_is_valid(value: &str) -> (valid: bool)
    ensures
        valid == is_header_value(value@),
{
    http::HeaderValue::from_bytes(value.as_bytes()).is_ok()
}

/// `http::HeaderMap::append`: puts a value behind those of its name, which the map keeps
/// in lower case. It panics where the map cannot grow.
#[verifier::external_body]
fn append_header(map: &mut http::HeaderMap<http::HeaderValue>, name: &str, value: &str)
    requires
        is_header_name(name@),
        is_header_value(value@),
        header_entries(*old(map)).dom().len() <= MAX_HEADERS,
    ensures
        header_entries(*final(map)) == with_value(
            header_entries(*old(map)),
            text::ascii_lower(name@),
            vstd::utf8::encode_utf8(value@),
        ),
{
    let name = http::HeaderName::from_bytes(name.as_bytes()).unwrap();
    let value = http::HeaderValue::from_bytes(value.as_bytes()).unwrap();
    map.append(name, value);
}

/// The values that headers give to a name, in their order: those of the valid headers
/// whose name it is but for ASCII case.
pub open spec fn values_of(headers: Seq<HeaderView>, name: Seq<char>) -> Seq<Seq<u8>> {
    headers.filter_map(
        |header: HeaderView|
            if is_valid_header(header) && text::ascii_lower(header.name) == name {
                Some(vstd::utf8::encode_utf8(header.value))
            } else {
                None
            },
    )
}

/// Whether entries are exactly what headers give: the names that some valid header has,
/// each with the values that the headers give it.
pub open spec fn entries_match(
    entries: Map<Seq<char>, Seq<Seq<u8>>>,
    headers: Seq<HeaderView>,
) -> bool {
    &&& forall|name: Seq<char>| #[trigger]
        entries.contains_key(name) <==> values_of(headers, name).len() > 0
    &&& forall|name: Seq<char>| #[trigger]
        entries.contains_key(name) ==> entries[name] == values_of(headers, name)
}

/// Entries that match some headers match one more header once its value, if it is
/// valid, is put behind those of its name.
proof fn lemma_entries_step(
    entries: Map<Seq<char>, Seq<Seq<u8>>>,
    headers: Seq<HeaderView>,
    count: int,
)
    requires
        0 <= count < headers.len(),
        entries_match(entries, headers.take(count)),
    ensures
        entries_match(
            if is_valid_header(headers[count]) {
                with_value(
                    entries,
                    text::ascii_lower(headers[count].name),
                    vstd::utf8::encode_utf8(headers[count].value),
                )
            } else {
                entries
            },
            headers.take(count + 1),
        ),
{
    let header = headers[count];
    let lower = text::ascii_lower(header.name);
    let value = vstd::utf8::encode_utf8(header.value);
    let next = if is_valid_header(header) {
        with_value(entries, lower, value)
    } else {
        entries
    };
    assert forall|name: Seq<char>|
        values_of(headers.take(count + 1), name) == values_of(headers.take(count), name) + if
        is_valid_header(header) && lower == name {
            seq![value]
        } else {
            Seq::empty()
        } by {
        headers.lemma_filter_map_take_succ(
            |header: HeaderView|
                if is_valid_header(header) && text::ascii_lower(header.name) == name {
                    Some(vstd::utf8::encode_utf8(header.value))
                } else {
                    None
                },
            count,
        );
    }
    assert forall|name: Seq<char>| #[trigger]
        next.contains_key(name) <==> values_of(headers.take(count + 1), name).len() > 0 by {
        assert(entries.contains_key(name) <==> values_of(headers.take(count), name).len() > 0);
    }
    assert forall|name: Seq<char>| #[trigger] next.contains_key(name) implies next[name]
        == values_of(headers.take(count + 1), name) by {
        if entries.contains_key(name) {
            assert(entries[name] == values_of(headers.take(count), name));
        } else {
            assert(values_of(headers.take(count), name) =~= Seq::empty());
        }
    }
}

/// Invalid headers are as good as absent: they change the values of no name.
pub proof fn law_invalid_headers_are_skipped(headers: Seq<HeaderView>, name: Seq<char>)
    ensures
        values_of(headers, name) == values_of(
            headers.filter(|header: HeaderView| is_valid_header(header)),
            name,
        ),
    decreases headers.len(),
{
    let valid = |header: HeaderView| is_valid_header(header);
    reveal(Seq::filter);
    if headers.len() > 0 {
        let rest = headers.drop_last();
        law_invalid_headers_are_skipped(rest, name);
        if is_valid_header(headers.last()) {
            assert(headers.filter(valid).drop_last() =~= rest.filter(valid));
        }
    }
}

/// Builds a header map of user-provided headers. A header whose name or value is invalid
/// is skipped.
pub fn build_header_map(headers: &Vec<StaticHeader>) -> (map: http::HeaderMap<
    http::HeaderValue,
>)
    requires
        headers@.len() <= MAX_HEADERS,
    ensures
        entries_match(header_entries(map), headers.deep_view()),
        header_entries(map).dom().len() <= MAX_HEADERS,
{
    let mut map = empty_header_map();
    let ghost all = headers.deep_view();
    assert(entries_match(header_entries(map), all.take(0)));
    let mut i: usize = 0;
    while i < headers.len()
        invariant
            i <= headers@.len() <= MAX_HEADERS,
            all == headers.deep_view(),
            entries_match(header_entries(map), all.take(i as int)),
            header_entries(map).dom().finite(),
            header_entries(map).dom().len() <= i,
        decreases headers@.len() - i,
    {
        let header = &headers[i];
        proof {
            lemma_entries_step(header_entries(map), all, i as int);
        }
        if header_name_is_valid(header.name.as_str()) && header_value_is_valid(
            header.value.as_str(),
        ) {
            append_header(&mut map, header.name.as_str(), header.value.as_str());
        }
        i = i + 1;
    }
    assert(all.take(i as int) =~= all);
    map
}

/// The value that the last header of a name gives it, names taken exactly.
pub open spec fn last_value(headers: Seq<HeaderView>, name: Seq<char>) -> Option<Seq<char>>
    decreases headers.len(),
{
    if headers.len() == 0 {
        None
    } else if headers.last().name == name {
        Some(headers.last().value)
    } else {
        last_value(headers.drop_last(), name)
    }
}

/// The names of headers without repetition, each where it first stands.
pub open spec fn distinct_names(headers: Seq<HeaderView>) -> Seq<Seq<char>>
    decreases headers.len(),
{
    if headers.len() == 0 {
        Seq::empty()
    } else {
        let names = distinct_names(headers.drop_last());
        if names.contains(headers.last().name) {
            names
        } else {
            names.push(headers.last().name)
        }
    }
}

/// The names of headers, one by one.
pub open spec fn names_of(headers: Seq<HeaderView>) -> Seq<Seq<char>> {
    headers.map_values(|header: HeaderView| header.name)
}

/// Headers gathered by name: each name where it first stands, with the value that was
/// given it last.
pub open spec fn collected(headers: Seq<HeaderView>) -> Seq<HeaderView> {
    distinct_names(headers).map_values(
        |name: Seq<char>| HeaderView { name, value: last_value(headers, name)->0 },
    )
}

/// A header that stands where no later one has its name gives the name its value.
proof fn lemma_last_value_at(headers: Seq<HeaderView>, at: int)
    requires
        0 <= at < headers.len(),
        forall|i: int| at < i < headers.len() ==> headers[i].name != headers[at].name,
    ensures
        last_value(headers, headers[at].name) == Some(headers[at].value),
    decreases headers.len(),
{
    if at < headers.len() - 1 {
        lemma_last_value_at(headers.drop_last(), at);
    }
}

/// Replacing the value of one header changes what its name is given, where names do not
/// repeat, and nothing else.
proof fn lemma_last_value_update(headers: Seq<HeaderView>, at: int, value: Seq<char>, name: Seq<char>)
    requires
        0 <= at < headers.len(),
        names_of(headers).no_duplicates(),
    ensures
        last_value(headers.update(at, HeaderView { name: headers[at].name, value }), name) == if name
            == headers[at].name {
            Some(value)
        } else {
            last_value(headers, name)
        },
    decreases headers.len(),
{
    let header = HeaderView { name: headers[at].name, value };
    let updated = headers.update(at, header);
    assert forall|i: int, j: int| 0 <= i < j < headers.len() implies headers[i].name
        != headers[j].name by {
        assert(names_of(headers)[i] != names_of(headers)[j]);
    }
    if name == headers[at].name {
        lemma_last_value_at(updated, at);
    } else if at == headers.len() - 1 {
        assert(updated.drop_last() =~= headers.drop_last());
    } else {
        assert(updated.drop_last() =~= headers.drop_last().update(at, header));
        assert(names_of(headers.drop_last()) =~= names_of(headers).drop_last());
        lemma_last_value_update(headers.drop_last(), at, value, name);
    }
}

/// Gathers headers by name. A name keeps the place where it first stands and takes the
/// value that was given it last.
pub fn collect_headers(headers: &Vec<StaticHeader>) -> (gathered: Vec<StaticHeader>)
    ensures
        gathered.deep_view() == collected(headers.deep_view()),
{
    let ghost all = headers.deep_view();
    let mut gathered: Vec<StaticHeader> = Vec::new();
    assert(names_of(gathered.deep_view()) =~= distinct_names(all.take(0)));
    let mut i: usize = 0;
    while i < headers.len()
        invariant
            i <= headers@.len(),
            all == headers.deep_view(),
            names_of(gathered.deep_view()) == distinct_names(all.take(i as int)),
            names_of(gathered.deep_view()).no_duplicates(),
            forall|name: Seq<char>| #[trigger]
                last_value(gathered.deep_view(), name) == last_value(all.take(i as int), name),
        decreases headers@.len() - i,
    {
        let header = &headers[i];
        let ghost before = gathered.deep_view();
        assert(all.take(i + 1).drop_last() =~= all.take(i as int));
        assert(all.take(i + 1).last() == header.deep_view());
        let mut j: usize = 0;
        while j < gathered.len() && gathered[j].name != header.name
            invariant
                j <= gathered@.len(),
                before == gathered.deep_view(),
                forall|k: int| 0 <= k < j ==> (#[trigger] before[k]).name != header.name@,
            decreases gathered@.len() - j,
        {
            j = j + 1;
        }
        if j < gathered.len() {
            proof {
                assert(names_of(before)[j as int] == header.name@);
                assert(distinct_names(all.take(i as int)).contains(header.name@));
            }
            gathered.set(j, header.clone());
            proof {
                assert(gathered.deep_view() =~= before.update(j as int, header.deep_view()));
                assert(names_of(gathered.deep_view()) =~= names_of(before));
                assert forall|name: Seq<char>| #[trigger]
                    last_value(gathered.deep_view(), name) == last_value(all.take(i + 1), name) by {
                    lemma_last_value_update(before, j as int, header.value@, name);
                    assert(last_value(before, name) == last_value(all.take(i as int), name));
                }
            }
        } else {
            proof {
                assert(!names_of(before).contains(header.name@));
            }
            gathered.push(header.clone());
            proof {
                assert(gathered.deep_view() =~= before.push(header.deep_view()));
                assert(names_of(gathered.deep_view()) =~= names_of(before).push(header.name@));
                assert forall|name: Seq<char>| #[trigger]
                    last_value(gathered.deep_view(), name) == last_value(all.take(i + 1), name) by {
                    assert(gathered.deep_view().drop_last() =~= before);
                    assert(last_value(before, name) == last_value(all.take(i as int), name));
                }
            }
        }
        i = i + 1;
    }
    assert(all.take(i as int) =~= all);
    proof {
        let rows = gathered.deep_view();
        assert forall|k: int| 0 <= k < rows.len() implies rows[k] == collected(all)[k] by {
            assert(names_of(rows)[k] == distinct_names(all)[k]);
            assert forall|j: int| k < j < rows.len() implies rows[j].name != rows[k].name by {
                assert(names_of(rows)[j] != names_of(rows)[k]);
            }
            lemma_last_value_at(rows, k);
            assert(last_value(rows, rows[k].name) == last_value(all, rows[k].name));
        }
        assert(rows.len() == names_of(rows).len());
        assert(rows =~= collected(all));
    }
    gathered
}

/// A gathered name stands once, and every name that some header has is given the value
/// that it was given last.
pub proof fn law_collected_is_a_table(headers: Seq<HeaderView>)
    ensures
        names_of(collected(headers)) == distinct_names(headers),
        distinct_names(headers).no_duplicates(),
        forall|name: Seq<char>| #[trigger]
            distinct_names(headers).contains(name) <==> last_value(headers, name) is Some,
        forall|i: int|
            0 <= i < collected(headers).len() ==> Some((#[trigger] collected(headers)[i]).value)
                == last_value(headers, collected(headers)[i].name),
{
    assert(names_of(collected(headers)) =~= distinct_names(headers));
    lemma_distinct_names(headers);
    assert forall|i: int| 0 <= i < collected(headers).len() implies Some(
        (#[trigger] collected(headers)[i]).value,
    ) == last_value(headers, collected(headers)[i].name) by {
        assert(distinct_names(headers).contains(distinct_names(headers)[i]));
    }
}

/// Names do not repeat among the distinct names, and they are those that are given a
/// value.
proof fn lemma_distinct_names(headers: Seq<HeaderView>)
    ensures
        distinct_names(headers).no_duplicates(),
        forall|name: Seq<char>| #[trigger]
            distinct_names(headers).contains(name) <==> last_value(headers, name) is Some,
    decreases headers.len(),
{
    if headers.len() > 0 {
        let rest = headers.drop_last();
        lemma_distinct_names(rest);
        let names = distinct_names(rest);
        let last = headers.last().name;
        assert forall|name: Seq<char>| #[trigger]
            distinct_names(headers).contains(name) <==> last_value(headers, name) is Some by {
            assert(names.contains(name) <==> last_value(rest, name) is Some);
            if !names.contains(last) {
                assert(names.push(last)[names.len() as int] == last);
                if names.contains(name) {
                    let i = choose|i: int| 0 <= i < names.len() && names[i] == name;
                    assert(names.push(last)[i] == name);
                }
            }
        }
    }
}

/// Whether a header is the last of its name, names taken exactly.
pub open spec fn is_last_of_name(headers: Seq<HeaderView>, at: int) -> bool {
    &&& 0 <= at < headers.len()
    &&& forall|later: int| at < later < headers.len() ==> (#[trigger] headers[later]).name
        != headers[at].name
}

/// Whether a table is made of the last header of each name and nothing else, without
/// repetition.
pub open spec fn gathers(table: Seq<HeaderView>, headers: Seq<HeaderView>) -> bool {
    &&& forall|first: int, second: int|
        0 <= first < second < table.len() ==> (#[trigger] table[first]).name != (
        #[trigger] table[second]).name
    &&& forall|at: int| #[trigger] is_last_of_name(headers, at) ==> table.contains(headers[at])
    &&& forall|row: int|
        0 <= row < table.len() ==> exists|at: int| #[trigger]
            is_last_of_name(headers, at) && headers[at] == #[trigger] table[row]
}

/// The value that a name is given last is that of the last header of the name.
proof fn lemma_last_value_is_of_the_last_header(headers: Seq<HeaderView>, name: Seq<char>)
    ensures
        last_value(headers, name) matches Some(value) ==> exists|at: int| #[trigger]
            is_last_of_name(headers, at) && headers[at] == (HeaderView { name, value }),
    decreases headers.len(),
{
    if headers.len() > 0 {
        let rest = headers.drop_last();
        if headers.last().name == name {
            assert(is_last_of_name(headers, headers.len() - 1));
            assert(headers[headers.len() - 1] == headers.last());
        } else if last_value(headers, name) is Some {
            lemma_last_value_is_of_the_last_header(rest, name);
            let value = last_value(headers, name)->0;
            let at = choose|at: int| #[trigger]
                is_last_of_name(rest, at) && rest[at] == (HeaderView { name, value });
            assert(headers[at] == rest[at]);
            assert forall|later: int| at < later < headers.len() implies (
            #[trigger] headers[later]).name != headers[at].name by {
                if later < rest.len() {
                    assert(rest[later] == headers[later]);
                }
            }
            assert(is_last_of_name(headers, at));
        }
    }
}

/// Gathered headers are the last header of each name: every configured name is there once,
/// with the value that was configured for it last, and nothing else is.
pub proof fn law_last_header_of_each_name_is_kept(headers: Seq<HeaderView>)
    ensures
        gathers(collected(headers), headers),
        collected(headers).len() == 0 <==> headers.len() == 0,
{
    let table = collected(headers);
    let names = distinct_names(headers);
    law_collected_is_a_table(headers);
    assert forall|first: int, second: int| 0 <= first < second < table.len() implies (
    #[trigger] table[first]).name != (#[trigger] table[second]).name by {
        assert(names[first] != names[second]);
    }
    assert forall|at: int| #[trigger] is_last_of_name(headers, at) implies table.contains(
        headers[at],
    ) by {
        lemma_last_value_at(headers, at);
        let name = headers[at].name;
        assert(names.contains(name));
        let row = choose|row: int| 0 <= row < names.len() && names[row] == name;
        assert(table[row].name == name);
        assert(table[row] == headers[at]);
    }
    assert forall|row: int| 0 <= row < table.len() implies exists|at: int| #[trigger]
        is_last_of_name(headers, at) && headers[at] == #[trigger] table[row] by {
        lemma_last_value_is_of_the_last_header(headers, table[row].name);
        assert(Some(table[row].value) == last_value(headers, table[row].name));
    }
    if headers.len() > 0 {
        assert(is_last_of_name(headers, headers.len() - 1));
        assert(table.contains(headers[headers.len() - 1]));
    } else {
        if table.len() > 0 {
            let at = choose|at: int| #[trigger]
                is_last_of_name(headers, at) && headers[at] == table[0];
        }
    }
}

/// Gathered names stand in the order in which they first appear.
pub proof fn law_gathered_names_keep_their_order(headers: Seq<HeaderView>, first: int, second: int)
    requires
        0 <= first < second < collected(headers).len(),
    ensures
        exists|at: int|
            0 <= at < headers.len() && (#[trigger] headers[at]).name == collected(
                headers,
            )[first].name && forall|before: int|
                0 <= before <= at ==> (#[trigger] headers[before]).name != collected(
                    headers,
                )[second].name,
    decreases headers.len(),
{
    let names = distinct_names(headers);
    lemma_distinct_names(headers);
    assert(collected(headers)[first].name == names[first]);
    assert(collected(headers)[second].name == names[second]);
    let rest = headers.drop_last();
    let earlier = distinct_names(rest);
    if second < earlier.len() {
        law_gathered_names_keep_their_order(rest, first, second);
        assert(collected(rest)[first].name == names[first]);
        assert(collected(rest)[second].name == names[second]);
        let at = choose|at: int|
            0 <= at < rest.len() && (#[trigger] rest[at]).name == names[first] && forall|before: int|
                0 <= before <= at ==> (#[trigger] rest[before]).name != names[second];
        assert(headers[at].name == names[first]);
        assert forall|before: int| 0 <= before <= at implies (#[trigger] headers[before]).name
            != names[second] by {
            assert(rest[before] == headers[before]);
        }
    } else {
        lemma_distinct_names(rest);
        assert(earlier.contains(earlier[first]));
        assert(last_value(rest, names[first]) is Some);
        lemma_last_value_is_of_the_last_header(rest, names[first]);
        let at = choose|at: int| #[trigger]
            is_last_of_name(rest, at) && rest[at] == (HeaderView {
                name: names[first],
                value: last_value(rest, names[first])->0,
            });
        assert(headers[at] == rest[at]);
        assert forall|before: int| 0 <= before <= at implies (#[trigger] headers[before]).name
            != names[second] by {
            assert(headers[before] == rest[before]);
            lemma_named_header_gives_a_value(rest, before);
            assert(!earlier.contains(names[second]));
        }
    }
}

/// A name that some header has is given some value.
proof fn lemma_named_header_gives_a_value(headers: Seq<HeaderView>, at: int)
    requires
        0 <= at < headers.len(),
    ensures
        last_value(headers, headers[at].name) is Some,
    decreases headers.len(),
{
    if at < headers.len() - 1 {
        lemma_named_header_gives_a_value(headers.drop_last(), at);
        assert(headers.drop_last()[at] == headers[at]);
    }
}

/// One more header adds its value behind the others of its name, in whatever case the name
/// is written, where it can be sent, and changes nothing else.
pub proof fn law_header_adds_its_own_value(
    headers: Seq<HeaderView>,
    header: HeaderView,
    name: Seq<char>,
)
    ensures
        values_of(Seq::empty(), name).len() == 0,
        values_of(headers.push(header), name) == (if is_header_name(header.name)
            && is_header_value(header.value) && text::ascii_lower(header.name) == name {
            values_of(headers, name).push(vstd::utf8::encode_utf8(header.value))
        } else {
            values_of(headers, name)
        }),
{
    assert(headers.push(header).drop_last() =~= headers);
}

/// The view of a configured header holds all that is in it.
pub proof fn law_header_view_is_faithful(header: StaticHeader)
    ensures
        header.deep_view().name == header.name@,
        header.deep_view().value == header.value@,
{
}

/// A map that matches headers holds every valid one of them, under its name in lower case
/// and with all the values of that name in order, and holds no name that no valid header has.
pub proof fn law_map_holds_the_valid_headers(
    entries: Map<Seq<char>, Seq<Seq<u8>>>,
    headers: Seq<HeaderView>,
    at: int,
    name: Seq<char>,
)
    requires
        entries_match(entries, headers),
        0 <= at < headers.len(),
    ensures
        is_header_name(headers[at].name) && is_header_value(headers[at].value) ==> {
            &&& entries.contains_key(text::ascii_lower(headers[at].name))
            &&& entries[text::ascii_lower(headers[at].name)].contains(
                vstd::utf8::encode_utf8(headers[at].value),
            )
        },
        entries.contains_key(name) ==> entries[name].len() > 0 && entries[name] == values_of(
            headers,
            name,
        ),
        !entries.contains_key(name) ==> values_of(headers, name).len() == 0,
{
    let lower = text::ascii_lower(headers[at].name);
    lemma_valid_header_is_among_the_values(headers, at);
    if is_valid_header(headers[at]) {
        assert(entries.contains_key(lower) <==> values_of(headers, lower).len() > 0);
    }
    assert(entries.contains_key(name) <==> values_of(headers, name).len() > 0);
}

/// The value of a valid header is among those of its name.
proof fn lemma_valid_header_is_among_the_values(headers: Seq<HeaderView>, at: int)
    requires
        0 <= at < headers.len(),
    ensures
        is_valid_header(headers[at]) ==> values_of(
            headers,
            text::ascii_lower(headers[at].name),
        ).contains(vstd::utf8::encode_utf8(headers[at].value)),
    decreases headers.len(),
{
    let name = text::ascii_lower(headers[at].name);
    let value = vstd::utf8::encode_utf8(headers[at].value);
    let rest = headers.drop_last();
    let last = headers[headers.len() - 1];
    assert(headers =~= rest.push(last));
    law_header_adds_its_own_value(rest, last, name);
    if is_valid_header(headers[at]) {
        let values = values_of(headers, name);
        if at < rest.len() {
            lemma_valid_header_is_among_the_values(rest, at);
            let earlier = values_of(rest, name);
            let i = choose|i: int| 0 <= i < earlier.len() && earlier[i] == value;
            assert(values[i] == value);
        } else {
            assert(values[values.len() - 1] == value);
        }
    }
}

} // verus!
