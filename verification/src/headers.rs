//! HTTP header fields, held in the header map of the `http` crate.
use vstd::prelude::*;

verus! {

broadcast use vstd::string::group_string_axioms;

/// The header map of the `http` crate, as an opaque value.
#[verifier::external_type_specification]
#[verifier::external_body]
#[verifier::reject_recursive_types(T)]
pub struct ExHeaderMap<T>(hyper::HeaderMap<T>);

/// The header value of the `http` crate, as an opaque value.
#[verifier::external_type_specification]
#[verifier::external_body]
pub struct ExHeaderValue(hyper::header::HeaderValue);

/// The error of the `http` crate for a text that is no header name, as an opaque value.
#[verifier::external_type_specification]
#[verifier::external_body]
pub struct ExInvalidHeaderName(hyper::header::InvalidHeaderName);

/// The error of the `http` crate for a text that is no header value, as an opaque value.
#[verifier::external_type_specification]
#[verifier::external_body]
pub struct ExInvalidHeaderValue(hyper::header::InvalidHeaderValue);

/// What a header map holds: under each name, in lower case, its values in order.
pub uninterp spec fn header_contents(m: hyper::HeaderMap<hyper::header::HeaderValue>) -> Map<
    Seq<char>,
    Seq<Seq<u8>>,
>;

/// The characters of header names.
pub open spec fn is_name_char(c: char) -> bool {
    ||| 'a' <= c <= 'z'
    ||| 'A' <= c <= 'Z'
    ||| '0' <= c <= '9'
    ||| c == '!'
    ||| c == '"'
    ||| c == '#'
    ||| c == '$'
    ||| c == '%'
    ||| c == '&'
    ||| c == '\''
    ||| c == '*'
    ||| c == '+'
    ||| c == '-'
    ||| c == '.'
    ||| c == '^'
    ||| c == '_'
    ||| c == '`'
    ||| c == '|'
    ||| c == '~'
}

/// Whether a text is a header name: not empty, not too long, of the right characters.
pub open spec fn is_header_name(name: Seq<char>) -> bool {
    &&& 0 < name.len() <= 65535
    &&& forall|i: int| 0 <= i < name.len() ==> is_name_char(#[trigger] name[i])
}

/// A letter from A to Z in lower case; any other character as it is.
pub open spec fn lower_char(c: char) -> char {
    if 'A' <= c <= 'Z' {
        ((c as int) + 32) as char
    } else {
        c
    }
}

/// A text with its letters from A to Z in lower case.
pub open spec fn lower(name: Seq<char>) -> Seq<char> {
    name.map_values(|c: char| lower_char(c))
}

/// Whether bytes are a header value: no control characters but the tab.
pub open spec fn is_value_bytes(bytes: Seq<u8>) -> bool {
    forall|i: int| 0 <= i < bytes.len() ==> {
        let b = #[trigger] bytes[i];
        b == 9 || (b >= 32 && b != 127)
    }
}

/// Whether a text is a header value.
pub open spec fn is_header_value(value: Seq<char>) -> bool {
    is_value_bytes(vstd::utf8::encode_utf8(value))
}

/// `HeaderName::from_bytes` takes the text of a header name and gives it back in lower case; every
/// other text is refused.
#[verifier::external_body]
fn header_name(name: &str) -> (result: std::result::Result<String, hyper::header::InvalidHeaderName>)
    ensures
        result is Ok <==> is_header_name(name@),
        result matches Ok(n) ==> n@ == lower(name@),
{
    hyper::header::HeaderName::from_bytes(name.as_bytes()).map(|n| n.as_str().to_string())
}

/// The description that `InvalidHeaderName` gives of itself is always the same.
#[verifier::external_body]
fn name_fault(e: &hyper::header::InvalidHeaderName) -> (result: String)
    ensures
        result@ == "invalid HTTP header name"@,
{
    e.to_string()
}

/// `HeaderValue::from_bytes` accepts exactly the bytes without control characters, the tab excepted.
#[verifier::external_body]
fn header_value(value: &[u8]) -> (result: std::result::Result<
    hyper::header::HeaderValue,
    hyper::header::InvalidHeaderValue,
>)
    ensures
        result is Ok <==> is_value_bytes(value@),
{
    hyper::header::HeaderValue::from_bytes(value)
}

/// The description that `InvalidHeaderValue` gives of itself is always the same.
#[verifier::external_body]
fn value_fault(e: &hyper::header::InvalidHeaderValue) -> (result: String)
    ensures
        result@ == "failed to parse header value"@,
{
    e.to_string()
}

/// `HeaderMap::new` makes a map without headers.
#[verifier::external_body]
fn new_map() -> (result: hyper::HeaderMap<hyper::header::HeaderValue>)
    ensures
        header_contents(result).dom() == Set::<Seq<char>>::empty(),
{
    hyper::HeaderMap::new()
}

/// `HeaderMap::iter` visits every value of every name; the values of one name come in order.
#[verifier::external_body]
fn entries(m: &hyper::HeaderMap<hyper::header::HeaderValue>) -> (result: Vec<(String, Vec<u8>)>)
    ensures
        forall|name: Seq<char>| #[trigger]
            values_of(result@, name) == (if header_contents(*m).contains_key(name) {
                header_contents(*m)[name]
            } else {
                Seq::empty()
            }),
        forall|name: Seq<char>| #[trigger]
            header_contents(*m).contains_key(name) ==> values_of(result@, name).len() > 0,
        forall|i: int|
            0 <= i < result@.len() ==> is_header_name((#[trigger] result@[i]).0@) && lower(
                result@[i].0@,
            ) == result@[i].0@ && is_value_bytes(result@[i].1@),
{
    m.iter().map(|(n, v)| (n.as_str().to_string(), v.as_bytes().to_vec())).collect()
}

/// The values that stand with a name in a list of headers, in order.
pub open spec fn values_of(list: Seq<(String, Vec<u8>)>, name: Seq<char>) -> Seq<Seq<u8>>
    decreases list.len(),
{
    if list.len() == 0 {
        Seq::empty()
    } else if list.last().0@ == name {
        values_of(list.drop_last(), name).push(list.last().1@)
    } else {
        values_of(list.drop_last(), name)
    }
}

/// `HeaderMap::try_insert` puts a value in place of all values that the name had. It refuses, and
/// changes nothing, only where the table that it would need is too large, which takes more than
/// 6553 names.
#[verifier::external_body]
fn try_insert(
    m: &mut hyper::HeaderMap<hyper::header::HeaderValue>,
    name: &str,
    value: &[u8],
) -> (result: bool)
    requires
        is_header_name(name@),
        is_value_bytes(value@),
    ensures
        header_contents(*old(m)).dom().len() <= 6553 ==> result,
        header_contents(*final(m)) == (if result {
            header_contents(*old(m)).insert(lower(name@), seq![value@])
        } else {
            header_contents(*old(m))
        }),
{
    let key = hyper::header::HeaderName::from_bytes(name.as_bytes()).unwrap();
    let item = hyper::header::HeaderValue::from_bytes(value).unwrap();
    m.try_insert(key, item).is_ok()
}

/// `HeaderMap::remove` takes a name out with all its values.
#[verifier::external_body]
fn remove(m: &mut hyper::HeaderMap<hyper::header::HeaderValue>, name: &str)
    requires
        is_header_name(name@),
    ensures
        header_contents(*final(m)) == header_contents(*old(m)).remove(lower(name@)),
{
    m.remove(hyper::header::HeaderName::from_bytes(name.as_bytes()).unwrap());
}

/// `HeaderMap::get` gives the first value of a name.
#[verifier::external_body]
pub(crate) fn first_value(m: &hyper::HeaderMap<hyper::header::HeaderValue>, name: &str) -> (result: Option<
    Vec<u8>,
>)
    requires
        is_header_name(name@),
    ensures
        match result {
            Some(v) => header_contents(*m).contains_key(lower(name@)) && header_contents(
                *m,
            )[lower(name@)].len() > 0 && v@ == header_contents(*m)[lower(name@)][0],
            None => !header_contents(*m).contains_key(lower(name@)),
        },
{
    m.get(name).map(|v| v.as_bytes().to_vec())
}

/// Whether bytes are visible ASCII text, blanks and tabs among it.
pub open spec fn is_visible(bytes: Seq<u8>) -> bool {
    forall|i: int| 0 <= i < bytes.len() ==> {
        let b = #[trigger] bytes[i];
        (b >= 32 && b < 127) || b == 9
    }
}

/// ASCII bytes as characters.
pub open spec fn ascii_text(bytes: Seq<u8>) -> Seq<char> {
    bytes.map_values(|b: u8| b as char)
}

/// The text of a header value, where it is nothing but visible ASCII.
pub open spec fn value_text(bytes: Seq<u8>) -> Option<Seq<char>> {
    if is_visible(bytes) {
        Some(ascii_text(bytes))
    } else {
        None
    }
}

/// The text of the first value of a name, where the name is there and the value is visible ASCII.
pub open spec fn field_text(contents: Map<Seq<char>, Seq<Seq<u8>>>, name: Seq<char>) -> Option<
    Seq<char>,
> {
    if contents.contains_key(name) {
        value_text(contents[name][0])
    } else {
        None
    }
}

/// The text of a header value.
pub fn visible_text(bytes: &Vec<u8>) -> (result: Option<String>)
    ensures
        match result {
            Some(t) => value_text(bytes@) == Some(t@),
            None => value_text(bytes@) is None,
        },
{
    let mut out = String::new();
    let mut i: usize = 0;
    while i < bytes.len()
        invariant
            i <= bytes@.len(),
            is_visible(bytes@.take(i as int)),
            out@ == ascii_text(bytes@.take(i as int)),
        decreases bytes@.len() - i,
    {
        let b = bytes[i];
        assert(bytes@.take(i + 1)[i as int] == b);
        if !((b >= 32 && b < 127) || b == 9) {
            assert(!is_visible(bytes@));
            return None;
        }
        out.push(b as char);
        assert forall|k: int| 0 <= k < i + 1 implies {
            let x = #[trigger] bytes@.take(i + 1)[k];
            (x >= 32 && x < 127) || x == 9
        } by {
            if k < i {
                assert(bytes@.take(i as int)[k] == bytes@.take(i + 1)[k]);
            }
        }
        assert(ascii_text(bytes@.take(i + 1)) =~= ascii_text(bytes@.take(i as int)).push(b as char));
        i += 1;
    }
    assert(bytes@.take(i as int) =~= bytes@);
    Some(out)
}

/// What can go wrong when a header is changed.
pub enum HeaderFault {
    /// The text is no header name
    Name(String),
    /// The text is no header value
    Value(String),
    /// The header map is full
    Full,
}

/// Sets a header to one value.
pub fn set(
    m: &mut hyper::HeaderMap<hyper::header::HeaderValue>,
    name: &str,
    value: &str,
) -> (result: std::result::Result<(), HeaderFault>)
    ensures
        match result {
            Ok(()) => is_header_name(name@) && is_header_value(value@) && header_contents(*final(m))
                == header_contents(*old(m)).insert(
                lower(name@),
                seq![vstd::utf8::encode_utf8(value@)],
            ),
            Err(HeaderFault::Name(t)) => !is_header_name(name@) && t@
                == "invalid HTTP header name"@,
            Err(HeaderFault::Value(t)) => is_header_name(name@) && !is_header_value(value@) && t@
                == "failed to parse header value"@,
            Err(HeaderFault::Full) => is_header_name(name@) && is_header_value(value@)
                && header_contents(*old(m)).dom().len() > 6553,
        },
        result is Err ==> header_contents(*final(m)) == header_contents(*old(m)),
{
    match header_name(name) {
        Ok(_) => {},
        Err(e) => {
            return Err(HeaderFault::Name(name_fault(&e)));
        },
    }
    match header_value(value.as_bytes()) {
        Ok(_) => {},
        Err(e) => {
            return Err(HeaderFault::Value(value_fault(&e)));
        },
    }
    if try_insert(m, name, value.as_bytes()) {
        Ok(())
    } else {
        Err(HeaderFault::Full)
    }
}

/// Takes a header out.
pub fn unset(m: &mut hyper::HeaderMap<hyper::header::HeaderValue>, name: &str) -> (result:
    std::result::Result<(), HeaderFault>)
    ensures
        match result {
            Ok(()) => is_header_name(name@) && header_contents(*final(m)) == header_contents(
                *old(m),
            ).remove(lower(name@)),
            Err(HeaderFault::Name(t)) => !is_header_name(name@) && t@
                == "invalid HTTP header name"@,
            _ => false,
        },
        result is Err ==> header_contents(*final(m)) == header_contents(*old(m)),
{
    match header_name(name) {
        Ok(_) => {
            remove(m, name);
            Ok(())
        },
        Err(e) => Err(HeaderFault::Name(name_fault(&e))),
    }
}

/// The headers with each name left with its last value.
pub open spec fn flat(contents: Map<Seq<char>, Seq<Seq<u8>>>) -> Map<Seq<char>, Seq<Seq<u8>>> {
    contents.map_values(|values: Seq<Seq<u8>>| seq![values.last()])
}

/// The map in which every header of a list was set in turn.
pub open spec fn set_all(list: Seq<(String, Vec<u8>)>) -> Map<Seq<char>, Seq<Seq<u8>>>
    decreases list.len(),
{
    if list.len() == 0 {
        Map::empty()
    } else {
        set_all(list.drop_last()).insert(list.last().0@, seq![list.last().1@])
    }
}

proof fn lemma_set_all(list: Seq<(String, Vec<u8>)>, name: Seq<char>)
    ensures
        set_all(list).contains_key(name) <==> values_of(list, name).len() > 0,
        set_all(list).contains_key(name) ==> set_all(list)[name] == seq![
            values_of(list, name).last(),
        ],
    decreases list.len(),
{
    if list.len() > 0 {
        lemma_set_all(list.drop_last(), name);
    }
}

/// A copy of headers in which every header has a single value, the last that it had. It fails only
/// where there are more than 6553 names.
pub fn flatten(m: &hyper::HeaderMap<hyper::header::HeaderValue>) -> (result: Option<
    hyper::HeaderMap<hyper::header::HeaderValue>,
>)
    ensures
        match result {
            Some(copy) => header_contents(copy) == flat(header_contents(*m)),
            None => !(header_contents(*m).dom().finite() && header_contents(*m).dom().len()
                <= 6553),
        },
{
    let list = entries(m);
    let ghost contents = header_contents(*m);
    let mut copy = new_map();
    let mut i: usize = 0;
    assert(header_contents(copy) =~= set_all(list@.take(0)));
    while i < list.len()
        invariant
            i <= list@.len(),
            contents == header_contents(*m),
            forall|name: Seq<char>| #[trigger]
                values_of(list@, name) == (if contents.contains_key(name) {
                    contents[name]
                } else {
                    Seq::empty()
                }),
            forall|k: int|
                0 <= k < list@.len() ==> is_header_name((#[trigger] list@[k]).0@) && lower(
                    list@[k].0@,
                ) == list@[k].0@ && is_value_bytes(list@[k].1@),
            header_contents(copy) == set_all(list@.take(i as int)),
            forall|name: Seq<char>| #[trigger]
                header_contents(copy).contains_key(name) ==> contents.contains_key(name),
        decreases list@.len() - i,
    {
        let ghost current = header_contents(copy);
        proof {
            assert(list@.take(i + 1).drop_last() =~= list@.take(i as int));
            lemma_member(list@, i as int);
            assert(values_of(list@, list@[i as int].0@).len() > 0);
        }
        if !try_insert(&mut copy, list[i].0.as_str(), list[i].1.as_slice()) {
            proof {
                if contents.dom().finite() {
                    assert(current.dom().subset_of(contents.dom()));
                    vstd::set_lib::lemma_len_subset(current.dom(), contents.dom());
                }
            }
            return None;
        }
        i += 1;
    }
    proof {
        assert(list@.take(i as int) =~= list@);
        assert forall|name: Seq<char>| #[trigger]
            set_all(list@).contains_key(name) <==> contents.contains_key(name) by {
            lemma_set_all(list@, name);
            assert(contents.contains_key(name) ==> values_of(list@, name).len() > 0);
        }
        assert forall|name: Seq<char>| set_all(list@).contains_key(name) implies set_all(
            list@,
        )[name] == flat(contents)[name] by {
            lemma_set_all(list@, name);
        }
        assert(set_all(list@) =~= flat(contents));
    }
    Some(copy)
}

proof fn lemma_member(list: Seq<(String, Vec<u8>)>, i: int)
    requires
        0 <= i < list.len(),
    ensures
        values_of(list, list[i].0@).len() > 0,
    decreases list.len(),
{
    if i < list.len() - 1 {
        lemma_member(list.drop_last(), i);
    }
}

/// Whether a text is a header value.
pub fn check_value(value: &str) -> (result: bool)
    ensures
        result == is_header_value(value@),
{
    header_value(value.as_bytes()).is_ok()
}

/// Whether a text is a header name; what is wrong with it otherwise.
pub fn check_name(name: &str) -> (result: std::result::Result<(), String>)
    ensures
        result is Ok <==> is_header_name(name@),
        result matches Err(t) ==> t@ == "invalid HTTP header name"@,
{
    match header_name(name) {
        Ok(_) => Ok(()),
        Err(e) => Err(name_fault(&e)),
    }
}

/// A value that is text without control characters is a header value, and is read as the same text.
pub proof fn law_values_are_read_as_written(value: Seq<char>)
    requires
        forall|i: int|
            0 <= i < value.len() ==> ' ' <= (#[trigger] value[i]) <= '~' || value[i] == '\t',
    ensures
        is_header_value(value),
        value_text(vstd::utf8::encode_utf8(value)) == Some(value),
{
    let bytes = vstd::utf8::encode_utf8(value);
    assert(vstd::utf8::is_ascii_chars(value)) by {
        assert forall|i: int| 0 <= i < value.len() implies '\0' <= #[trigger] value[i] <= '\u{7f}' by {
            assert(' ' <= value[i] <= '~' || value[i] == '\t');
        }
    }
    vstd::utf8::is_ascii_chars_encode_utf8(value);
    assert forall|i: int| 0 <= i < bytes.len() implies (#[trigger] bytes[i]) as char == value[i] && (32
        <= bytes[i] <= 126 || bytes[i] == 9) by {
        assert(' ' <= value[i] <= '~' || value[i] == '\t');
    }
    assert(ascii_text(bytes) =~= value);
}

/// Names that differ in the case of their letters are the same name.
pub proof fn law_names_know_no_case(name: Seq<char>)
    ensures
        lower(lower(name)) == lower(name),
        lower(name).len() == name.len(),
        forall|i: int|
            0 <= i < name.len() ==> !('A' <= #[trigger] lower(name)[i] <= 'Z') && (!('A' <= name[i]
                <= 'Z') ==> lower(name)[i] == name[i]) && ('A' <= name[i] <= 'Z' ==> lower(name)[i]
                as int - 'a' as int == name[i] as int - 'A' as int),
{
    assert forall|i: int| 0 <= i < name.len() implies lower(lower(name))[i] == lower(name)[i] by {
        assert(lower(name)[i] == lower_char(name[i]));
    }
    assert(lower(lower(name)) =~= lower(name));
}

/// Flattened headers have the same names, each with the last of its values alone.
pub proof fn law_flat_headers_have_one_value(
    contents: Map<Seq<char>, Seq<Seq<u8>>>,
    name: Seq<char>,
)
    ensures
        flat(contents).contains_key(name) <==> contents.contains_key(name),
        contents.contains_key(name) ==> flat(contents)[name].len() == 1 && flat(contents)[name][0]
            == contents[name].last(),
        flat(flat(contents)) == flat(contents),
{
    assert(flat(flat(contents)) =~= flat(contents)) by {
        assert forall|n: Seq<char>| contents.contains_key(n) implies flat(flat(contents))[n]
            == flat(contents)[n] by {
            assert(flat(flat(contents))[n] =~= flat(contents)[n]);
        }
    }
}

/// A header is read by its first value; one that is not there has none.
pub proof fn law_first_value_is_read(
    contents: Map<Seq<char>, Seq<Seq<u8>>>,
    name: Seq<char>,
    value: Seq<char>,
    more: Seq<Seq<u8>>,
)
    requires
        forall|i: int|
            0 <= i < value.len() ==> ' ' <= (#[trigger] value[i]) <= '~' || value[i] == '\t',
    ensures
        field_text(contents.insert(name, seq![vstd::utf8::encode_utf8(value)] + more), name) == Some(
            value,
        ),
        field_text(contents.remove(name), name) is None,
{
    law_values_are_read_as_written(value);
    let values = seq![vstd::utf8::encode_utf8(value)] + more;
    assert(values[0] == vstd::utf8::encode_utf8(value));
}

/// Bytes are read as text exactly where all of them are printable ASCII, blanks or tabs, and then as
/// the characters with these codes.
pub proof fn law_text_is_printable_ascii(bytes: Seq<u8>)
    ensures
        value_text(bytes) is Some <==> forall|i: int|
            0 <= i < bytes.len() ==> 32 <= (#[trigger] bytes[i]) <= 126 || bytes[i] == 9,
        value_text(bytes) matches Some(t) ==> t.len() == bytes.len() && forall|i: int|
            0 <= i < bytes.len() ==> (#[trigger] t[i]) as int == bytes[i] as int,
{
}

} // verus!
