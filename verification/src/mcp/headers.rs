//! The headers that are added to every request to a server.

use vstd::prelude::*;

use crate::table::NameTable;
use crate::text;

verus! {

#[verifier::external_type_specification]
#[verifier::external_body]
pub struct ExInvalidHeaderName(http::header::InvalidHeaderName);

#[verifier::external_type_specification]
#[verifier::external_body]
pub struct ExInvalidHeaderValue(http::header::InvalidHeaderValue);

/// A character that may stand in the name of a header.
pub open spec fn is_name_char(c: char) -> bool {
    ||| 'a' <= c && c <= 'z'
    ||| 'A' <= c && c <= 'Z'
    ||| '0' <= c && c <= '9'
    ||| "!#$%&'*+-.^_`|~"@.contains(c)
}

/// A text that is the name of a header.
pub open spec fn is_header_name(s: Seq<char>) -> bool {
    1 <= s.len() <= 65535 && forall|i: int| 0 <= i < s.len() ==> is_name_char(#[trigger] s[i])
}

/// A character that may stand in the value of a header: no control character but the tab.
pub open spec fn is_value_char(c: char) -> bool {
    (c as int >= 32 && c as int != 127) || c == '\t'
}

/// A text that is the value of a header.
pub open spec fn is_header_value(s: Seq<char>) -> bool {
    forall|i: int| 0 <= i < s.len() ==> is_value_char(#[trigger] s[i])
}

/// Calls `http::HeaderName::from_bytes` on the bytes of a text and returns the name that it
/// holds. It accepts the texts made of one to 65535 name characters, and holds them with their
/// capitals made small.
#[verifier::external_body]
fn parse_name(name: &str) -> (parsed: Result<String, http::header::InvalidHeaderName>)
    ensures
        parsed is Ok == is_header_name(name@),
        parsed matches Ok(held) ==> held@ == text::lower(name@),
{
    http::HeaderName::from_bytes(name.as_bytes()).map(|held| held.as_str().to_string())
}

/// Calls `http::HeaderValue::from_str` and returns the bytes that the value holds. It accepts
/// the texts without control characters other than the tab, and holds their UTF-8 encoding.
#[verifier::external_body]
fn parse_value(value: &str) -> (parsed: Result<Vec<u8>, http::header::InvalidHeaderValue>)
    ensures
        parsed is Ok == is_header_value(value@),
        parsed matches Ok(held) ==> held@ == vstd::utf8::encode_utf8(value@),
{
    http::HeaderValue::from_str(value).map(|held| held.as_bytes().to_vec())
}

/// Calls `to_string` on `http::header::InvalidHeaderName`, which always reads the same.
#[verifier::external_body]
fn name_error_text(e: &http::header::InvalidHeaderName) -> (s: String)
    ensures
        s@ == "invalid HTTP header name"@,
{
    e.to_string()
}

/// Calls `to_string` on `http::header::InvalidHeaderValue`, which always reads the same.
#[verifier::external_body]
fn value_error_text(e: &http::header::InvalidHeaderValue) -> (s: String)
    ensures
        s@ == "failed to parse header value"@,
{
    e.to_string()
}

/// What is said of a header whose name is no header name.
pub open spec fn bad_name(server: Seq<char>, key: Seq<char>) -> Seq<char> {
    "Invalid header name '"@ + key + "' for MCP '"@ + server + "': "@
        + "invalid HTTP header name"@
}

/// What is said of a header whose value is no header value.
pub open spec fn bad_value(server: Seq<char>, key: Seq<char>) -> Seq<char> {
    "Invalid header value for '"@ + key + "' in MCP '"@ + server + "': "@
        + "failed to parse header value"@
}

/// The headers made of a list of names and values, taken in order: of two whose names differ
/// in case alone the later. The first that is not well-formed makes the whole list an error.
pub open spec fn parsed_headers(server: Seq<char>, list: Seq<(Seq<char>, Seq<char>)>) -> Result<
    Map<Seq<char>, Seq<u8>>,
    Seq<char>,
>
    decreases list.len(),
{
    if list.len() == 0 {
        Ok(Map::empty())
    } else {
        let (key, value) = list.last();
        match parsed_headers(server, list.drop_last()) {
            Err(e) => Err(e),
            Ok(headers) => if !is_header_name(key) {
                Err(bad_name(server, key))
            } else if !is_header_value(value) {
                Err(bad_value(server, key))
            } else {
                Ok(headers.insert(text::lower(key), vstd::utf8::encode_utf8(value)))
            },
        }
    }
}

/// The bytes by name that a table of headers holds.
pub open spec fn header_bytes(headers: NameTable<Vec<u8>>) -> Map<Seq<char>, Seq<u8>> {
    headers@.map_values(|value: Vec<u8>| value@)
}

/// An error stays one when more headers follow.
proof fn lemma_error_stays(server: Seq<char>, list: Seq<(Seq<char>, Seq<char>)>, k: int)
    requires
        0 <= k <= list.len(),
        parsed_headers(server, list.take(k)) is Err,
    ensures
        parsed_headers(server, list) == parsed_headers(server, list.take(k)),
    decreases list.len() - k,
{
    if k < list.len() {
        assert(list.take(k + 1).drop_last() =~= list.take(k));
        lemma_error_stays(server, list, k + 1);
    } else {
        assert(list.take(k) =~= list);
    }
}

/// Reads the headers that are configured for a server.
pub fn parse_headers(server: &str, list: &Vec<(String, String)>) -> (headers: Result<
    NameTable<Vec<u8>>,
    String,
>)
    ensures
        match headers {
            Ok(headers) => headers.wf() && parsed_headers(server@, text::text_pairs(list@)) == Ok::<
                Map<Seq<char>, Seq<u8>>,
                Seq<char>,
            >(header_bytes(headers)),
            Err(message) => parsed_headers(server@, text::text_pairs(list@)) == Err::<
                Map<Seq<char>, Seq<u8>>,
                Seq<char>,
            >(message@),
        },
{
    let ghost pairs = text::text_pairs(list@);
    let mut headers: NameTable<Vec<u8>> = NameTable::new();
    let mut i: usize = 0;
    proof {
        assert(header_bytes(headers) =~= Map::<Seq<char>, Seq<u8>>::empty());
    }
    while i < list.len()
        invariant
            i <= list@.len(),
            pairs == text::text_pairs(list@),
            headers.wf(),
            parsed_headers(server@, pairs.take(i as int)) == Ok::<
                Map<Seq<char>, Seq<u8>>,
                Seq<char>,
            >(header_bytes(headers)),
        decreases list@.len() - i,
    {
        let key = list[i].0.as_str();
        let value = list[i].1.as_str();
        proof {
            assert(pairs.take(i + 1).drop_last() =~= pairs.take(i as int));
            assert(pairs[i as int] == (key@, value@));
        }
        match parse_name(key) {
            Err(e) => {
                let mut message = "Invalid header name '".to_string();
                message.append(key);
                message.append("' for MCP '");
                message.append(server);
                message.append("': ");
                message.append(name_error_text(&e).as_str());
                proof {
                    lemma_error_stays(server@, pairs, i + 1);
                }
                return Err(message);
            },
            Ok(name) => match parse_value(value) {
                Err(e) => {
                    let mut message = "Invalid header value for '".to_string();
                    message.append(key);
                    message.append("' in MCP '");
                    message.append(server);
                    message.append("': ");
                    message.append(value_error_text(&e).as_str());
                    proof {
                        lemma_error_stays(server@, pairs, i + 1);
                    }
                    return Err(message);
                },
                Ok(bytes) => {
                    let ghost before = header_bytes(headers);
                    let ghost held = name@;
                    let ghost content = bytes@;
                    let _ = headers.insert(name, bytes);
                    proof {
                        assert(header_bytes(headers) =~= before.insert(held, content));
                    }
                },
            },
        }
        i += 1;
    }
    proof {
        assert(pairs.take(pairs.len() as int) =~= pairs);
    }
    Ok(headers)
}

/// Two headers whose names differ in case alone are one: the later value holds.
pub proof fn law_header_names_ignore_case(
    server: Seq<char>,
    list: Seq<(Seq<char>, Seq<char>)>,
    key: Seq<char>,
    value: Seq<char>,
    again: Seq<char>,
    other: Seq<char>,
)
    requires
        text::lower(key) == text::lower(again),
        is_header_name(key),
        is_header_value(value),
    ensures
        parsed_headers(server, list.push((key, value)).push((again, other))) == parsed_headers(
            server,
            list.push((again, other)),
        ),
{
    let one = list.push((key, value));
    let two = one.push((again, other));
    let direct = list.push((again, other));
    assert(two.drop_last() =~= one);
    assert(one.drop_last() =~= list);
    assert(direct.drop_last() =~= list);
    if let Ok(base) = parsed_headers(server, list) {
        let bytes = vstd::utf8::encode_utf8(other);
        assert(parsed_headers(server, one) == Ok::<Map<Seq<char>, Seq<u8>>, Seq<char>>(
            base.insert(text::lower(key), vstd::utf8::encode_utf8(value)),
        ));
        assert(base.insert(text::lower(key), vstd::utf8::encode_utf8(value)).insert(
            text::lower(again),
            bytes,
        ) =~= base.insert(text::lower(again), bytes));
    }
}

/// Every header of a list that is well-formed is there: under its name in small letters stand
/// the bytes of its value, where no later header has that name.
pub proof fn law_every_header_is_there(
    server: Seq<char>,
    list: Seq<(Seq<char>, Seq<char>)>,
    k: int,
)
    requires
        parsed_headers(server, list) is Ok,
        0 <= k < list.len(),
        forall|j: int|
            k < j < list.len() ==> text::lower((#[trigger] list[j]).0) != text::lower(list[k].0),
    ensures
        parsed_headers(server, list)->Ok_0.contains_key(text::lower(list[k].0)),
        parsed_headers(server, list)->Ok_0[text::lower(list[k].0)] == vstd::utf8::encode_utf8(
            list[k].1,
        ),
    decreases list.len(),
{
    let last = list.len() - 1;
    if k < last {
        let rest = list.drop_last();
        assert forall|j: int| k < j < rest.len() implies text::lower((#[trigger] rest[j]).0)
            != text::lower(rest[k].0) by {
            assert(text::lower(list[j].0) != text::lower(list[k].0));
        }
        law_every_header_is_there(server, rest, k);
        assert(text::lower(list[last].0) != text::lower(list[k].0));
    }
}

/// No header is there that the list does not hold.
pub proof fn law_no_other_header_is_there(
    server: Seq<char>,
    list: Seq<(Seq<char>, Seq<char>)>,
    name: Seq<char>,
)
    requires
        parsed_headers(server, list) is Ok,
        forall|j: int| 0 <= j < list.len() ==> text::lower((#[trigger] list[j]).0) != name,
    ensures
        !parsed_headers(server, list)->Ok_0.contains_key(name),
    decreases list.len(),
{
    if list.len() > 0 {
        let rest = list.drop_last();
        assert forall|j: int| 0 <= j < rest.len() implies text::lower((#[trigger] rest[j]).0)
            != name by {
            assert(text::lower(list[j].0) != name);
        }
        law_no_other_header_is_there(server, rest, name);
        assert(text::lower(list[list.len() - 1].0) != name);
    }
}

/// The first header that is not well-formed makes the error, and the name is looked at before
/// the value. Without such a header there is no error.
pub proof fn law_the_first_bad_header_is_named(
    server: Seq<char>,
    before: Seq<(Seq<char>, Seq<char>)>,
    key: Seq<char>,
    value: Seq<char>,
    after: Seq<(Seq<char>, Seq<char>)>,
)
    requires
        forall|i: int|
            0 <= i < before.len() ==> is_header_name((#[trigger] before[i]).0) && is_header_value(
                before[i].1,
            ),
    ensures
        parsed_headers(server, before) is Ok,
        !is_header_name(key) ==> parsed_headers(server, before.push((key, value)) + after) == Err::<
            Map<Seq<char>, Seq<u8>>,
            Seq<char>,
        >(
            "Invalid header name '"@ + key + "' for MCP '"@ + server
                + "': "@ + "invalid HTTP header name"@,
        ),
        is_header_name(key) && !is_header_value(value) ==> parsed_headers(
            server,
            before.push((key, value)) + after,
        ) == Err::<Map<Seq<char>, Seq<u8>>, Seq<char>>(
            "Invalid header value for '"@ + key + "' in MCP '"@ + server
                + "': "@ + "failed to parse header value"@,
        ),
    decreases before.len(),
{
    if before.len() > 0 {
        let rest = before.drop_last();
        assert forall|i: int| 0 <= i < rest.len() implies is_header_name((#[trigger] rest[i]).0)
            && is_header_value(rest[i].1) by {
            assert(rest[i] == before[i]);
        }
        law_the_first_bad_header_is_named(server, rest, key, value, after);
        assert(before.last() == before[before.len() - 1]);
    }
    let head = before.push((key, value));
    assert(head.drop_last() =~= before);
    let all = head + after;
    assert(all.take(head.len() as int) =~= head);
    if parsed_headers(server, head) is Err {
        lemma_error_stays(server, all, head.len() as int);
    }
}

/// Which characters a header may be made of: a name of letters, digits and the signs of a token,
/// at least one of them and not beyond all measure; a value of anything but control characters,
/// of which the tab alone is allowed.
pub proof fn law_header_characters(name: Seq<char>, value: Seq<char>, i: int)
    ensures
        is_header_name(Seq::empty()) == false,
        name.len() > 65535 ==> !is_header_name(name),
        0 <= i < name.len() && (name[i] as int <= 32 || name[i] as int >= 127 || name[i] == ':'
            || name[i] == '/' || name[i] == '"' || name[i] == '(' || name[i] == ')' || name[i]
            == ',' || name[i] == ';' || name[i] == '<' || name[i] == '=' || name[i] == '>'
            || name[i] == '?' || name[i] == '@' || name[i] == '[' || name[i] == ']'
            || name[i] == '{' || name[i] == '}' || name[i] == '\\') ==> !is_header_name(name),
        1 <= name.len() <= 65535 && (forall|k: int|
            0 <= k < name.len() ==> (('a' <= #[trigger] name[k] && name[k] <= 'z') || ('A'
                <= name[k] && name[k] <= 'Z') || ('0' <= name[k] && name[k] <= '9') || name[k]
                == '-' || name[k] == '_' || name[k] == '.' || name[k] == '!' || name[k] == '#'
                || name[k] == '$' || name[k] == '%' || name[k] == '&' || name[k] == '\''
                || name[k] == '*' || name[k] == '+' || name[k] == '^' || name[k] == '`' || name[k]
                == '|' || name[k] == '~')) ==> is_header_name(name),
        is_header_value(Seq::empty()),
        0 <= i < value.len() && (value[i] as int == 127 || (value[i] as int) < 32 && value[i]
            != '\t') ==> !is_header_value(value),
        (forall|k: int|
            0 <= k < value.len() ==> (#[trigger] value[k] == '\t' || value[k] as int >= 32
                && value[k] as int != 127)) ==> is_header_value(value),
{
    let signs = "!#$%&'*+-.^_`|~"@;
    reveal_strlit("!#$%&'*+-.^_`|~");
    assert(signs.len() == 15);
    assert(signs[0] == '!' && signs[1] == '#' && signs[2] == '$' && signs[3] == '%' && signs[4]
        == '&' && signs[5] == '\'' && signs[6] == '*' && signs[7] == '+' && signs[8] == '-'
        && signs[9] == '.' && signs[10] == '^' && signs[11] == '_' && signs[12] == '`'
        && signs[13] == '|' && signs[14] == '~');
    if 0 <= i < name.len() && is_header_name(name) {
        let c = name[i];
        assert(is_name_char(c));
        if signs.contains(c) {
            let k = choose|k: int| 0 <= k < signs.len() && signs[k] == c;
            assert(c == '!' || c == '#' || c == '$' || c == '%' || c == '&' || c == '\'' || c
                == '*' || c == '+' || c == '-' || c == '.' || c == '^' || c == '_' || c == '`' || c
                == '|' || c == '~');
        }
    }
    if 0 <= i < value.len() && is_header_value(value) {
        assert(is_value_char(value[i]));
    }
}

} // verus!
