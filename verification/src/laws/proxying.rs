//! What passes through the proxy.
use crate::laws::texts::leading_characters_are_cut;
use crate::proxy::{
    header_views, is_forwarded, is_header_text, is_hop_by_hop, last_value, names_differ,
    proxied_url, Header, HeaderView,
};
use crate::text::{lower, without_leading};
use vstd::prelude::*;
use vstd::utf8::encode_utf8;

verus! {

/// Seven headers belong to a connection and do not pass in either direction.
/// Three more are not forwarded to GitHub: the caller's credentials, the host and
/// the length of the body. Every other header passes in both directions.
pub proof fn all_other_headers_pass(name: Seq<char>)
    ensures
        is_hop_by_hop(name) <==> {
            ||| name == "connection"@
            ||| name == "proxy-authenticate"@
            ||| name == "proxy-authorization"@
            ||| name == "te"@
            ||| name == "trailer"@
            ||| name == "transfer-encoding"@
            ||| name == "upgrade"@
        },
        is_forwarded(name) <==> {
            &&& name != "connection"@
            &&& name != "proxy-authenticate"@
            &&& name != "proxy-authorization"@
            &&& name != "te"@
            &&& name != "trailer"@
            &&& name != "transfer-encoding"@
            &&& name != "upgrade"@
            &&& name != "authorization"@
            &&& name != "host"@
            &&& name != "content-length"@
        },
{
}

/// The name of a header counts in lower case, and its value byte by byte.
pub proof fn headers_are_named_in_lower_case(headers: Seq<Header>, i: int)
    requires
        0 <= i < headers.len(),
    ensures
        header_views(headers).len() == headers.len(),
        header_views(headers)[i].name == lower(headers[i].name@),
        header_views(headers)[i].value == headers[i].value@,
{
}

/// The value of a header that stands several times is the last one's; a header
/// that does not stand at all has none.
pub proof fn the_last_header_counts(headers: Seq<HeaderView>, name: Seq<char>, i: int)
    ensures
        last_value(headers, name) is Some <==> exists|k: int|
            0 <= k < headers.len() && (#[trigger] headers[k]).name == name,
        0 <= i < headers.len() && headers[i].name == name && (forall|k: int|
            i < k < headers.len() ==> (#[trigger] headers[k]).name != name) ==> last_value(
            headers,
            name,
        ) == Some(headers[i].value),
    decreases headers.len(),
{
    if headers.len() > 0 {
        let rest = headers.drop_last();
        let n = headers.len() - 1;
        assert(headers[n] == headers.last());
        the_last_header_counts(rest, name, i);
        if headers.last().name != name {
            if last_value(rest, name) is Some {
                let k = choose|k: int| 0 <= k < rest.len() && (#[trigger] rest[k]).name == name;
                assert(headers[k].name == name);
            }
            if exists|k: int| 0 <= k < headers.len() && (#[trigger] headers[k]).name == name {
                let k = choose|k: int|
                    0 <= k < headers.len() && (#[trigger] headers[k]).name == name;
                assert(rest[k].name == name);
            }
        }
        if 0 <= i < n && headers[i].name == name && (forall|k: int|
            i < k < headers.len() ==> (#[trigger] headers[k]).name != name) {
            assert(headers[n].name != name);
            assert forall|k: int| i < k < rest.len() implies (#[trigger] rest[k]).name != name by {
                assert(headers[k].name != name);
            }
            assert(rest[i] == headers[i]);
        }
    }
}

/// A text can stand in a header where none of its bytes is a control character,
/// a tab excepted.
pub proof fn control_characters_cannot_stand_in_headers(text: Seq<char>)
    ensures
        is_header_text(text) <==> forall|i: int|
            0 <= i < encode_utf8(text).len() ==> ((#[trigger] encode_utf8(text)[i] >= 32
                && encode_utf8(text)[i] != 127) || encode_utf8(text)[i] == 9),
{
}

/// A proxied request goes to the API's address, one slash and the path, and
/// carries the query where there is one. How many slashes the path starts with
/// does not matter.
pub proof fn proxied_requests_go_to_the_path(
    api_url: Seq<char>,
    path: Seq<char>,
    query: Seq<char>,
    slashes: Seq<char>,
)
    requires
        path.len() == 0 || path[0] != '/',
        forall|i: int| 0 <= i < slashes.len() ==> slashes[i] == '/',
    ensures
        proxied_url(api_url, slashes + path, None) == api_url + "/"@ + path,
        query.len() == 0 ==> proxied_url(api_url, slashes + path, Some(query)) == api_url + "/"@
            + path,
        query.len() > 0 ==> proxied_url(api_url, slashes + path, Some(query)) == api_url + "/"@
            + path + "?"@ + query,
{
    let whole = slashes + path;
    leading_characters_are_cut(whole, '/');
    let k = choose|k: int|
        {
            &&& 0 <= k <= whole.len()
            &&& without_leading(whole, '/') == #[trigger] whole.skip(k)
            &&& forall|j: int| 0 <= j < k ==> whole[j] == '/'
            &&& k < whole.len() ==> whole[k] != '/'
        };
    if k > slashes.len() {
        assert(whole[slashes.len() as int] == path[0]);
    }
    if k < slashes.len() {
        assert(whole[k] == slashes[k]);
    }
    assert(whole.skip(k) =~= path);
}

/// No header is sent twice under one name.
pub proof fn headers_are_sent_once(headers: Seq<HeaderView>, i: int, j: int)
    requires
        names_differ(headers),
        0 <= i < headers.len(),
        0 <= j < headers.len(),
        headers[i].name == headers[j].name,
    ensures
        i == j,
{
}

} // verus!
