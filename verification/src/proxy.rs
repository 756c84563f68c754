//! Proxied requests: where they go, and which headers pass in either direction.
use crate::github::GithubError;
use crate::text::{
    ascii_lower, cat2, cat3, cat4, cat5, lower, lower_is, same_ignoring_ascii_case, trim_start_char,
    without_leading,
};
use vstd::prelude::*;
use vstd::utf8::encode_utf8;

verus! {

/// A header of a request or a response. The case of its name does not matter.
#[derive(Debug, PartialEq, Eq)]
pub struct Header {
    pub name: String,
    pub value: Vec<u8>,
}

/// The model of a `Header`. The name is in lower case.
pub struct HeaderView {
    pub name: Seq<char>,
    pub value: Seq<u8>,
}

impl View for Header {
    type V = HeaderView;

    open spec fn view(&self) -> HeaderView {
        HeaderView { name: lower(self.name@), value: self.value@ }
    }
}

/// The views of a list of headers.
pub open spec fn header_views(headers: Seq<Header>) -> Seq<HeaderView> {
    headers.map_values(|header: Header| header@)
}

fn copy_bytes(bytes: &Vec<u8>) -> (r: Vec<u8>)
    ensures
        r@ == bytes@,
{
    let mut out: Vec<u8> = Vec::new();
    let mut i: usize = 0;
    while i < bytes.len()
        invariant
            i <= bytes@.len(),
            out@ == bytes@.take(i as int),
        decreases bytes@.len() - i,
    {
        out.push(bytes[i]);
        i = i + 1;
        assert(bytes@.take(i as int).drop_last() =~= bytes@.take(i - 1));
    }
    assert(bytes@.take(i as int) =~= bytes@);
    out
}

impl Clone for Header {
    fn clone(&self) -> (r: Self)
        ensures
            r@ == self@,
    {
        Header { name: self.name.clone(), value: copy_bytes(&self.value) }
    }
}

/// The headers that belong to one connection and not to a message, by their
/// names in lower case.
pub open spec fn is_hop_by_hop(name: Seq<char>) -> bool {
    ||| name == "connection"@
    ||| name == "proxy-authenticate"@
    ||| name == "proxy-authorization"@
    ||| name == "te"@
    ||| name == "trailer"@
    ||| name == "transfer-encoding"@
    ||| name == "upgrade"@
}

/// The headers of a caller that are passed on to GitHub. The caller's own
/// credentials are not among them.
pub open spec fn is_forwarded(name: Seq<char>) -> bool {
    !is_hop_by_hop(name) && name != "authorization"@ && name != "host"@ && name
        != "content-length"@
}

/// Whether a header of GitHub's response is passed back.
pub fn should_return_proxy_header(name: &str) -> (r: bool)
    ensures
        r == !is_hop_by_hop(lower(name@)),
{
    !(lower_is(name, "connection") || lower_is(name, "proxy-authenticate") || lower_is(
        name,
        "proxy-authorization",
    ) || lower_is(name, "te") || lower_is(name, "trailer") || lower_is(name, "transfer-encoding")
        || lower_is(name, "upgrade"))
}

/// Whether a header of a caller is passed on to GitHub.
pub fn should_forward_header(name: &str) -> (r: bool)
    ensures
        r == is_forwarded(lower(name@)),
{
    should_return_proxy_header(name) && !lower_is(name, "authorization") && !lower_is(name, "host")
        && !lower_is(name, "content-length")
}

fn same_name(a: &str, b: &str) -> (r: bool)
    ensures
        r == (lower(a@) == lower(b@)),
{
    let r = same_ignoring_ascii_case(a, b);
    proof {
        if r {
            assert(lower(a@) =~= lower(b@));
        } else if a@.len() == b@.len() {
            let i = choose|i: int|
                0 <= i < a@.len() && ascii_lower(#[trigger] a@[i]) != ascii_lower(b@[i]);
            assert(lower(a@)[i] != lower(b@)[i]);
        } else {
            assert(lower(a@).len() != lower(b@).len());
        }
    }
    r
}

/// The last value of a header.
pub open spec fn last_value(headers: Seq<HeaderView>, name: Seq<char>) -> Option<Seq<u8>>
    decreases headers.len(),
{
    if headers.len() == 0 {
        None
    } else if headers.last().name == name {
        Some(headers.last().value)
    } else {
        last_value(headers.drop_last(), name)
    }
}

/// No name occurs twice.
pub open spec fn names_differ(headers: Seq<HeaderView>) -> bool {
    forall|i: int, j: int|
        0 <= i < j < headers.len() ==> (#[trigger] headers[i]).name != (#[trigger] headers[j]).name
}

proof fn last_value_at(headers: Seq<HeaderView>, name: Seq<char>, i: int)
    requires
        0 <= i < headers.len(),
        headers[i].name == name,
        names_differ(headers),
    ensures
        last_value(headers, name) == Some(headers[i].value),
    decreases headers.len(),
{
    if i < headers.len() - 1 {
        assert(headers[i].name != headers[headers.len() - 1].name);
        assert(names_differ(headers.drop_last())) by {
            assert forall|a: int, b: int|
                0 <= a < b < headers.drop_last().len() implies (#[trigger] headers.drop_last()[a]).name
                != (#[trigger] headers.drop_last()[b]).name by {
                assert(headers[a].name != headers[b].name);
            }
        }
        last_value_at(headers.drop_last(), name, i);
    }
}

proof fn last_value_absent(headers: Seq<HeaderView>, name: Seq<char>)
    requires
        forall|i: int| 0 <= i < headers.len() ==> (#[trigger] headers[i]).name != name,
    ensures
        last_value(headers, name) is None,
    decreases headers.len(),
{
    if headers.len() > 0 {
        assert(headers[headers.len() - 1].name != name);
        assert forall|i: int| 0 <= i < headers.drop_last().len() implies (
        #[trigger] headers.drop_last()[i]).name != name by {
            assert(headers[i].name != name);
        }
        last_value_absent(headers.drop_last(), name);
    }
}

/// Sets a header, in place of the one of that name.
fn set_header(headers: Vec<Header>, header: Header) -> (r: Vec<Header>)
    requires
        names_differ(header_views(headers@)),
    ensures
        names_differ(header_views(r@)),
        forall|name: Seq<char>| #[trigger]
            last_value(header_views(r@), name) == (if name == header@.name {
                Some(header@.value)
            } else {
                last_value(header_views(headers@), name)
            }),
{
    let ghost before = header_views(headers@);
    let ghost set = header@;
    let mut out = headers;
    let mut i: usize = 0;
    while i < out.len()
        invariant
            i <= out@.len(),
            before == header_views(out@),
            before == header_views(headers@),
            set == header@,
            names_differ(before),
            forall|j: int| 0 <= j < i ==> (#[trigger] before[j]).name != set.name,
        decreases out@.len() - i,
    {
        if same_name(out[i].name.as_str(), header.name.as_str()) {
            let _old = out.remove(i);
            out.insert(i, header);
            proof {
                let after = before.update(i as int, set);
                assert(header_views(out@) =~= after);
                assert(before[i as int].name == set.name);
                assert(names_differ(after)) by {
                    assert forall|a: int, b: int| 0 <= a < b < after.len() implies (
                    #[trigger] after[a]).name != (#[trigger] after[b]).name by {
                        assert(before[a].name != before[b].name);
                    }
                }
                assert forall|name: Seq<char>| #[trigger] last_value(after, name) == (if name
                    == set.name {
                    Some(set.value)
                } else {
                    last_value(before, name)
                }) by {
                    if name == set.name {
                        last_value_at(after, name, i as int);
                    } else if exists|k: int| 0 <= k < before.len() && before[k].name == name {
                        let k = choose|k: int| 0 <= k < before.len() && before[k].name == name;
                        assert(after[k] == before[k]);
                        last_value_at(before, name, k);
                        last_value_at(after, name, k);
                    } else {
                        assert forall|k: int| 0 <= k < after.len() implies (
                        #[trigger] after[k]).name != name by {
                            assert(before[k].name != name);
                        }
                        last_value_absent(before, name);
                        last_value_absent(after, name);
                    }
                }
            }
            return out;
        }
        i = i + 1;
    }
    out.push(header);
    proof {
        let after = before.push(set);
        assert(header_views(out@) =~= after);
        assert(after.drop_last() =~= before);
        assert(names_differ(after)) by {
            assert forall|a: int, b: int| 0 <= a < b < after.len() implies (#[trigger] after[a]).name
                != (#[trigger] after[b]).name by {
                if b < before.len() {
                    assert(before[a].name != before[b].name);
                } else {
                    assert(before[a].name != set.name);
                }
            }
        }
    }
    out
}

/// Whether a byte may stand in the value of a header.
pub open spec fn is_header_byte(b: u8) -> bool {
    (b >= 32 && b != 127) || b == 9
}

/// Calls `reqwest::header::HeaderValue::from_str`: the bytes of the text, where
/// each of them may stand in a header's value.
#[verifier::external_body]
fn header_value(text: &str) -> (r: Option<Vec<u8>>)
    ensures
        r is Some <==> forall|i: int|
            0 <= i < encode_utf8(text@).len() ==> is_header_byte(
                #[trigger] encode_utf8(text@)[i],
            ),
        r matches Some(bytes) ==> bytes@ == encode_utf8(text@),
{
    reqwest::header::HeaderValue::from_str(text).ok().map(|value| value.as_bytes().to_vec())
}

/// Whether an installation token can be put in a header.
pub open spec fn is_header_text(text: Seq<char>) -> bool {
    forall|i: int|
        0 <= i < encode_utf8(text).len() ==> is_header_byte(#[trigger] encode_utf8(text)[i])
}

/// The headers of a proxied request: those of the caller that are passed on,
/// the last of each name, and the installation token as the authorization.
pub fn proxy_headers(headers: &Vec<Header>, installation_token: &str) -> (r: Result<
    Vec<Header>,
    GithubError,
>)
    ensures
        match r {
            Ok(proxied) => {
                let authorization = "Bearer "@ + installation_token@;
                &&& is_header_text(authorization)
                &&& names_differ(header_views(proxied@))
                &&& forall|name: Seq<char>| #[trigger]
                    last_value(header_views(proxied@), name) == (if name == "authorization"@ {
                        Some(encode_utf8(authorization))
                    } else if is_forwarded(name) {
                        last_value(header_views(headers@), name)
                    } else {
                        None
                    })
            },
            Err(error) => !is_header_text("Bearer "@ + installation_token@) && error.message@
                == "failed to build proxied GitHub Authorization header"@,
        },
{
    let mut proxied: Vec<Header> = Vec::new();
    let ghost all = header_views(headers@);
    let mut i: usize = 0;
    while i < headers.len()
        invariant
            i <= headers@.len(),
            all == header_views(headers@),
            names_differ(header_views(proxied@)),
            forall|name: Seq<char>| #[trigger]
                last_value(header_views(proxied@), name) == (if is_forwarded(name) {
                    last_value(all.take(i as int), name)
                } else {
                    None
                }),
        decreases headers@.len() - i,
    {
        let header = &headers[i];
        proof {
            assert(all.take(i + 1).drop_last() =~= all.take(i as int));
            assert(all.take(i + 1).last() == header@);
        }
        if should_forward_header(header.name.as_str()) {
            proxied = set_header(proxied, header.clone());
        }
        i = i + 1;
    }
    assert(all.take(i as int) =~= all);
    let text = cat2("Bearer ", installation_token);
    proof {
        reveal_strlit("authorization");
        assert(lower("authorization"@) =~= "authorization"@);
    }
    match header_value(text.as_str()) {
        Some(value) => Ok(
            set_header(proxied, Header { name: "authorization".to_owned(), value }),
        ),
        None => Err(
            GithubError {
                message: "failed to build proxied GitHub Authorization header".to_owned(),
            },
        ),
    }
}

/// The headers of GitHub's response that are passed back, in their order.
pub fn returned_headers(headers: &Vec<Header>) -> (r: Vec<Header>)
    ensures
        header_views(r@) == header_views(headers@).filter(
            |header: HeaderView| !is_hop_by_hop(header.name),
        ),
{
    let mut returned: Vec<Header> = Vec::new();
    let ghost all = header_views(headers@);
    let ghost passes = |header: HeaderView| !is_hop_by_hop(header.name);
    let mut i: usize = 0;
    proof {
        reveal(Seq::filter);
    }
    while i < headers.len()
        invariant
            i <= headers@.len(),
            all == header_views(headers@),
            passes == (|header: HeaderView| !is_hop_by_hop(header.name)),
            header_views(returned@) == all.take(i as int).filter(passes),
        decreases headers@.len() - i,
    {
        let header = &headers[i];
        proof {
            reveal(Seq::filter);
            assert(all.take(i + 1).drop_last() =~= all.take(i as int));
            assert(all.take(i + 1).last() == header@);
        }
        let ghost before = header_views(returned@);
        if should_return_proxy_header(header.name.as_str()) {
            returned.push(header.clone());
            assert(header_views(returned@) =~= before.push(header@));
        }
        i = i + 1;
    }
    assert(all.take(i as int) =~= all);
    returned
}

/// The address of a proxied request.
pub open spec fn proxied_url(api_url: Seq<char>, path: Seq<char>, query: Option<Seq<char>>) -> Seq<
    char,
> {
    let base = api_url + "/"@ + without_leading(path, '/');
    match query {
        Some(query) => if query.len() > 0 {
            base + "?"@ + query
        } else {
            base
        },
        None => base,
    }
}

/// The address of a proxied request.
pub fn proxy_url(api_url: &str, github_path: &str, query: Option<&str>) -> (r: String)
    ensures
        r@ == proxied_url(
            api_url@,
            github_path@,
            match query {
                Some(query) => Some(query@),
                None => None,
            },
        ),
{
    let path = trim_start_char(github_path, '/');
    match query {
        Some(query) => if query.is_empty() {
            cat3(api_url, "/", path)
        } else {
            cat5(api_url, "/", path, "?", query)
        },
        None => cat3(api_url, "/", path),
    }
}

/// The path of a repository, or of something in it, in GitHub's API.
pub fn repository_path(repo: &str, repo_path: Option<&str>) -> (r: String)
    ensures
        r@ == match repo_path {
            Some(path) => "repos/"@ + repo@ + "/"@ + path@,
            None => "repos/"@ + repo@,
        },
{
    match repo_path {
        Some(path) => cat4("repos/", repo, "/", path),
        None => cat2("repos/", repo),
    }
}

} // verus!
