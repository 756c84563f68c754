//! What is kept of GitHub's answers: installation ids, and installation tokens
//! for as long as they are handed out again.
use crate::github::{InstallationTarget, TargetView, INSTALLATION_TOKEN_CACHE_TTL};
use crate::service::{Requester, RequesterView, ScopeView, TokenScope};
use crate::string_map::{same_map, Duplicate, StringMap};
use crate::text::{cat3, copy_text, same, same_option, text_of};
use vstd::prelude::*;

verus! {

/// GitHub's answer to a request for an installation token.
#[derive(Debug, PartialEq, Eq)]
pub struct InstallationTokenResponse {
    pub token: String,
    pub expires_at: String,
    pub permissions: StringMap<String>,
    pub repository_selection: Option<String>,
}

/// The model of an `InstallationTokenResponse`.
pub struct TokenView {
    pub token: Seq<char>,
    pub expires_at: Seq<char>,
    pub permissions: Map<Seq<char>, Seq<char>>,
    pub repository_selection: Option<Seq<char>>,
}

impl View for InstallationTokenResponse {
    type V = TokenView;

    open spec fn view(&self) -> TokenView {
        TokenView {
            token: self.token@,
            expires_at: self.expires_at@,
            permissions: self.permissions@,
            repository_selection: text_of(self.repository_selection),
        }
    }
}

impl Clone for InstallationTokenResponse {
    fn clone(&self) -> (r: Self)
        ensures
            r@ == self@,
    {
        InstallationTokenResponse {
            token: self.token.clone(),
            expires_at: self.expires_at.clone(),
            permissions: self.permissions.duplicate(),
            repository_selection: copy_text(&self.repository_selection),
        }
    }
}

/// What a kept installation token is found by.
#[derive(Debug, Clone, PartialEq, Eq)]
pub struct InstallationTokenCacheKey {
    pub github_app: String,
    pub target: InstallationTarget,
    pub scope: TokenScope,
    pub requester: Requester,
}

/// The model of an `InstallationTokenCacheKey`.
pub struct TokenKeyView {
    pub github_app: Seq<char>,
    pub target: TargetView,
    pub scope: ScopeView,
    pub requester: RequesterView,
}

impl View for InstallationTokenCacheKey {
    type V = TokenKeyView;

    open spec fn view(&self) -> TokenKeyView {
        TokenKeyView {
            github_app: self.github_app@,
            target: self.target@,
            scope: self.scope@,
            requester: self.requester@,
        }
    }
}

fn same_requester(a: &Requester, b: &Requester) -> (r: bool)
    ensures
        r == (a@ == b@),
{
    match (a, b) {
        (Requester::Workload, Requester::Workload) => true,
        (
            Requester::Person { subject: s, request_id: x },
            Requester::Person { subject: t, request_id: y },
        ) => same(s.as_str(), t.as_str()) && same_option(x, y),
        _ => false,
    }
}

impl InstallationTokenCacheKey {
    fn is(&self, other: &InstallationTokenCacheKey) -> (r: bool)
        ensures
            r == (self@ == other@),
    {
        same(self.github_app.as_str(), other.github_app.as_str()) && self.target.is(&other.target)
            && self.scope.repositories == other.scope.repositories && same_map(
            &self.scope.permissions,
            &other.scope.permissions,
        ) && same_requester(&self.requester, &other.requester)
    }
}

/// A kept installation token, and until when it is handed out again.
#[derive(Debug)]
pub struct CachedInstallationToken {
    pub token: InstallationTokenResponse,
    pub refresh_after: u128,
}

/// The model of a `CachedInstallationToken`.
pub struct CachedTokenView {
    pub token: TokenView,
    pub refresh_after: int,
}

impl View for CachedInstallationToken {
    type V = CachedTokenView;

    open spec fn view(&self) -> CachedTokenView {
        CachedTokenView { token: self.token@, refresh_after: self.refresh_after as int }
    }
}

/// The first entry of a key.
pub open spec fn entry_of(
    entries: Seq<(InstallationTokenCacheKey, CachedInstallationToken)>,
    key: TokenKeyView,
) -> Option<CachedTokenView>
    decreases entries.len(),
{
    if entries.len() == 0 {
        None
    } else if entries[0].0@ == key {
        Some(entries[0].1@)
    } else {
        entry_of(entries.skip(1), key)
    }
}

/// What is kept of GitHub's answers. Times are in nanoseconds of a clock that
/// never goes back.
#[derive(Debug)]
pub struct GithubCache {
    installation_ids: StringMap<u64>,
    installation_tokens: Vec<(InstallationTokenCacheKey, CachedInstallationToken)>,
}

/// The key of a kept installation id.
pub open spec fn installation_key(app: Seq<char>, target: TargetView) -> Seq<char> {
    app + "/"@ + target.cache_key()
}

impl GithubCache {
    /// The kept installation ids by key.
    pub closed spec fn ids(self) -> Map<Seq<char>, u64> {
        self.installation_ids@
    }

    /// What is kept for a key, whether it is still handed out or not.
    pub closed spec fn kept(self, key: TokenKeyView) -> Option<CachedTokenView> {
        entry_of(self.installation_tokens@, key)
    }

    /// The token that a key gets at a time.
    pub open spec fn token_at(self, key: TokenKeyView, now: u64) -> Option<TokenView> {
        match self.kept(key) {
            Some(cached) => if cached.refresh_after > now {
                Some(cached.token)
            } else {
                None
            },
            None => None,
        }
    }

    /// Nothing is kept.
    pub fn new() -> (r: Self)
        ensures
            r.ids() == Map::<Seq<char>, u64>::empty(),
            forall|key: TokenKeyView| #[trigger] r.kept(key) is None,
    {
        GithubCache { installation_ids: StringMap::new(), installation_tokens: Vec::new() }
    }

    /// The kept id of the installation of a GitHub App at a target.
    pub fn cached_installation_id(&self, github_app: &str, target: &InstallationTarget) -> (r:
        Option<u64>)
        ensures
            r is Some <==> self.ids().contains_key(installation_key(github_app@, target@)),
            r matches Some(id) ==> id == self.ids()[installation_key(github_app@, target@)],
    {
        let key = target.cache_key();
        let key = cat3(github_app, "/", key.as_str());
        match self.installation_ids.get(key.as_str()) {
            Some(id) => Some(*id),
            None => None,
        }
    }

    /// Keeps the id of the installation of a GitHub App at a target.
    pub fn cache_installation_id(
        &mut self,
        github_app: &str,
        target: &InstallationTarget,
        installation_id: u64,
    )
        ensures
            final(self).ids() == old(self).ids().insert(
                installation_key(github_app@, target@),
                installation_id,
            ),
            forall|key: TokenKeyView| #[trigger] final(self).kept(key) == old(self).kept(key),
    {
        let key = target.cache_key();
        let key = cat3(github_app, "/", key.as_str());
        let mut ids: StringMap<u64> = StringMap::new();
        core::mem::swap(&mut ids, &mut self.installation_ids);
        self.installation_ids = ids.with(key, installation_id);
    }

    fn position(&self, key: &InstallationTokenCacheKey) -> (r: Option<usize>)
        ensures
            match r {
                Some(i) => {
                    &&& i < self.installation_tokens@.len()
                    &&& self.installation_tokens@[i as int].0@ == key@
                    &&& self.kept(key@) == Some(self.installation_tokens@[i as int].1@)
                    &&& forall|j: int|
                        0 <= j < i ==> (#[trigger] self.installation_tokens@[j]).0@ != key@
                },
                None => self.kept(key@) is None,
            },
    {
        let mut i: usize = 0;
        assert(self.installation_tokens@.skip(0) =~= self.installation_tokens@);
        while i < self.installation_tokens.len()
            invariant
                i <= self.installation_tokens@.len(),
                self.kept(key@) == entry_of(self.installation_tokens@.skip(i as int), key@),
                forall|j: int| 0 <= j < i ==> (#[trigger] self.installation_tokens@[j]).0@ != key@,
            decreases self.installation_tokens@.len() - i,
        {
            proof {
                let rest = self.installation_tokens@.skip(i as int);
                assert(rest[0] == self.installation_tokens@[i as int]);
                assert(rest.skip(1) =~= self.installation_tokens@.skip(i + 1));
            }
            if self.installation_tokens[i].0.is(key) {
                return Some(i);
            }
            i = i + 1;
        }
        None
    }

    /// The token that a key gets at a time.
    pub fn cached_installation_token(&self, key: &InstallationTokenCacheKey, now: u64) -> (r:
        Option<InstallationTokenResponse>)
        ensures
            (match r {
                Some(token) => Some(token@),
                None => None,
            }) == self.token_at(key@, now),
    {
        match self.position(key) {
            Some(i) => {
                let cached = &self.installation_tokens[i].1;
                if cached.refresh_after > now as u128 {
                    Some(cached.token.clone())
                } else {
                    None
                }
            },
            None => None,
        }
    }

    /// Whether a cache is another one in which a token has been kept for a key
    /// at a time.
    pub open spec fn keeps(
        self,
        before: GithubCache,
        key: TokenKeyView,
        token: TokenView,
        now: u64,
    ) -> bool {
        &&& self.ids() == before.ids()
        &&& self.kept(key) == Some(
            CachedTokenView { token, refresh_after: now + INSTALLATION_TOKEN_CACHE_TTL },
        )
        &&& forall|other: TokenKeyView|
            other != key ==> #[trigger] self.kept(other) == before.kept(other)
    }

    /// Keeps a token for a key.
    pub fn cache_installation_token(
        &mut self,
        key: InstallationTokenCacheKey,
        token: InstallationTokenResponse,
        now: u64,
    )
        ensures
            final(self).keeps(*old(self), key@, token@, now),
    {
        let refresh_after: u128 = now as u128 + INSTALLATION_TOKEN_CACHE_TTL as u128;
        let cached = CachedInstallationToken { token, refresh_after };
        let ghost before = self.installation_tokens@;
        let ghost entry = (key, cached);
        match self.position(&key) {
            Some(i) => {
                let _old = self.installation_tokens.remove(i);
                self.installation_tokens.insert(i, (key, cached));
                proof {
                    assert(self.installation_tokens@ =~= before.update(i as int, entry));
                    entry_replaced(before, i as int, entry);
                }
            },
            None => {
                self.installation_tokens.push((key, cached));
                proof {
                    assert(self.installation_tokens@ =~= before.push(entry));
                    entry_added(before, entry);
                }
            },
        }
    }
}

proof fn entry_replaced(
    entries: Seq<(InstallationTokenCacheKey, CachedInstallationToken)>,
    i: int,
    entry: (InstallationTokenCacheKey, CachedInstallationToken),
)
    requires
        0 <= i < entries.len(),
        entries[i].0@ == entry.0@,
        forall|j: int| 0 <= j < i ==> (#[trigger] entries[j]).0@ != entry.0@,
    ensures
        forall|key: TokenKeyView| #[trigger]
            entry_of(entries.update(i, entry), key) == (if key == entry.0@ {
                Some(entry.1@)
            } else {
                entry_of(entries, key)
            }),
    decreases entries.len(),
{
    let after = entries.update(i, entry);
    if i == 0 {
        assert(after.skip(1) =~= entries.skip(1));
    } else {
        assert(entries[0].0@ != entry.0@);
        assert(after.skip(1) =~= entries.skip(1).update(i - 1, entry));
        assert forall|j: int| 0 <= j < i - 1 implies (#[trigger] entries.skip(1)[j]).0@
            != entry.0@ by {
            assert(entries[j + 1].0@ != entry.0@);
        }
        entry_replaced(entries.skip(1), i - 1, entry);
        assert forall|key: TokenKeyView| #[trigger] entry_of(after, key) == (if key == entry.0@ {
            Some(entry.1@)
        } else {
            entry_of(entries, key)
        }) by {
            assert(entry_of(after.skip(1), key) == entry_of(
                entries.skip(1).update(i - 1, entry),
                key,
            ));
        }
    }
}

proof fn entry_added(
    entries: Seq<(InstallationTokenCacheKey, CachedInstallationToken)>,
    entry: (InstallationTokenCacheKey, CachedInstallationToken),
)
    requires
        entry_of(entries, entry.0@) is None,
    ensures
        forall|key: TokenKeyView| #[trigger]
            entry_of(entries.push(entry), key) == (if key == entry.0@ {
                Some(entry.1@)
            } else {
                entry_of(entries, key)
            }),
    decreases entries.len(),
{
    let after = entries.push(entry);
    if entries.len() == 0 {
        assert(after.skip(1) =~= entries);
        assert forall|key: TokenKeyView| #[trigger] entry_of(after, key) == (if key == entry.0@ {
            Some(entry.1@)
        } else {
            entry_of(entries, key)
        }) by {
            assert(entry_of(after.skip(1), key) is None);
        }
    } else {
        assert(after.skip(1) =~= entries.skip(1).push(entry));
        entry_added(entries.skip(1), entry);
        assert forall|key: TokenKeyView| #[trigger] entry_of(after, key) == (if key == entry.0@ {
            Some(entry.1@)
        } else {
            entry_of(entries, key)
        }) by {
            assert(entry_of(after.skip(1), key) == entry_of(entries.skip(1).push(entry), key));
        }
    }
}

/// What is kept for a key is what the key gets, for fifty minutes and no
/// longer; every other key gets what it got before.
pub proof fn kept_token_is_handed_out(
    before: GithubCache,
    after: GithubCache,
    key: TokenKeyView,
    token: TokenView,
    now: u64,
)
    requires
        after.keeps(before, key, token, now),
    ensures
        forall|later: u64| #[trigger]
            after.token_at(key, later) == (if later < now + INSTALLATION_TOKEN_CACHE_TTL {
                Some(token)
            } else {
                None
            }),
        forall|other: TokenKeyView, later: u64|
            other != key ==> #[trigger] after.token_at(other, later) == before.token_at(
                other,
                later,
            ),
{
}

/// A token that is kept for one requester is not handed to another: not to a
/// second person, not to the same person under another access request, and not
/// across the line between people and workloads. The same holds for another
/// GitHub App, another target and another scope.
pub proof fn kept_token_stays_with_its_key(
    before: GithubCache,
    after: GithubCache,
    key: TokenKeyView,
    token: TokenView,
    now: u64,
    other: TokenKeyView,
    later: u64,
)
    requires
        after.keeps(before, key, token, now),
        other.requester != key.requester || other.github_app != key.github_app || other.target
            != key.target || other.scope != key.scope,
    ensures
        after.token_at(other, later) == before.token_at(other, later),
{
}

/// Two kept installation ids share a key only where they are of one GitHub App
/// and one target, since the name of a GitHub App holds no `/`.
pub proof fn installation_keys_differ(
    app: Seq<char>,
    target: TargetView,
    other_app: Seq<char>,
    other_target: TargetView,
)
    requires
        !app.contains('/'),
        !other_app.contains('/'),
        installation_key(app, target) == installation_key(other_app, other_target),
    ensures
        app == other_app,
        target == other_target,
{
    reveal_strlit("/");
    let x = installation_key(app, target);
    let y = installation_key(other_app, other_target);
    let m = app.len() as int;
    let n = other_app.len() as int;
    assert(x[m] == '/');
    assert(y[n] == '/');
    if m < n {
        assert(other_app[m] == y[m]);
        assert(other_app.contains('/'));
    }
    if n < m {
        assert(app[n] == x[n]);
        assert(app.contains('/'));
    }
    assert(app =~= x.take(m));
    assert(other_app =~= y.take(n));
    assert(target.cache_key() =~= x.skip(m + 1));
    assert(other_target.cache_key() =~= y.skip(n + 1));
    crate::github::target_keys_differ(target, other_target);
}

} // verus!
