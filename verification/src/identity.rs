use vstd::prelude::*;
use vstd::string::*;

use crate::errors::ServiceError;

verus! {

/// One configured tenant, as the configuration file states it: display name,
/// numeric id, secret bearer token, and the pool of public base URLs image
/// responses draw from.
pub struct UserConfig {
    pub name: String,
    pub id: i16,
    pub token: String,
    pub response_urls: Vec<String>,
}

/// The process-wide user table, loaded once at startup and read-only
/// afterwards.
pub struct Config {
    pub users: Vec<UserConfig>,
}

/// A resolved identity: the configured fields plus the storage root every
/// path for this tenant is derived from.
pub struct User {
    pub name: String,
    pub id: i16,
    pub token: String,
    pub response_urls: Vec<String>,
    pub save_base_path: String,
}

/// The directory all tenant storage roots live under.
pub open spec fn storage_base() -> Seq<char> {
    "/etc/uploaded/"@
}

impl Config {
    /// A usable configuration: numeric ids are unique, bearer tokens are
    /// unambiguous, and every response URL pool is non-empty.
    pub open spec fn wf(self) -> bool {
        &&& forall|i: int, j: int|
            0 <= i < j < self.users@.len() ==> (#[trigger] self.users@[i]).id != (
            #[trigger] self.users@[j]).id
        &&& forall|i: int, j: int|
            0 <= i < j < self.users@.len() ==> (#[trigger] self.users@[i]).token@ != (
            #[trigger] self.users@[j]).token@
        &&& forall|i: int|
            0 <= i < self.users@.len() ==> (#[trigger] self.users@[i]).response_urls@.len() > 0
    }

    /// Checks that a freshly loaded configuration is usable; a `false` answer
    /// is fatal at startup, never at request time.
    pub fn validate(&self) -> (r: bool)
        ensures
            r == self.wf(),
    {
        let n = self.users.len();
        let mut i: usize = 0;
        while i < n
            invariant
                n == self.users@.len(),
                0 <= i <= n,
                forall|p: int, q: int|
                    0 <= p < q < self.users@.len() && p < i ==> (#[trigger] self.users@[p]).id != (
                    #[trigger] self.users@[q]).id,
                forall|p: int, q: int|
                    0 <= p < q < self.users@.len() && p < i ==> (#[trigger] self.users@[p]).token@
                        != (#[trigger] self.users@[q]).token@,
                forall|p: int|
                    0 <= p < i ==> (#[trigger] self.users@[p]).response_urls@.len() > 0,
            decreases n - i,
        {
            if self.users[i].response_urls.len() == 0 {
                return false;
            }
            let mut j: usize = i + 1;
            while j < n
                invariant
                    n == self.users@.len(),
                    0 <= i < j <= n,
                    forall|q: int|
                        i < q < j ==> (#[trigger] self.users@[q]).id != self.users@[i as int].id,
                    forall|q: int|
                        i < q < j ==> (#[trigger] self.users@[q]).token@ != self.users@[
                            i as int
                        ].token@,
                decreases n - j,
            {
                if self.users[j].id == self.users[i].id {
                    return false;
                }
                if self.users[j].token == self.users[i].token {
                    return false;
                }
                j += 1;
            }
            i += 1;
        }
        true
    }
}

/// How a resolved `User` relates to the configuration entry it came from:
/// the configured fields carried over unchanged, and the storage root
/// derived from the name.
pub open spec fn user_of_config(u: User, c: UserConfig) -> bool {
    &&& u.name@ == c.name@
    &&& u.id == c.id
    &&& u.token@ == c.token@
    &&& u.response_urls.deep_view() == c.response_urls.deep_view()
    &&& u.save_base_path@ == storage_base() + c.name@
}

/// Builds the resolved identity for a configuration entry; its storage root
/// is the shared base directory followed by the tenant's name.
pub fn user_from_config(c: &UserConfig) -> (u: User)
    ensures
        user_of_config(u, *c),
{
    let mut path = String::from_str("/etc/uploaded/");
    path.append(c.name.as_str());
    User {
        name: c.name.clone(),
        id: c.id,
        token: c.token.clone(),
        response_urls: c.response_urls.clone(),
        save_base_path: path,
    }
}

/// The token a raw `Authorization` header value carries: the value with one
/// leading literal `Bearer ` removed when present, the value itself
/// otherwise.
pub open spec fn spec_strip_bearer(h: Seq<char>) -> Seq<char> {
    if h.len() >= 7 && h.subrange(0, 7) == "Bearer "@ {
        h.subrange(7, h.len() as int)
    } else {
        h
    }
}

/// Strips a leading `Bearer ` prefix from a raw header value.
pub fn strip_bearer(h: &str) -> (r: String)
    ensures
        r@ == spec_strip_bearer(h@),
{
    let n = h.unicode_len();
    proof {
        reveal_strlit("Bearer ");
    }
    if n >= 7 {
        let prefix = h.substring_char(0, 7);
        if String::from_str(prefix) == String::from_str("Bearer ") {
            return String::from_str(h.substring_char(7, n));
        }
    }
    String::from_str(h)
}

/// Maps an inbound `Authorization` header to the configured identity whose
/// token it carries. A missing header or an unknown token is rejected as
/// `Unauthenticated`; with a well-formed configuration a valid token matches
/// exactly one identity. Pure lookup: no side effects.
pub fn resolve_identity(config: &Config, header: Option<&String>) -> (r: Result<
    User,
    ServiceError,
>)
    requires
        config.wf(),
    ensures
        match header {
            None => r == Err::<User, ServiceError>(ServiceError::Unauthenticated),
            Some(h) => {
                let t = spec_strip_bearer(h@);
                match r {
                    Ok(u) => exists|i: int|
                        0 <= i < config.users@.len() && (#[trigger] config.users@[i]).token@ == t
                            && user_of_config(u, config.users@[i]),
                    Err(e) => e == ServiceError::Unauthenticated && (forall|i: int|
                        0 <= i < config.users@.len() ==> (#[trigger] config.users@[i]).token@ != t),
                }
            },
        },
{
    let h = match header {
        None => {
            return Err(ServiceError::Unauthenticated);
        },
        Some(h) => h,
    };
    assert(header == Some(h));
    let token = strip_bearer(h.as_str());
    let n = config.users.len();
    let mut i: usize = 0;
    while i < n
        invariant
            n == config.users@.len(),
            0 <= i <= n,
            header == Some(h),
            config.wf(),
            token@ == spec_strip_bearer(h@),
            forall|j: int| 0 <= j < i ==> (#[trigger] config.users@[j]).token@ != token@,
        decreases n - i,
    {
        if config.users[i].token == token {
            let u = user_from_config(&config.users[i]);
            assert(config.users@[i as int].token@ == spec_strip_bearer(h@));
            return Ok(u);
        }
        i += 1;
    }
    Err(ServiceError::Unauthenticated)
}

/// With a well-formed configuration a bearer token is unambiguous: two
/// entries that carry the same token are the same entry. Together with the
/// resolver's contract this makes the identity returned for a valid token
/// the only one that matches.
pub proof fn lemma_token_unambiguous(config: Config, i: int, j: int)
    requires
        config.wf(),
        0 <= i < config.users@.len(),
        0 <= j < config.users@.len(),
        config.users@[i].token@ == config.users@[j].token@,
    ensures
        i == j,
{
}

} // verus!
