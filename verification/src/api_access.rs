//! Access policy: maps an optional API key to the capabilities granted to a
//! connection.
//!
//! The policy sets a baseline (`connect` unless `restrict_connect`, `host`
//! unless `restrict_host`); a configured key can only add capabilities on
//! top of that baseline, never remove them, and an unknown key falls back
//! to the baseline.

use vstd::prelude::*;

verus! {

/// The two capabilities a connection can hold: opening a session at all,
/// and hosting rooms or playbacks.
#[derive(Debug, Clone, Copy, PartialEq, Eq, Structural)]
pub struct ApiPermissions {
    pub connect: bool,
    pub host: bool,
}

impl ApiPermissions {
    pub fn none() -> (p: Self)
        ensures
            p == (ApiPermissions { connect: false, host: false }),
    {
        ApiPermissions { connect: false, host: false }
    }

    pub fn connect() -> (p: Self)
        ensures
            p == (ApiPermissions { connect: true, host: false }),
    {
        ApiPermissions { connect: true, host: false }
    }

    pub fn host() -> (p: Self)
        ensures
            p == (ApiPermissions { connect: false, host: true }),
    {
        ApiPermissions { connect: false, host: true }
    }

    pub fn all() -> (p: Self)
        ensures
            p == (ApiPermissions { connect: true, host: true }),
    {
        ApiPermissions { connect: true, host: true }
    }
}

impl Default for ApiPermissions {
    fn default() -> (p: Self)
        ensures
            p == (ApiPermissions { connect: false, host: false }),
    {
        ApiPermissions::none()
    }
}

/// One configured API key and the capabilities it grants.
#[derive(Debug, Clone, PartialEq, Eq)]
pub struct ApiKey {
    pub key: String,
    pub permissions: ApiPermissions,
}

/// Process-wide restriction switches. A capability that is not restricted
/// is granted to every connection, keyed or not.
#[derive(Debug, Clone, Copy, PartialEq, Eq, Structural)]
pub struct ApiAccessPolicy {
    pub restrict_connect: bool,
    pub restrict_host: bool,
}

impl Default for ApiAccessPolicy {
    /// The safe production default: both capabilities restricted.
    fn default() -> (p: Self)
        ensures
            p == (ApiAccessPolicy { restrict_connect: true, restrict_host: true }),
    {
        ApiAccessPolicy { restrict_connect: true, restrict_host: true }
    }
}

/// The policy together with the configured key list.
#[derive(Debug, Clone, PartialEq, Eq)]
pub struct ApiAccessConfig {
    pub api_policy: ApiAccessPolicy,
    pub api_keys: Vec<ApiKey>,
}

impl Default for ApiAccessConfig {
    fn default() -> (c: Self)
        ensures
            c.api_policy == (ApiAccessPolicy { restrict_connect: true, restrict_host: true }),
            c.api_keys@ == Seq::<ApiKey>::empty(),
    {
        ApiAccessConfig { api_policy: ApiAccessPolicy::default(), api_keys: Vec::new() }
    }
}

/// The capabilities every connection gets before any key is considered.
pub open spec fn baseline(policy: ApiAccessPolicy) -> ApiPermissions {
    ApiPermissions { connect: !policy.restrict_connect, host: !policy.restrict_host }
}

/// The permissions of the first configured key whose text equals `key`,
/// if any.
pub open spec fn find_key(keys: Seq<ApiKey>, key: Seq<char>) -> Option<ApiPermissions>
    decreases keys.len(),
{
    if keys.len() == 0 {
        None
    } else if keys[0].key@ == key {
        Some(keys[0].permissions)
    } else {
        find_key(keys.drop_first(), key)
    }
}

/// What `ApiAccessManager::get_permissions` grants: the baseline for a
/// missing or unknown key, the baseline widened by the key's grants for a
/// configured key.
pub open spec fn granted_permissions(config: ApiAccessConfig, key: Option<Seq<char>>) -> ApiPermissions {
    let base = baseline(config.api_policy);
    match key {
        None => base,
        Some(k) => match find_key(config.api_keys@, k) {
            None => base,
            Some(kp) => ApiPermissions {
                connect: base.connect || kp.connect,
                host: base.host || kp.host,
            },
        },
    }
}

/// The view of an optional key argument.
pub open spec fn key_view(key: Option<&str>) -> Option<Seq<char>> {
    match key {
        None => None,
        Some(s) => Some(s@),
    }
}

/// Answers permission queries against one immutable configuration.
pub struct ApiAccessManager {
    config: ApiAccessConfig,
}

impl ApiAccessManager {
    pub closed spec fn view(&self) -> ApiAccessConfig {
        self.config
    }

    pub fn new(config: ApiAccessConfig) -> (m: Self)
        ensures
            m@ == config,
    {
        ApiAccessManager { config }
    }

    /// Resolves an optional API key to the capabilities of this connection.
    pub fn get_permissions(&self, key: Option<&str>) -> (p: ApiPermissions)
        ensures
            p == granted_permissions(self@, key_view(key)),
    {
        let default_perms = ApiPermissions {
            connect: !self.config.api_policy.restrict_connect,
            host: !self.config.api_policy.restrict_host,
        };

        let key_text: String = match key {
            None => {
                return default_perms;
            },
            Some(k) => k.to_owned(),
        };

        let n = self.config.api_keys.len();
        let mut i: usize = 0;
        assert(self.config.api_keys@.skip(0) =~= self.config.api_keys@);
        while i < n
            invariant
                n == self.config.api_keys@.len(),
                i <= n,
                key_view(key) == Some(key_text@),
                find_key(self.config.api_keys@, key_text@)
                    == find_key(self.config.api_keys@.skip(i as int), key_text@),
            decreases n - i,
        {
            let entry = &self.config.api_keys[i];
            assert(self.config.api_keys@.skip(i as int)[0] == self.config.api_keys@[i as int]);
            if entry.key == key_text {
                return ApiPermissions {
                    connect: !self.config.api_policy.restrict_connect || entry.permissions.connect,
                    host: !self.config.api_policy.restrict_host || entry.permissions.host,
                };
            }
            assert(self.config.api_keys@.skip(i as int).drop_first()
                =~= self.config.api_keys@.skip(i + 1));
            i = i + 1;
        }
        assert(self.config.api_keys@.skip(n as int).len() == 0);
        default_perms
    }
}

} // verus!
