use vstd::prelude::*;

use crate::crypto::{all_token_chars, generate_api_key, has_prefix, hash_api_key, new_uuid, sha256_hex_of};
use crate::error::AuthError;
use crate::strutil::str_eq;

verus! {

/// Mathematical model of an API key row. Only the hash of the secret is
/// ever stored.
pub ghost struct ApiKeyView {
    pub id: u128,
    pub key_hash: Seq<char>,
    pub key_prefix: Seq<char>,
    pub name: Seq<char>,
    pub project_id: u128,
    pub created_at: i64,
    pub expires_at: Option<i64>,
    pub is_active: bool,
}

/// A tenant-scoped long-lived credential. The raw secret is returned to
/// the caller exactly once, at creation; lookups re-hash the presented
/// value and match on the stored hash.
#[derive(Debug)]
pub struct ApiKey {
    pub id: u128,
    pub key_hash: String,
    pub key_prefix: String,
    pub name: String,
    pub project_id: u128,
    pub created_at: i64,
    pub expires_at: Option<i64>,
    pub is_active: bool,
}

impl View for ApiKey {
    type V = ApiKeyView;

    open spec fn view(&self) -> ApiKeyView {
        ApiKeyView {
            id: self.id,
            key_hash: self.key_hash@,
            key_prefix: self.key_prefix@,
            name: self.name@,
            project_id: self.project_id,
            created_at: self.created_at,
            expires_at: self.expires_at,
            is_active: self.is_active,
        }
    }
}

impl Clone for ApiKey {
    /// A clone is the same value.
    fn clone(&self) -> (r: ApiKey)
        ensures
            r == *self,
    {
        ApiKey {
            id: self.id,
            key_hash: self.key_hash.clone(),
            key_prefix: self.key_prefix.clone(),
            name: self.name.clone(),
            project_id: self.project_id,
            created_at: self.created_at,
            expires_at: self.expires_at,
            is_active: self.is_active,
        }
    }
}

/// Row `k` is an active key matching this hash.
pub open spec fn active_match(k: ApiKeyView, hash: Seq<char>) -> bool {
    k.key_hash == hash && k.is_active
}

/// Index `i` holds the first active row matching this hash.
pub open spec fn first_active_match(s: Seq<ApiKey>, hash: Seq<char>, i: int) -> bool {
    &&& 0 <= i < s.len()
    &&& active_match(s[i]@, hash)
    &&& forall|j: int| 0 <= j < i ==> !active_match(#[trigger] s[j]@, hash)
}

/// The rows of one tenant, in store order.
pub open spec fn project_rows(s: Seq<ApiKey>, project_id: u128) -> Seq<ApiKey>
    decreases s.len(),
{
    if s.len() == 0 {
        s
    } else if s.last().project_id == project_id {
        project_rows(s.drop_last(), project_id).push(s.last())
    } else {
        project_rows(s.drop_last(), project_id)
    }
}

/// In-memory table of API keys.
pub struct ApiKeyStore {
    pub keys: Vec<ApiKey>,
}

impl ApiKeyStore {
    /// An empty table.
    pub fn new() -> (r: ApiKeyStore)
        ensures
            r.keys@ =~= Seq::<ApiKey>::empty(),
    {
        ApiKeyStore { keys: Vec::new() }
    }

    /// Mints and persists a new key for a tenant. The second component is
    /// the raw secret — `mk_` plus 32 alphanumeric characters — shown
    /// this once: the stored row holds its SHA-256 hash and, for
    /// display, the first twelve characters.
    pub fn create(&mut self, name: String, project_id: u128, now: i64) -> (r: (ApiKey, String))
        ensures
            final(self).keys@ == old(self).keys@.push(r.0),
            has_prefix(r.1@, "mk_"@),
            r.1@.len() == "mk_"@.len() + 32,
            all_token_chars(r.1@.skip("mk_"@.len() as int)),
            r.0@ == (ApiKeyView {
                id: r.0@.id,
                key_hash: sha256_hex_of(r.1@),
                key_prefix: r.1@.subrange(0, 12),
                name: name@,
                project_id,
                created_at: now,
                expires_at: None,
                is_active: true,
            }),
    {
        let raw = generate_api_key();
        let key_hash = hash_api_key(raw.as_str());
        proof {
            reveal_strlit("mk_");
        }
        let key_prefix = raw.as_str().substring_char(0, 12).to_owned();
        let row = ApiKey {
            id: new_uuid(),
            key_hash,
            key_prefix,
            name,
            project_id,
            created_at: now,
            expires_at: None,
            is_active: true,
        };
        let copy = row.clone();
        self.keys.push(row);
        (copy, raw)
    }

    /// Looks an active key up by its raw secret: hashes the presented
    /// value and matches the stored hash, earliest row first.
    pub fn find_by_key(&self, raw_key: &str) -> (r: Option<ApiKey>)
        ensures
            (r is Some) == exists|i: int| first_active_match(self.keys@, sha256_hex_of(raw_key@), i),
            r matches Some(k) ==> exists|i: int|
                first_active_match(self.keys@, sha256_hex_of(raw_key@), i) && k == self.keys@[i],
    {
        let hash = hash_api_key(raw_key);
        let ghost h = sha256_hex_of(raw_key@);
        let n = self.keys.len();
        let mut i: usize = 0;
        while i < n
            invariant
                n == self.keys@.len(),
                i <= n,
                hash@ == h,
                h == sha256_hex_of(raw_key@),
                forall|j: int| 0 <= j < i ==> !active_match((#[trigger] self.keys@[j])@, h),
            decreases n - i,
        {
            let hit = {
                let k = &self.keys[i];
                k.is_active && str_eq(k.key_hash.as_str(), hash.as_str())
            };
            if hit {
                proof {
                    assert(first_active_match(self.keys@, h, i as int));
                }
                return Some(self.keys[i].clone());
            }
            i = i + 1;
        }
        proof {
            if exists|j: int| first_active_match(self.keys@, h, j) {
                let j = choose|j: int| first_active_match(self.keys@, h, j);
                assert(!active_match(self.keys@[j]@, h));
            }
        }
        None
    }

    /// Validates a presented raw key at `now`: unknown or inactive keys
    /// are `InvalidApiKey`, a known key past its expiry is
    /// `ApiKeyExpired`, anything else is returned.
    pub fn verify_api_key(&self, raw_key: &str, now: i64) -> (r: Result<ApiKey, AuthError>)
        ensures
            ({
                let h = sha256_hex_of(raw_key@);
                if exists|i: int| first_active_match(self.keys@, h, i) {
                    let i = choose|i: int| first_active_match(self.keys@, h, i);
                    if self.keys@[i]@.expires_at matches Some(t) && t < now {
                        r == Err::<ApiKey, AuthError>(AuthError::ApiKeyExpired)
                    } else {
                        r matches Ok(k) && k == self.keys@[i]
                    }
                } else {
                    r == Err::<ApiKey, AuthError>(AuthError::InvalidApiKey)
                }
            }),
    {
        let ghost h = sha256_hex_of(raw_key@);
        proof {
            if exists|i: int| first_active_match(self.keys@, h, i) {
                let i = choose|i: int| first_active_match(self.keys@, h, i);
                let j = choose|j: int| first_active_match(self.keys@, h, j);
                if i != j {
                    if i < j {
                        assert(!active_match(self.keys@[i]@, h));
                    } else {
                        assert(!active_match(self.keys@[j]@, h));
                    }
                }
            }
        }
        match self.find_by_key(raw_key) {
            None => Err(AuthError::InvalidApiKey),
            Some(key) => {
                match key.expires_at {
                    Some(t) if t < now => Err(AuthError::ApiKeyExpired),
                    _ => Ok(key),
                }
            },
        }
    }

    /// Deactivates every row with this id (a soft delete).
    pub fn revoke(&mut self, id: u128)
        ensures
            final(self).keys@.len() == old(self).keys@.len(),
            forall|i: int| 0 <= i < old(self).keys@.len()
                ==> (#[trigger] final(self).keys@[i])@ == if old(self).keys@[i]@.id == id {
                    ApiKeyView { is_active: false, ..old(self).keys@[i]@ }
                } else {
                    old(self).keys@[i]@
                },
    {
        let n = self.keys.len();
        let mut i: usize = 0;
        while i < n
            invariant
                n == self.keys@.len(),
                i <= n,
                forall|j: int| i <= j < n ==> #[trigger] self.keys@[j] == old(self).keys@[j],
                forall|j: int| 0 <= j < i
                    ==> (#[trigger] self.keys@[j])@ == if old(self).keys@[j]@.id == id {
                        ApiKeyView { is_active: false, ..old(self).keys@[j]@ }
                    } else {
                        old(self).keys@[j]@
                    },
            decreases n - i,
        {
            if self.keys[i].id == id {
                self.keys[i].is_active = false;
            }
            i = i + 1;
        }
    }

    /// The rows of one tenant, without the raw secrets (never stored).
    pub fn list_by_project(&self, project_id: u128) -> (r: Vec<ApiKey>)
        ensures
            r@ == project_rows(self.keys@, project_id),
    {
        let n = self.keys.len();
        let mut out: Vec<ApiKey> = Vec::new();
        let mut i: usize = 0;
        while i < n
            invariant
                n == self.keys@.len(),
                i <= n,
                out@ == project_rows(self.keys@.subrange(0, i as int), project_id),
            decreases n - i,
        {
            proof {
                assert(self.keys@.subrange(0, i as int + 1).drop_last() =~= self.keys@.subrange(
                    0,
                    i as int,
                ));
                assert(self.keys@.subrange(0, i as int + 1).last() == self.keys@[i as int]);
            }
            if self.keys[i].project_id == project_id {
                let row = self.keys[i].clone();
                out.push(row);
            }
            i = i + 1;
        }
        proof {
            assert(self.keys@.subrange(0, n as int) =~= self.keys@);
        }
        out
    }
}

} // verus!
