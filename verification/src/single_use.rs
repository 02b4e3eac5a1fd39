use vstd::prelude::*;

use crate::config::valid_time;
use crate::crypto;
use crate::error::AuthError;
use crate::session::view_opt_string;

verus! {

/// Mathematical model of a one-time-code row.
pub ghost struct OtpCodeView {
    pub id: u128,
    pub project_id: u128,
    pub identifier: Seq<char>,
    pub code: Seq<char>,
    pub channel: Seq<char>,
    pub expires_at: i64,
    pub used: bool,
    pub created_at: i64,
}

/// A single-use verification code bound to an email or phone within one
/// tenant. Consumable at most once, and only before expiry.
#[derive(Debug)]
pub struct OtpCode {
    pub id: u128,
    pub project_id: u128,
    pub identifier: String,
    pub code: String,
    pub channel: String,
    pub expires_at: i64,
    pub used: bool,
    pub created_at: i64,
}

impl View for OtpCode {
    type V = OtpCodeView;

    open spec fn view(&self) -> OtpCodeView {
        OtpCodeView {
            id: self.id,
            project_id: self.project_id,
            identifier: self.identifier@,
            code: self.code@,
            channel: self.channel@,
            expires_at: self.expires_at,
            used: self.used,
            created_at: self.created_at,
        }
    }
}

impl Clone for OtpCode {
    /// A clone is the same value.
    fn clone(&self) -> (r: OtpCode)
        ensures
            r == *self,
    {
        OtpCode {
            id: self.id,
            project_id: self.project_id,
            identifier: self.identifier.clone(),
            code: self.code.clone(),
            channel: self.channel.clone(),
            expires_at: self.expires_at,
            used: self.used,
            created_at: self.created_at,
        }
    }
}

impl OtpCode {
    /// A fresh unused code created at `now`.
    pub fn new(
        project_id: u128,
        identifier: String,
        code: String,
        channel: String,
        expires_at: i64,
        now: i64,
    ) -> (r: OtpCode)
        ensures
            r@ == (OtpCodeView {
                id: r@.id,
                project_id,
                identifier: identifier@,
                code: code@,
                channel: channel@,
                expires_at,
                used: false,
                created_at: now,
            }),
    {
        OtpCode {
            id: crypto::new_uuid(),
            project_id,
            identifier,
            code,
            channel,
            expires_at,
            used: false,
            created_at: now,
        }
    }
}

/// The row matches the presented triple and is still consumable: never
/// used, and strictly before expiry.
pub open spec fn consumable(
    c: OtpCodeView,
    project_id: u128,
    identifier: Seq<char>,
    code: Seq<char>,
    now: i64,
) -> bool {
    &&& c.project_id == project_id
    &&& c.identifier == identifier
    &&& c.code == code
    &&& !c.used
    &&& c.expires_at > now
}

/// Index `i` holds the row a consume of this triple takes: a consumable
/// row whose creation time no other consumable row exceeds, and the
/// latest such row in store order — the newest matching code wins.
pub open spec fn otp_choice(
    s: Seq<OtpCode>,
    project_id: u128,
    identifier: Seq<char>,
    code: Seq<char>,
    now: i64,
    i: int,
) -> bool {
    &&& 0 <= i < s.len()
    &&& consumable(s[i]@, project_id, identifier, code, now)
    &&& forall|j: int| 0 <= j < s.len() && consumable(
        #[trigger] s[j]@,
        project_id,
        identifier,
        code,
        now,
    ) ==> (s[j]@).created_at <= (s[i]@).created_at
    &&& forall|j: int| i < j < s.len() && consumable(
        #[trigger] s[j]@,
        project_id,
        identifier,
        code,
        now,
    ) ==> (s[j]@).created_at < (s[i]@).created_at
}

/// The rows left by an expiry sweep at `now`: exactly those not yet past
/// expiry, in their original order.
pub open spec fn unexpired_codes(s: Seq<OtpCode>, now: i64) -> Seq<OtpCode>
    decreases s.len(),
{
    if s.len() == 0 {
        s
    } else if s.last().expires_at >= now {
        unexpired_codes(s.drop_last(), now).push(s.last())
    } else {
        unexpired_codes(s.drop_last(), now)
    }
}

/// In-memory table of single-use codes. Lookup-and-mark-used is a single
/// atomic step, so one code can never be consumed twice.
pub struct OtpStore {
    pub codes: Vec<OtpCode>,
}

impl OtpStore {
    /// An empty table.
    pub fn new() -> (r: OtpStore)
        ensures
            r.codes@ =~= Seq::<OtpCode>::empty(),
    {
        OtpStore { codes: Vec::new() }
    }

    /// Persists a freshly generated code.
    pub fn create(&mut self, otp: OtpCode) -> (r: OtpCode)
        ensures
            final(self).codes@ == old(self).codes@.push(otp),
            r@ == otp@,
    {
        let copy = otp.clone();
        self.codes.push(otp);
        copy
    }

    /// Atomically looks up a consumable row for the presented triple and
    /// marks it used; among several matching rows the newest wins, per
    /// `otp_choice`. Wrong value, expiry and prior use are
    /// indistinguishable: each yields exactly `OtpInvalid`, and the store
    /// is unchanged.
    pub fn consume(
        &mut self,
        project_id: u128,
        identifier: &str,
        code: &str,
        now: i64,
    ) -> (r: Result<OtpCode, AuthError>)
        ensures
            r matches Err(e) ==> {
                &&& e == AuthError::OtpInvalid
                &&& final(self).codes@ == old(self).codes@
                &&& forall|i: int| 0 <= i < old(self).codes@.len()
                    ==> !consumable(#[trigger] old(self).codes@[i]@, project_id, identifier@, code@, now)
            },
            r matches Ok(c) ==> exists|i: int| {
                &&& otp_choice(old(self).codes@, project_id, identifier@, code@, now, i)
                &&& c@ == old(self).codes@[i]@
                &&& final(self).codes@.len() == old(self).codes@.len()
                &&& final(self).codes@[i]@ == (OtpCodeView { used: true, ..old(self).codes@[i]@ })
                &&& forall|j: int| 0 <= j < old(self).codes@.len() && j != i
                    ==> final(self).codes@[j] == old(self).codes@[j]
            },
            (r is Ok) == exists|i: int| 0 <= i < old(self).codes@.len()
                && consumable(#[trigger] old(self).codes@[i]@, project_id, identifier@, code@, now),
    {
        let n = self.codes.len();
        let mut best: usize = n;
        let mut i: usize = 0;
        while i < n
            invariant
                n == self.codes@.len(),
                i <= n,
                best <= n,
                self.codes@ == old(self).codes@,
                best == n ==> forall|j: int| 0 <= j < i
                    ==> !consumable(#[trigger] self.codes@[j]@, project_id, identifier@, code@, now),
                best < n ==> {
                    &&& best < i
                    &&& consumable(self.codes@[best as int]@, project_id, identifier@, code@, now)
                    &&& forall|j: int| 0 <= j < i && consumable(
                        #[trigger] self.codes@[j]@,
                        project_id,
                        identifier@,
                        code@,
                        now,
                    ) ==> (self.codes@[j]@).created_at <= (self.codes@[best as int]@).created_at
                    &&& forall|j: int| best < j < i && consumable(
                        #[trigger] self.codes@[j]@,
                        project_id,
                        identifier@,
                        code@,
                        now,
                    ) ==> (self.codes@[j]@).created_at < (self.codes@[best as int]@).created_at
                },
            decreases n - i,
        {
            let hit = {
                let c = &self.codes[i];
                c.project_id == project_id
                    && crate::strutil::str_eq(c.identifier.as_str(), identifier)
                    && crate::strutil::str_eq(c.code.as_str(), code)
                    && !c.used
                    && c.expires_at > now
            };
            proof {
                assert(hit == consumable(self.codes@[i as int]@, project_id, identifier@, code@, now));
            }
            if hit && (best == n || self.codes[i].created_at >= self.codes[best].created_at) {
                best = i;
            }
            i = i + 1;
        }
        if best < n {
            proof {
                assert(otp_choice(self.codes@, project_id, identifier@, code@, now, best as int));
                assert(consumable(self.codes@[best as int]@, project_id, identifier@, code@, now));
            }
            let row = self.codes[best].clone();
            self.codes[best].used = true;
            proof {
                assert(final(self).codes@[best as int]@ == (OtpCodeView {
                    used: true,
                    ..old(self).codes@[best as int]@
                }));
            }
            Ok(row)
        } else {
            proof {
                if exists|j: int| 0 <= j < self.codes@.len() && consumable(
                    #[trigger] self.codes@[j]@,
                    project_id,
                    identifier@,
                    code@,
                    now,
                ) {
                    let j = choose|j: int| 0 <= j < self.codes@.len() && consumable(
                        #[trigger] self.codes@[j]@,
                        project_id,
                        identifier@,
                        code@,
                        now,
                    );
                    assert(!consumable(self.codes@[j]@, project_id, identifier@, code@, now));
                }
            }
            Err(AuthError::OtpInvalid)
        }
    }

    /// Marks the row with this id used; reports whether one was found.
    pub fn mark_as_used(&mut self, id: u128) -> (r: bool)
        ensures
            !r ==> final(self).codes@ == old(self).codes@
                && forall|i: int| 0 <= i < old(self).codes@.len()
                    ==> (#[trigger] old(self).codes@[i]@).id != id,
            r ==> exists|i: int| {
                &&& 0 <= i < old(self).codes@.len()
                &&& (#[trigger] old(self).codes@[i]@).id == id
                &&& final(self).codes@.len() == old(self).codes@.len()
                &&& final(self).codes@[i]@ == (OtpCodeView { used: true, ..old(self).codes@[i]@ })
                &&& forall|j: int| 0 <= j < old(self).codes@.len() && j != i
                    ==> final(self).codes@[j] == old(self).codes@[j]
            },
    {
        let n = self.codes.len();
        let mut i: usize = 0;
        while i < n
            invariant
                n == self.codes@.len(),
                i <= n,
                self.codes@ == old(self).codes@,
                forall|j: int| 0 <= j < i ==> (#[trigger] self.codes@[j]@).id != id,
            decreases n - i,
        {
            if self.codes[i].id == id {
                self.codes[i].used = true;
                proof {
                    assert(final(self).codes@[i as int]@ == (OtpCodeView {
                        used: true,
                        ..old(self).codes@[i as int]@
                    }));
                }
                return true;
            }
            i = i + 1;
        }
        false
    }

    /// Sweeps rows past their expiry; returns how many were removed.
    /// Idempotent for a fixed `now`, and meant for a periodic schedule,
    /// not the request path.
    pub fn cleanup_expired(&mut self, now: i64) -> (r: u64)
        ensures
            final(self).codes@ == unexpired_codes(old(self).codes@, now),
            r == old(self).codes@.len() - final(self).codes@.len(),
    {
        let n = self.codes.len();
        let mut kept: Vec<OtpCode> = Vec::new();
        let mut i: usize = 0;
        while i < n
            invariant
                n == self.codes@.len(),
                i <= n,
                self.codes@ == old(self).codes@,
                kept@.len() <= i,
                kept@ == unexpired_codes(self.codes@.subrange(0, i as int), now),
            decreases n - i,
        {
            proof {
                assert(self.codes@.subrange(0, i as int + 1).drop_last() =~= self.codes@.subrange(
                    0,
                    i as int,
                ));
                assert(self.codes@.subrange(0, i as int + 1).last() == self.codes@[i as int]);
            }
            if self.codes[i].expires_at >= now {
                let row = self.codes[i].clone();
                kept.push(row);
            }
            i = i + 1;
        }
        proof {
            assert(self.codes@.subrange(0, n as int) =~= self.codes@);
        }
        let removed = (n - kept.len()) as u64;
        self.codes = kept;
        removed
    }
}

/// Single-use tokens are consumed atomically: once one row has been
/// consumed, no row of the store remains consumable for that triple,
/// provided it was the only matching row. A second presentation of the
/// same code therefore fails with the indistinguishable `OtpInvalid`.
pub proof fn lemma_consume_is_single_use(
    before: Seq<OtpCode>,
    after: Seq<OtpCode>,
    project_id: u128,
    identifier: Seq<char>,
    code: Seq<char>,
    now: i64,
    i: int,
    later: i64,
)
    requires
        0 <= i < before.len(),
        consumable(before[i]@, project_id, identifier, code, now),
        forall|j: int| 0 <= j < before.len() && j != i
            ==> !consumable(#[trigger] before[j]@, project_id, identifier, code, now),
        after.len() == before.len(),
        after[i]@ == (OtpCodeView { used: true, ..before[i]@ }),
        forall|j: int| 0 <= j < before.len() && j != i ==> after[j] == before[j],
        later >= now,
    ensures
        forall|j: int| 0 <= j < after.len()
            ==> !consumable(#[trigger] after[j]@, project_id, identifier, code, later),
{
    assert forall|j: int| 0 <= j < after.len() implies !consumable(
        after[j]@,
        project_id,
        identifier,
        code,
        later,
    ) by {
        if j == i {
            assert(after[j]@.used);
        } else {
            assert(after[j] == before[j]);
        }
    }
}

/// Mathematical model of a magic-link row.
pub ghost struct MagicLinkView {
    pub id: u128,
    pub project_id: u128,
    pub user_id: Option<u128>,
    pub email: Seq<char>,
    pub token: Seq<char>,
    pub expires_at: i64,
    pub used: bool,
    pub created_at: i64,
}

/// A single-use sign-in link token, the second instance of the
/// consume-once-before-expiry shape.
#[derive(Debug)]
pub struct MagicLink {
    pub id: u128,
    pub project_id: u128,
    pub user_id: Option<u128>,
    pub email: String,
    pub token: String,
    pub expires_at: i64,
    pub used: bool,
    pub created_at: i64,
}

impl View for MagicLink {
    type V = MagicLinkView;

    open spec fn view(&self) -> MagicLinkView {
        MagicLinkView {
            id: self.id,
            project_id: self.project_id,
            user_id: self.user_id,
            email: self.email@,
            token: self.token@,
            expires_at: self.expires_at,
            used: self.used,
            created_at: self.created_at,
        }
    }
}

impl Clone for MagicLink {
    /// A clone is the same value.
    fn clone(&self) -> (r: MagicLink)
        ensures
            r == *self,
    {
        MagicLink {
            id: self.id,
            project_id: self.project_id,
            user_id: self.user_id,
            email: self.email.clone(),
            token: self.token.clone(),
            expires_at: self.expires_at,
            used: self.used,
            created_at: self.created_at,
        }
    }
}

impl MagicLink {
    /// A fresh unused link token created at `now`.
    pub fn new(
        project_id: u128,
        user_id: Option<u128>,
        email: String,
        token: String,
        expires_at: i64,
        now: i64,
    ) -> (r: MagicLink)
        ensures
            r@ == (MagicLinkView {
                id: r@.id,
                project_id,
                user_id,
                email: email@,
                token: token@,
                expires_at,
                used: false,
                created_at: now,
            }),
    {
        MagicLink {
            id: crypto::new_uuid(),
            project_id,
            user_id,
            email,
            token,
            expires_at,
            used: false,
            created_at: now,
        }
    }

    /// Still consumable for the presented token value at `now`.
    pub open spec fn spec_consumable(s: MagicLinkView, token: Seq<char>, now: i64) -> bool {
        s.token == token && !s.used && s.expires_at > now
    }

    /// Checks consumability; wrong value, expiry and prior use are not
    /// told apart.
    pub fn consumable(&self, token: &str, now: i64) -> (r: bool)
        ensures
            r == MagicLink::spec_consumable(self@, token@, now),
    {
        crate::strutil::str_eq(self.token.as_str(), token) && !self.used && self.expires_at > now
    }

    /// Marks the link used: terminal.
    pub fn mark_used(&mut self)
        ensures
            final(self)@ == (MagicLinkView { used: true, ..old(self)@ }),
    {
        self.used = true;
    }
}

/// Mathematical model of a password-reset row.
pub ghost struct PasswordResetTokenView {
    pub id: u128,
    pub user_id: u128,
    pub token: Seq<char>,
    pub expires_at: i64,
    pub used: bool,
    pub created_at: i64,
}

/// A single-use password-reset token, the third instance of the
/// consume-once-before-expiry shape.
#[derive(Debug)]
pub struct PasswordResetToken {
    pub id: u128,
    pub user_id: u128,
    pub token: String,
    pub expires_at: i64,
    pub used: bool,
    pub created_at: i64,
}

impl View for PasswordResetToken {
    type V = PasswordResetTokenView;

    open spec fn view(&self) -> PasswordResetTokenView {
        PasswordResetTokenView {
            id: self.id,
            user_id: self.user_id,
            token: self.token@,
            expires_at: self.expires_at,
            used: self.used,
            created_at: self.created_at,
        }
    }
}

impl Clone for PasswordResetToken {
    /// A clone is the same value.
    fn clone(&self) -> (r: PasswordResetToken)
        ensures
            r == *self,
    {
        PasswordResetToken {
            id: self.id,
            user_id: self.user_id,
            token: self.token.clone(),
            expires_at: self.expires_at,
            used: self.used,
            created_at: self.created_at,
        }
    }
}

impl PasswordResetToken {
    /// A fresh unused reset token created at `now`.
    pub fn new(user_id: u128, token: String, expires_at: i64, now: i64) -> (r: PasswordResetToken)
        ensures
            r@ == (PasswordResetTokenView {
                id: r@.id,
                user_id,
                token: token@,
                expires_at,
                used: false,
                created_at: now,
            }),
    {
        PasswordResetToken {
            id: crypto::new_uuid(),
            user_id,
            token,
            expires_at,
            used: false,
            created_at: now,
        }
    }

    /// Still consumable for the presented token value at `now`.
    pub open spec fn spec_consumable(s: PasswordResetTokenView, token: Seq<char>, now: i64) -> bool {
        s.token == token && !s.used && s.expires_at > now
    }

    /// Checks consumability; wrong value, expiry and prior use are not
    /// told apart.
    pub fn consumable(&self, token: &str, now: i64) -> (r: bool)
        ensures
            r == PasswordResetToken::spec_consumable(self@, token@, now),
    {
        crate::strutil::str_eq(self.token.as_str(), token) && !self.used && self.expires_at > now
    }

    /// Marks the token used: terminal.
    pub fn mark_used(&mut self)
        ensures
            final(self)@ == (PasswordResetTokenView { used: true, ..old(self)@ }),
    {
        self.used = true;
    }
}

/// Stateless helpers around one-time codes.
pub struct OtpService;

/// A one-time code lives for ten minutes.
pub const OTP_TTL_SECONDS: i64 = 600;

impl OtpService {
    /// A six-digit random code: the decimal rendering of a value from
    /// 100000 to 999998, so its first digit is never zero.
    pub fn generate_code() -> (r: String)
        ensures
            r@.len() == 6,
            forall|i: int| 0 <= i < 6 ==> crate::crypto::is_digit_char(r@[i]),
            exists|v: int| 100000 <= v <= 999998 && r@ == crate::crypto::decimal6(v),
    {
        crypto::generate_otp_code()
    }

    /// When a code generated at `now` stops being valid.
    pub fn generate_expiry(now: i64) -> (r: i64)
        requires
            valid_time(now),
        ensures
            r == now + OTP_TTL_SECONDS,
    {
        now + OTP_TTL_SECONDS
    }

    /// Whether the code is no longer usable at `now`: a code is valid
    /// only strictly before its expiry instant.
    pub fn is_expired(expires_at: i64, now: i64) -> (r: bool)
        ensures
            r == (now >= expires_at),
    {
        now >= expires_at
    }

    /// Accepts exactly a still-valid code equal to the expected one; any
    /// failure is the single `OtpInvalid` error.
    pub fn verify_code(code: &str, expected_code: &str, expires_at: i64, now: i64) -> (r: Result<
        (),
        AuthError,
    >)
        ensures
            (r is Ok) == (now < expires_at && code@ == expected_code@),
            r matches Err(e) ==> e == AuthError::OtpInvalid,
    {
        if now >= expires_at {
            return Err(AuthError::OtpInvalid);
        }
        if crate::strutil::str_eq(code, expected_code) {
            Ok(())
        } else {
            Err(AuthError::OtpInvalid)
        }
    }
}

/// The row holds this exact token value and is still consumable.
pub open spec fn link_consumable(l: MagicLinkView, token: Seq<char>, now: i64) -> bool {
    l.token == token && !l.used && l.expires_at > now
}

/// Index `i` holds the row a consume of this token takes: a consumable
/// row whose creation time no other consumable row exceeds, and the
/// latest such row in store order — the newest matching link wins.
pub open spec fn link_choice(s: Seq<MagicLink>, token: Seq<char>, now: i64, i: int) -> bool {
    &&& 0 <= i < s.len()
    &&& link_consumable(s[i]@, token, now)
    &&& forall|j: int| 0 <= j < s.len() && link_consumable(#[trigger] s[j]@, token, now)
        ==> (s[j]@).created_at <= (s[i]@).created_at
    &&& forall|j: int| i < j < s.len() && link_consumable(#[trigger] s[j]@, token, now)
        ==> (s[j]@).created_at < (s[i]@).created_at
}

/// In-memory table of magic links, with the same atomic
/// lookup-and-mark-used discipline as the code table.
pub struct MagicLinkStore {
    pub links: Vec<MagicLink>,
}

impl MagicLinkStore {
    /// An empty table.
    pub fn new() -> (r: MagicLinkStore)
        ensures
            r.links@ =~= Seq::<MagicLink>::empty(),
    {
        MagicLinkStore { links: Vec::new() }
    }

    /// Persists a freshly generated link.
    pub fn create(&mut self, link: MagicLink) -> (r: MagicLink)
        ensures
            final(self).links@ == old(self).links@.push(link),
            r@ == link@,
    {
        let copy = link.clone();
        self.links.push(link);
        copy
    }

    /// Atomically looks a consumable row up by its exact token value and
    /// marks it used; among several matching rows the newest wins, per
    /// `link_choice`. Wrong value, expiry and prior use are
    /// indistinguishable: each yields exactly `OtpInvalid`, and the store
    /// is unchanged.
    pub fn consume(&mut self, token: &str, now: i64) -> (r: Result<MagicLink, AuthError>)
        ensures
            r matches Err(e) ==> {
                &&& e == AuthError::OtpInvalid
                &&& final(self).links@ == old(self).links@
                &&& forall|i: int| 0 <= i < old(self).links@.len()
                    ==> !link_consumable(#[trigger] old(self).links@[i]@, token@, now)
            },
            r matches Ok(l) ==> exists|i: int| {
                &&& link_choice(old(self).links@, token@, now, i)
                &&& l@ == old(self).links@[i]@
                &&& final(self).links@.len() == old(self).links@.len()
                &&& final(self).links@[i]@ == (MagicLinkView { used: true, ..old(self).links@[i]@ })
                &&& forall|j: int| 0 <= j < old(self).links@.len() && j != i
                    ==> final(self).links@[j] == old(self).links@[j]
            },
            (r is Ok) == exists|i: int| 0 <= i < old(self).links@.len()
                && link_consumable(#[trigger] old(self).links@[i]@, token@, now),
    {
        let n = self.links.len();
        let mut best: usize = n;
        let mut i: usize = 0;
        while i < n
            invariant
                n == self.links@.len(),
                i <= n,
                best <= n,
                self.links@ == old(self).links@,
                best == n ==> forall|j: int| 0 <= j < i
                    ==> !link_consumable(#[trigger] self.links@[j]@, token@, now),
                best < n ==> {
                    &&& best < i
                    &&& link_consumable(self.links@[best as int]@, token@, now)
                    &&& forall|j: int| 0 <= j < i && link_consumable(
                        #[trigger] self.links@[j]@,
                        token@,
                        now,
                    ) ==> (self.links@[j]@).created_at <= (self.links@[best as int]@).created_at
                    &&& forall|j: int| best < j < i && link_consumable(
                        #[trigger] self.links@[j]@,
                        token@,
                        now,
                    ) ==> (self.links@[j]@).created_at < (self.links@[best as int]@).created_at
                },
            decreases n - i,
        {
            let hit = {
                let l = &self.links[i];
                crate::strutil::str_eq(l.token.as_str(), token) && !l.used && l.expires_at > now
            };
            proof {
                assert(hit == link_consumable(self.links@[i as int]@, token@, now));
            }
            if hit && (best == n || self.links[i].created_at >= self.links[best].created_at) {
                best = i;
            }
            i = i + 1;
        }
        if best < n {
            proof {
                assert(link_choice(self.links@, token@, now, best as int));
                assert(link_consumable(self.links@[best as int]@, token@, now));
            }
            let row = self.links[best].clone();
            self.links[best].used = true;
            proof {
                assert(final(self).links@[best as int]@ == (MagicLinkView {
                    used: true,
                    ..old(self).links@[best as int]@
                }));
            }
            Ok(row)
        } else {
            proof {
                if exists|j: int| 0 <= j < self.links@.len() && link_consumable(
                    #[trigger] self.links@[j]@,
                    token@,
                    now,
                ) {
                    let j = choose|j: int| 0 <= j < self.links@.len() && link_consumable(
                        #[trigger] self.links@[j]@,
                        token@,
                        now,
                    );
                    assert(!link_consumable(self.links@[j]@, token@, now));
                }
            }
            Err(AuthError::OtpInvalid)
        }
    }

    /// Sweeps rows past their expiry; returns how many were removed.
    pub fn cleanup_expired(&mut self, now: i64) -> (r: u64)
        ensures
            final(self).links@ == unexpired_links(old(self).links@, now),
            r == old(self).links@.len() - final(self).links@.len(),
    {
        let n = self.links.len();
        let mut kept: Vec<MagicLink> = Vec::new();
        let mut i: usize = 0;
        while i < n
            invariant
                n == self.links@.len(),
                i <= n,
                self.links@ == old(self).links@,
                kept@.len() <= i,
                kept@ == unexpired_links(self.links@.subrange(0, i as int), now),
            decreases n - i,
        {
            proof {
                assert(self.links@.subrange(0, i as int + 1).drop_last() =~= self.links@.subrange(
                    0,
                    i as int,
                ));
                assert(self.links@.subrange(0, i as int + 1).last() == self.links@[i as int]);
            }
            if self.links[i].expires_at >= now {
                let row = self.links[i].clone();
                kept.push(row);
            }
            i = i + 1;
        }
        proof {
            assert(self.links@.subrange(0, n as int) =~= self.links@);
        }
        let removed = (n - kept.len()) as u64;
        self.links = kept;
        removed
    }
}

/// The rows left by an expiry sweep at `now`, in their original order.
pub open spec fn unexpired_links(s: Seq<MagicLink>, now: i64) -> Seq<MagicLink>
    decreases s.len(),
{
    if s.len() == 0 {
        s
    } else if s.last().expires_at >= now {
        unexpired_links(s.drop_last(), now).push(s.last())
    } else {
        unexpired_links(s.drop_last(), now)
    }
}


/// The row holds this exact token value and is still consumable.
pub open spec fn reset_consumable(t: PasswordResetTokenView, token: Seq<char>, now: i64) -> bool {
    t.token == token && !t.used && t.expires_at > now
}

/// Index `i` holds the row a consume of this token takes: a consumable
/// row whose creation time no other consumable row exceeds, and the
/// latest such row in store order — the newest matching token wins.
pub open spec fn reset_choice(s: Seq<PasswordResetToken>, token: Seq<char>, now: i64, i: int) -> bool {
    &&& 0 <= i < s.len()
    &&& reset_consumable(s[i]@, token, now)
    &&& forall|j: int| 0 <= j < s.len() && reset_consumable(#[trigger] s[j]@, token, now)
        ==> (s[j]@).created_at <= (s[i]@).created_at
    &&& forall|j: int| i < j < s.len() && reset_consumable(#[trigger] s[j]@, token, now)
        ==> (s[j]@).created_at < (s[i]@).created_at
}

/// The rows left by an expiry sweep at `now`, in their original order.
pub open spec fn unexpired_resets(s: Seq<PasswordResetToken>, now: i64) -> Seq<PasswordResetToken>
    decreases s.len(),
{
    if s.len() == 0 {
        s
    } else if s.last().expires_at >= now {
        unexpired_resets(s.drop_last(), now).push(s.last())
    } else {
        unexpired_resets(s.drop_last(), now)
    }
}

/// In-memory table of password-reset tokens, the third instance of the
/// consume-once shape, with the same atomic lookup-and-mark-used
/// discipline as the code and link tables.
pub struct PasswordResetStore {
    pub tokens: Vec<PasswordResetToken>,
}

impl PasswordResetStore {
    /// An empty table.
    pub fn new() -> (r: PasswordResetStore)
        ensures
            r.tokens@ =~= Seq::<PasswordResetToken>::empty(),
    {
        PasswordResetStore { tokens: Vec::new() }
    }

    /// Persists a freshly generated reset token.
    pub fn create(&mut self, token: PasswordResetToken) -> (r: PasswordResetToken)
        ensures
            final(self).tokens@ == old(self).tokens@.push(token),
            r@ == token@,
    {
        let copy = token.clone();
        self.tokens.push(token);
        copy
    }

    /// Atomically looks a consumable row up by its exact token value and
    /// marks it used; among several matching rows the newest wins, per
    /// `reset_choice`. Wrong value, expiry and prior use are
    /// indistinguishable: each yields exactly `OtpInvalid`, and the store
    /// is unchanged.
    pub fn consume(&mut self, token: &str, now: i64) -> (r: Result<PasswordResetToken, AuthError>)
        ensures
            r matches Err(e) ==> {
                &&& e == AuthError::OtpInvalid
                &&& final(self).tokens@ == old(self).tokens@
                &&& forall|i: int| 0 <= i < old(self).tokens@.len()
                    ==> !reset_consumable(#[trigger] old(self).tokens@[i]@, token@, now)
            },
            r matches Ok(t) ==> exists|i: int| {
                &&& reset_choice(old(self).tokens@, token@, now, i)
                &&& t@ == old(self).tokens@[i]@
                &&& final(self).tokens@.len() == old(self).tokens@.len()
                &&& final(self).tokens@[i]@ == (PasswordResetTokenView {
                    used: true,
                    ..old(self).tokens@[i]@
                })
                &&& forall|j: int| 0 <= j < old(self).tokens@.len() && j != i
                    ==> final(self).tokens@[j] == old(self).tokens@[j]
            },
            (r is Ok) == exists|i: int| 0 <= i < old(self).tokens@.len()
                && reset_consumable(#[trigger] old(self).tokens@[i]@, token@, now),
    {
        let n = self.tokens.len();
        let mut best: usize = n;
        let mut i: usize = 0;
        while i < n
            invariant
                n == self.tokens@.len(),
                i <= n,
                best <= n,
                self.tokens@ == old(self).tokens@,
                best == n ==> forall|j: int| 0 <= j < i
                    ==> !reset_consumable(#[trigger] self.tokens@[j]@, token@, now),
                best < n ==> {
                    &&& best < i
                    &&& reset_consumable(self.tokens@[best as int]@, token@, now)
                    &&& forall|j: int| 0 <= j < i && reset_consumable(
                        #[trigger] self.tokens@[j]@,
                        token@,
                        now,
                    ) ==> (self.tokens@[j]@).created_at <= (self.tokens@[best as int]@).created_at
                    &&& forall|j: int| best < j < i && reset_consumable(
                        #[trigger] self.tokens@[j]@,
                        token@,
                        now,
                    ) ==> (self.tokens@[j]@).created_at < (self.tokens@[best as int]@).created_at
                },
            decreases n - i,
        {
            let hit = {
                let t = &self.tokens[i];
                crate::strutil::str_eq(t.token.as_str(), token) && !t.used && t.expires_at > now
            };
            proof {
                assert(hit == reset_consumable(self.tokens@[i as int]@, token@, now));
            }
            if hit && (best == n || self.tokens[i].created_at >= self.tokens[best].created_at) {
                best = i;
            }
            i = i + 1;
        }
        if best < n {
            proof {
                assert(reset_choice(self.tokens@, token@, now, best as int));
                assert(reset_consumable(self.tokens@[best as int]@, token@, now));
            }
            let row = self.tokens[best].clone();
            self.tokens[best].used = true;
            proof {
                assert(final(self).tokens@[best as int]@ == (PasswordResetTokenView {
                    used: true,
                    ..old(self).tokens@[best as int]@
                }));
            }
            Ok(row)
        } else {
            proof {
                if exists|j: int| 0 <= j < self.tokens@.len() && reset_consumable(
                    #[trigger] self.tokens@[j]@,
                    token@,
                    now,
                ) {
                    let j = choose|j: int| 0 <= j < self.tokens@.len() && reset_consumable(
                        #[trigger] self.tokens@[j]@,
                        token@,
                        now,
                    );
                    assert(!reset_consumable(self.tokens@[j]@, token@, now));
                }
            }
            Err(AuthError::OtpInvalid)
        }
    }

    /// Sweeps rows past their expiry; returns how many were removed.
    pub fn cleanup_expired(&mut self, now: i64) -> (r: u64)
        ensures
            final(self).tokens@ == unexpired_resets(old(self).tokens@, now),
            r == old(self).tokens@.len() - final(self).tokens@.len(),
    {
        let n = self.tokens.len();
        let mut kept: Vec<PasswordResetToken> = Vec::new();
        let mut i: usize = 0;
        while i < n
            invariant
                n == self.tokens@.len(),
                i <= n,
                self.tokens@ == old(self).tokens@,
                kept@.len() <= i,
                kept@ == unexpired_resets(self.tokens@.subrange(0, i as int), now),
            decreases n - i,
        {
            proof {
                assert(self.tokens@.subrange(0, i as int + 1).drop_last() =~= self.tokens@.subrange(
                    0,
                    i as int,
                ));
                assert(self.tokens@.subrange(0, i as int + 1).last() == self.tokens@[i as int]);
            }
            if self.tokens[i].expires_at >= now {
                let row = self.tokens[i].clone();
                kept.push(row);
            }
            i = i + 1;
        }
        proof {
            assert(self.tokens@.subrange(0, n as int) =~= self.tokens@);
        }
        let removed = (n - kept.len()) as u64;
        self.tokens = kept;
        removed
    }
}

/// Two chosen rows for the same token are the same index.
pub proof fn lemma_link_choice_unique(s: Seq<MagicLink>, token: Seq<char>, now: i64, i: int, j: int)
    requires
        link_choice(s, token, now, i),
        link_choice(s, token, now, j),
    ensures
        i == j,
{
    if i < j {
        assert((s[j]@).created_at < (s[i]@).created_at);
        assert((s[i]@).created_at <= (s[j]@).created_at);
    }
    if j < i {
        assert((s[i]@).created_at < (s[j]@).created_at);
        assert((s[j]@).created_at <= (s[i]@).created_at);
    }
}

} // verus!
