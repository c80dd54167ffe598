//! One-time secrets bound to an address: verification codes and reset
//! tokens. A store holds at most one record per address.

use vstd::prelude::*;
use crate::clock::{can_expire, check_can_expire, fresh_id, utc_now};
use crate::codec::{generate_unique_code, is_code};
use crate::error::AuthError;

verus! {

/// The seconds for which a verification code is honored: 24 hours.
pub const VERIFICATION_TTL: u32 = 86_400;

/// The seconds for which a reset token is honored: 2 hours.
pub const RESET_TTL: u32 = 7_200;

/// The number of random characters of a verification code.
pub const VERIFICATION_CODE_LEN: usize = 5;

/// The number of random characters of a reset token.
pub const RESET_TOKEN_LEN: usize = 32;

/// A record as the contracts see it.
pub ghost struct TokenView {
    pub id: u128,
    pub email: Seq<char>,
    pub secret: Seq<char>,
    pub expires_at: i64,
}

/// A one-time secret issued for an address.
#[derive(Debug)]
pub struct TokenRecord {
    pub id: u128,
    /// The address the secret was issued for.
    pub email: String,
    /// The code or the token.
    pub secret: String,
    /// The last second, in UTC, at which the secret is honored.
    pub expires_at: i64,
}

impl View for TokenRecord {
    type V = TokenView;

    open spec fn view(&self) -> TokenView {
        TokenView {
            id: self.id,
            email: self.email@,
            secret: self.secret@,
            expires_at: self.expires_at,
        }
    }
}

impl Clone for TokenRecord {
    fn clone(&self) -> (r: Self)
        ensures
            r@ == self@,
    {
        TokenRecord {
            id: self.id,
            email: self.email.clone(),
            secret: self.secret.clone(),
            expires_at: self.expires_at,
        }
    }
}

/// A record is honored until its last second has passed.
pub open spec fn honored(t: TokenView, now: i64) -> bool {
    now <= t.expires_at
}

/// Which records an operation keeps.
pub ghost enum Rule {
    /// Those issued for another address.
    NotEmail(Seq<char>),
    /// Those with another identifier.
    NotId(u128),
    /// Those that are honored at the given second.
    LiveAt(i64),
}

/// Whether the rule keeps the record.
pub open spec fn keeps(rule: Rule, t: TokenView) -> bool {
    match rule {
        Rule::NotEmail(e) => t.email != e,
        Rule::NotId(id) => t.id != id,
        Rule::LiveAt(now) => honored(t, now),
    }
}

/// The records that the rule keeps, in order.
pub open spec fn retained(s: Seq<TokenView>, rule: Rule) -> Seq<TokenView>
    decreases s.len(),
{
    if s.len() == 0 {
        s
    } else if keeps(rule, s.last()) {
        retained(s.drop_last(), rule).push(s.last())
    } else {
        retained(s.drop_last(), rule)
    }
}

/// No two records are for the same address.
pub open spec fn unique(s: Seq<TokenView>) -> bool {
    forall|i: int, j: int|
        0 <= i < j < s.len() ==> (#[trigger] s[i]).email != (#[trigger] s[j]).email
}

/// The position of the record issued for `email`, if there is one.
pub open spec fn email_pos(s: Seq<TokenView>, email: Seq<char>) -> Option<int> {
    if exists|i: int| 0 <= i < s.len() && (#[trigger] s[i]).email == email {
        Some(choose|i: int| 0 <= i < s.len() && (#[trigger] s[i]).email == email)
    } else {
        None
    }
}

/// The position of the newest record with the secret `secret`, if there
/// is one. Records of different addresses may share a secret.
pub open spec fn secret_pos(s: Seq<TokenView>, secret: Seq<char>) -> Option<int>
    decreases s.len(),
{
    if s.len() == 0 {
        None
    } else if s.last().secret == secret {
        Some(s.len() - 1)
    } else {
        secret_pos(s.drop_last(), secret)
    }
}

/// What a store holds after a record was issued: the records of the other
/// addresses, then the record itself.
pub open spec fn issued(s: Seq<TokenView>, t: TokenView) -> Seq<TokenView> {
    retained(s, Rule::NotEmail(t.email)).push(t)
}

/// Whether `after` and `r` are what the issue of the secret `secret` under
/// the identifier `id`, at the second `now` and for `ttl` seconds, leaves of
/// `before`: the record is stored and handed back where the clock can show
/// its expiry, and nothing is stored and there is no record where it cannot.
pub open spec fn issues(
    before: Seq<TokenView>,
    after: Seq<TokenView>,
    email: Seq<char>,
    id: u128,
    secret: Seq<char>,
    now: i64,
    ttl: u32,
    r: Option<TokenRecord>,
) -> bool {
    if can_expire(now, ttl) {
        let t = TokenView { id, email, secret, expires_at: (now + ttl) as i64 };
        r is Some && r->Some_0@ == t && after == issued(before, t)
    } else {
        r is None && after == before
    }
}

/// The views of a sequence of records.
pub open spec fn token_views(s: Seq<TokenRecord>) -> Seq<TokenView> {
    Seq::new(s.len(), |i: int| s[i]@)
}

/// What is retained is what the rule keeps of the records, no more and no
/// less; and what was unique stays unique.
pub proof fn lemma_retained(s: Seq<TokenView>, rule: Rule)
    ensures
        retained(s, rule).len() <= s.len(),
        forall|t: TokenView| #[trigger]
            retained(s, rule).contains(t) <==> s.contains(t) && keeps(rule, t),
        unique(s) ==> unique(retained(s, rule)),
    decreases s.len(),
{
    let r = retained(s, rule);
    if s.len() == 0 {
        assert forall|t: TokenView| #[trigger]
            r.contains(t) <==> s.contains(t) && keeps(rule, t) by {}
    } else {
        let s0 = s.drop_last();
        let r0 = retained(s0, rule);
        let last = s.last();
        lemma_retained(s0, rule);
        assert forall|t: TokenView| #[trigger]
            r.contains(t) <==> s.contains(t) && keeps(rule, t) by {
            if r.contains(t) {
                let k = choose|k: int| 0 <= k < r.len() && r[k] == t;
                if k < r0.len() {
                    assert(r0[k] == t);
                    assert(r0.contains(t));
                    let m = choose|m: int| 0 <= m < s0.len() && s0[m] == t;
                    assert(s[m] == t);
                } else {
                    assert(t == last);
                    assert(s[s.len() - 1] == t);
                }
            }
            if s.contains(t) && keeps(rule, t) {
                let m = choose|m: int| 0 <= m < s.len() && s[m] == t;
                if m < s0.len() {
                    assert(s0[m] == t);
                    assert(s0.contains(t));
                    assert(r0.contains(t));
                    let k = choose|k: int| 0 <= k < r0.len() && r0[k] == t;
                    assert(r[k] == t);
                } else {
                    assert(r[r.len() - 1] == t);
                }
            }
        }
        if unique(s) {
            assert(unique(s0)) by {
                assert forall|i: int, j: int| 0 <= i < j < s0.len() implies (#[trigger] s0[i]).email
                    != (#[trigger] s0[j]).email by {
                    assert(s0[i] == s[i] && s0[j] == s[j]);
                }
            }
            assert forall|i: int, j: int| 0 <= i < j < r.len() implies (#[trigger] r[i]).email
                != (#[trigger] r[j]).email by {
                if j < r0.len() {
                    assert(r[i] == r0[i] && r[j] == r0[j]);
                } else {
                    assert(r[j] == last);
                    assert(r0[i] == r[i]);
                    assert(r0.contains(r[i]));
                    assert(s0.contains(r[i]));
                    let m = choose|m: int| 0 <= m < s0.len() && s0[m] == r[i];
                    assert(s[m] == r[i]);
                    assert(s[s.len() - 1] == last);
                }
            }
        }
    }
}

/// Among unique records each is the one found for its address.
pub proof fn lemma_token_found_at(s: Seq<TokenView>, i: int)
    requires
        unique(s),
        0 <= i < s.len(),
    ensures
        email_pos(s, s[i].email) == Some(i),
{
    let b = email_pos(s, s[i].email)->Some_0;
    assert(b == i) by {
        if b < i {
            assert(s[b].email != s[i].email);
        } else if i < b {
            assert(s[i].email != s[b].email);
        }
    }
}

/// The record found for a secret holds it, and no newer record does; where
/// none is found, no record holds it.
pub proof fn lemma_secret_pos(s: Seq<TokenView>, secret: Seq<char>)
    ensures
        match secret_pos(s, secret) {
            Some(k) => {
                &&& 0 <= k < s.len()
                &&& s[k].secret == secret
                &&& forall|j: int| k < j < s.len() ==> (#[trigger] s[j]).secret != secret
            },
            None => forall|j: int| 0 <= j < s.len() ==> (#[trigger] s[j]).secret != secret,
        },
    decreases s.len(),
{
    if s.len() > 0 && s.last().secret != secret {
        let s0 = s.drop_last();
        lemma_secret_pos(s0, secret);
        match secret_pos(s0, secret) {
            Some(k) => {
                assert(s0[k] == s[k]);
                assert forall|j: int| k < j < s.len() implies (#[trigger] s[j]).secret
                    != secret by {
                    if j < s0.len() {
                        assert(s0[j] == s[j]);
                    }
                }
            },
            None => {
                assert forall|j: int| 0 <= j < s.len() implies (#[trigger] s[j]).secret
                    != secret by {
                    if j < s0.len() {
                        assert(s0[j] == s[j]);
                    }
                }
            },
        }
    }
}

/// After a record was issued the store is unique again, and the record is
/// the one found for its address and for its secret.
pub proof fn lemma_issued(s: Seq<TokenView>, t: TokenView)
    requires
        unique(s),
    ensures
        unique(issued(s, t)),
        email_pos(issued(s, t), t.email) == Some(issued(s, t).len() - 1),
        secret_pos(issued(s, t), t.secret) == Some(issued(s, t).len() - 1),
        issued(s, t).last() == t,
{
    let r0 = retained(s, Rule::NotEmail(t.email));
    let r = issued(s, t);
    lemma_retained(s, Rule::NotEmail(t.email));
    assert forall|i: int, j: int| 0 <= i < j < r.len() implies (#[trigger] r[i]).email
        != (#[trigger] r[j]).email by {
        if j < r0.len() {
            assert(r[i] == r0[i] && r[j] == r0[j]);
        } else {
            assert(r0[i] == r[i]);
            assert(r0.contains(r[i]));
        }
    }
    lemma_token_found_at(r, r.len() - 1);
}

enum Sieve<'a> {
    NotEmail(&'a String),
    NotId(u128),
    LiveAt(i64),
}

impl<'a> Sieve<'a> {
    spec fn rule(self) -> Rule {
        match self {
            Sieve::NotEmail(e) => Rule::NotEmail(e@),
            Sieve::NotId(id) => Rule::NotId(id),
            Sieve::LiveAt(now) => Rule::LiveAt(now),
        }
    }

    fn keeps(&self, t: &TokenRecord) -> (b: bool)
        ensures
            b == keeps(self.rule(), t@),
    {
        match self {
            Sieve::NotEmail(e) => t.email != **e,
            Sieve::NotId(id) => t.id != *id,
            Sieve::LiveAt(now) => *now <= t.expires_at,
        }
    }
}

/// The records of one kind of secret, in the order of their issue.
pub struct TokenStore {
    records: Vec<TokenRecord>,
}

impl View for TokenStore {
    type V = Seq<TokenView>;

    closed spec fn view(&self) -> Seq<TokenView> {
        token_views(self.records@)
    }
}

impl TokenStore {
    /// The invariant of the store: its records are unique.
    pub open spec fn wf(&self) -> bool {
        unique(self@)
    }

    /// A store without records.
    pub fn new() -> (s: TokenStore)
        ensures
            s@ == Seq::<TokenView>::empty(),
            s.wf(),
    {
        let s = TokenStore { records: Vec::new() };
        assert(s@ =~= Seq::<TokenView>::empty());
        s
    }

    /// The number of records.
    pub fn len(&self) -> (n: usize)
        ensures
            n == self@.len(),
    {
        self.records.len()
    }

    fn retain(&mut self, sieve: &Sieve) -> (n: usize)
        requires
            old(self).wf(),
        ensures
            final(self).wf(),
            final(self)@ == retained(old(self)@, sieve.rule()),
            n == old(self)@.len() - final(self)@.len(),
    {
        let ghost before = self@;
        let mut kept: Vec<TokenRecord> = Vec::new();
        let mut i: usize = 0;
        assert(token_views(kept@) =~= retained(before.subrange(0, 0), sieve.rule()));
        while i < self.records.len()
            invariant
                self@ == before,
                i <= self.records.len(),
                kept.len() <= i,
                token_views(kept@) == retained(before.subrange(0, i as int), sieve.rule()),
            decreases self.records.len() - i,
        {
            proof {
                let next = before.subrange(0, i + 1);
                assert(next.drop_last() =~= before.subrange(0, i as int));
                assert(next.last() == before[i as int]);
                assert(before[i as int] == self.records[i as int]@);
            }
            if sieve.keeps(&self.records[i]) {
                let ghost prev = kept@;
                let t = self.records[i].clone();
                kept.push(t);
                proof {
                    assert forall|k: int| 0 <= k < kept.len() implies #[trigger] token_views(
                        kept@,
                    )[k] == retained(before.subrange(0, i + 1), sieve.rule())[k] by {
                        assert(token_views(kept@)[k] == kept@[k]@);
                        if k < prev.len() {
                            assert(kept@[k] == prev[k]);
                            assert(token_views(prev)[k] == prev[k]@);
                        }
                    }
                    assert(token_views(kept@) =~= retained(
                        before.subrange(0, i + 1),
                        sieve.rule(),
                    ));
                }
            }
            i += 1;
        }
        proof {
            assert(before =~= before.subrange(0, self.records.len() as int));
            lemma_retained(before, sieve.rule());
        }
        let n: usize = self.records.len() - kept.len();
        self.records = kept;
        n
    }

    /// Stores a secret for an address until `ttl` seconds after `now`. The
    /// record supersedes what the store held for that address; the records
    /// of other addresses stay. Returns the record.
    pub fn issue_with(&mut self, email: &str, id: u128, secret: String, now: i64, ttl: u32) -> (r:
        TokenRecord)
        requires
            old(self).wf(),
            now + ttl <= i64::MAX,
        ensures
            final(self).wf(),
            r@ == (TokenView { id, email: email@, secret: secret@, expires_at: (now + ttl) as i64 }),
            final(self)@ == issued(old(self)@, r@),
            email_pos(final(self)@, email@) == Some(final(self)@.len() - 1),
            secret_pos(final(self)@, secret@) == Some(final(self)@.len() - 1),
    {
        let rec = TokenRecord { id, email: email.to_owned(), secret, expires_at: now + ttl as i64 };
        let ghost before = self@;
        self.retain(&Sieve::NotEmail(&rec.email));
        let out = rec.clone();
        let ghost mid = self@;
        self.records.push(rec);
        proof {
            assert(self@ =~= mid.push(out@));
            lemma_issued(before, out@);
        }
        out
    }

    /// Mints an identifier and a secret of `characters` random characters,
    /// with dashes if `dashes` is set, reads the clock, and stores the secret
    /// for an address until `ttl` seconds after the present second, as
    /// `issue_with` does. Where the clock cannot show the expiry, nothing is
    /// stored and there is no record; with a lifetime of no seconds that
    /// cannot be, and the record is stored.
    pub fn issue(&mut self, email: &str, characters: usize, dashes: bool, ttl: u32) -> (r: Option<
        TokenRecord,
    >)
        requires
            old(self).wf(),
        ensures
            final(self).wf(),
            exists|id: u128, secret: Seq<char>, now: i64|
                {
                    &&& is_code(secret, characters as int, dashes)
                    &&& #[trigger] issues(
                        old(self)@,
                        final(self)@,
                        email@,
                        id,
                        secret,
                        now,
                        ttl,
                        r,
                    )
                },
            ttl == 0 ==> r is Some,
            match r {
                Some(t) => {
                    &&& t@.email == email@
                    &&& is_code(t@.secret, characters as int, dashes)
                    &&& final(self)@ == issued(old(self)@, t@)
                    &&& email_pos(final(self)@, email@) == Some(final(self)@.len() - 1)
                    &&& secret_pos(final(self)@, t@.secret) == Some(final(self)@.len() - 1)
                },
                None => final(self)@ == old(self)@,
            },
    {
        let id = fresh_id();
        let secret = generate_unique_code(characters, dashes);
        let now = utc_now();
        let ghost before = self@;
        let ghost minted = secret@;
        let r = if check_can_expire(now, ttl) {
            Some(self.issue_with(email, id, secret, now, ttl))
        } else {
            None
        };
        assert(issues(before, self@, email@, id, minted, now, ttl, r));
        r
    }

    /// The record issued for `email`; `NotFound` if there is none.
    pub fn find_by_email(&self, email: &String) -> (r: Result<TokenRecord, AuthError>)
        requires
            self.wf(),
        ensures
            match email_pos(self@, email@) {
                Some(i) => r is Ok && r->Ok_0@ == self@[i],
                None => r is Err && r->Err_0 == AuthError::NotFound,
            },
    {
        let mut i: usize = 0;
        while i < self.records.len()
            invariant
                i <= self.records.len(),
                self.wf(),
                forall|k: int| 0 <= k < i ==> (#[trigger] self@[k]).email != email@,
            decreases self.records.len() - i,
        {
            if self.records[i].email == *email {
                proof {
                    assert(self@[i as int].email == email@);
                    lemma_token_found_at(self@, i as int);
                }
                return Ok(self.records[i].clone());
            }
            i += 1;
        }
        Err(AuthError::NotFound)
    }

    /// The newest record with the secret `token`; `NotFound` if there is
    /// none.
    pub fn find_by_token(&self, token: &String) -> (r: Result<TokenRecord, AuthError>)
        ensures
            match secret_pos(self@, token@) {
                Some(i) => r is Ok && r->Ok_0@ == self@[i],
                None => r is Err && r->Err_0 == AuthError::NotFound,
            },
    {
        let mut i: usize = self.records.len();
        assert(self@ =~= self@.subrange(0, i as int));
        while i > 0
            invariant
                i <= self.records.len(),
                secret_pos(self@, token@) == secret_pos(self@.subrange(0, i as int), token@),
            decreases i,
        {
            proof {
                let head = self@.subrange(0, i as int);
                assert(head.last() == self@[i - 1]);
                assert(head.drop_last() =~= self@.subrange(0, i - 1));
            }
            if self.records[i - 1].secret == *token {
                return Ok(self.records[i - 1].clone());
            }
            i -= 1;
        }
        Err(AuthError::NotFound)
    }

    /// Removes the records with identifier `id` and returns their number.
    pub fn delete(&mut self, id: u128) -> (n: usize)
        requires
            old(self).wf(),
        ensures
            final(self).wf(),
            final(self)@ == retained(old(self)@, Rule::NotId(id)),
            n == old(self)@.len() - final(self)@.len(),
    {
        self.retain(&Sieve::NotId(id))
    }

    /// Removes the record issued for `email`, if there is one, and returns
    /// the number of records removed.
    pub fn remove_email(&mut self, email: &String) -> (n: usize)
        requires
            old(self).wf(),
        ensures
            final(self).wf(),
            final(self)@ == retained(old(self)@, Rule::NotEmail(email@)),
            n == old(self)@.len() - final(self)@.len(),
    {
        self.retain(&Sieve::NotEmail(email))
    }

    /// Removes the records that are no longer honored at `now`, and returns
    /// their number.
    pub fn purge_expired(&mut self, now: i64) -> (n: usize)
        requires
            old(self).wf(),
        ensures
            final(self).wf(),
            final(self)@ == retained(old(self)@, Rule::LiveAt(now)),
            n == old(self)@.len() - final(self)@.len(),
    {
        self.retain(&Sieve::LiveAt(now))
    }
}

} // verus!
