//! OTP service: a model of the TTL-backed key-value store that holds one
//! pending 4-digit code per email, together with code generation and
//! verification against the stored code.

use vstd::prelude::*;

use crate::errors::AuthError;
use crate::text::str_eq;

verus! {

/// Seconds a pending code stays valid.
pub const OTP_TTL_SECS: usize = 300;

/// Relies on rand's `thread_rng().gen_range(1000..=9999)`: a fresh 4-digit
/// code, uniformly drawn; nothing beyond its range holds of any one draw.
#[verifier::external_body]
pub(crate) fn generate_otp() -> (r: u16)
    ensures
        1000 <= r <= 9999,
{
    let mut rng = rand::thread_rng();
    rand::Rng::gen_range(&mut rng, 1000..=9999)
}

/// One pending code: key (email), value (code) and the absolute time at
/// which the entry expires.
pub struct OtpEntry {
    pub email: String,
    pub code: u16,
    pub expires_at: usize,
}

/// The first entry for `email`, if any. The store keeps at most one entry
/// per email, so "first" is "the" entry.
pub open spec fn otp_lookup(entries: Seq<OtpEntry>, email: Seq<char>) -> Option<OtpEntry>
    decreases entries.len(),
{
    if entries.len() == 0 {
        None
    } else if entries[0].email@ == email {
        Some(entries[0])
    } else {
        otp_lookup(entries.drop_first(), email)
    }
}

/// At most one entry per email.
pub open spec fn otp_emails_distinct(entries: Seq<OtpEntry>) -> bool {
    forall|i: int, j: int|
        0 <= i < j < entries.len() ==> entries[i].email@ != entries[j].email@
}

/// What verification of a presented code returns: `NoPendingCode` when no
/// code is stored or the stored one has expired, `Mismatch` when a live code
/// differs from the presented one, success otherwise. The stored code is not
/// consumed.
pub open spec fn otp_outcome(
    entries: Seq<OtpEntry>,
    email: Seq<char>,
    presented: u32,
    now: usize,
) -> Result<(), AuthError> {
    match otp_lookup(entries, email) {
        None => Err(AuthError::NoPendingCode),
        Some(e) => if now >= e.expires_at {
            Err(AuthError::NoPendingCode)
        } else if presented == e.code as u32 {
            Ok(())
        } else {
            Err(AuthError::Mismatch)
        },
    }
}

proof fn lemma_distinct_drop_first(entries: Seq<OtpEntry>)
    requires
        entries.len() > 0,
        otp_emails_distinct(entries),
    ensures
        otp_emails_distinct(entries.drop_first()),
{
    assert forall|i: int, j: int|
        0 <= i < j < entries.drop_first().len() implies entries.drop_first()[i].email@
        != entries.drop_first()[j].email@ by {
        assert(entries.drop_first()[i] == entries[i + 1]);
        assert(entries.drop_first()[j] == entries[j + 1]);
    }
}

/// With distinct emails, the entry found by `otp_lookup` is the one at any
/// index whose email matches.
proof fn lemma_lookup_at_index(entries: Seq<OtpEntry>, i: int, email: Seq<char>)
    requires
        otp_emails_distinct(entries),
        0 <= i < entries.len(),
        entries[i].email@ == email,
    ensures
        otp_lookup(entries, email) == Some(entries[i]),
    decreases entries.len(),
{
    if i > 0 {
        lemma_distinct_drop_first(entries);
        assert(entries.drop_first()[i - 1] == entries[i]);
        lemma_lookup_at_index(entries.drop_first(), i - 1, email);
    }
}

/// `otp_lookup` returns `None` exactly when no entry carries the email.
proof fn lemma_lookup_none(entries: Seq<OtpEntry>, email: Seq<char>)
    ensures
        otp_lookup(entries, email) is None <==> forall|i: int|
            0 <= i < entries.len() ==> entries[i].email@ != email,
    decreases entries.len(),
{
    if entries.len() > 0 {
        lemma_lookup_none(entries.drop_first(), email);
        assert forall|i: int| 1 <= i < entries.len() implies entries.drop_first()[i - 1]
            == entries[i] by {}
    }
}

/// Appending an entry leaves every other email's lookup as it was, and fills
/// in the new email if it was absent.
proof fn lemma_lookup_push(entries: Seq<OtpEntry>, e: OtpEntry, email: Seq<char>)
    ensures
        otp_lookup(entries.push(e), email) == (if otp_lookup(entries, email) is Some {
            otp_lookup(entries, email)
        } else if email == e.email@ {
            Some(e)
        } else {
            None::<OtpEntry>
        }),
    decreases entries.len(),
{
    if entries.len() == 0 {
        assert(entries.push(e).drop_first() =~= entries);
    } else {
        assert(entries.push(e)[0] == entries[0]);
        assert(entries.push(e).drop_first() =~= entries.drop_first().push(e));
        lemma_lookup_push(entries.drop_first(), e, email);
    }
}

/// Removing the entry at `i` erases its email from the store and leaves
/// every other email's lookup as it was.
proof fn lemma_lookup_remove(entries: Seq<OtpEntry>, i: int, email: Seq<char>)
    requires
        otp_emails_distinct(entries),
        0 <= i < entries.len(),
    ensures
        otp_lookup(entries.remove(i), email) == (if entries[i].email@ == email {
            None::<OtpEntry>
        } else {
            otp_lookup(entries, email)
        }),
    decreases entries.len(),
{
    lemma_distinct_drop_first(entries);
    if i == 0 {
        assert(entries.remove(0) =~= entries.drop_first());
        if entries[0].email@ == email {
            lemma_lookup_none(entries.drop_first(), email);
            assert forall|j: int| 0 <= j < entries.drop_first().len()
                implies entries.drop_first()[j].email@ != email by {
                assert(entries.drop_first()[j] == entries[j + 1]);
            }
        }
    } else {
        assert(entries.remove(i)[0] == entries[0]);
        assert(entries.remove(i).drop_first() =~= entries.drop_first().remove(i - 1));
        assert(entries.drop_first()[i - 1] == entries[i]);
        lemma_lookup_remove(entries.drop_first(), i - 1, email);
    }
}

/// The pending-code store: at most one live entry per email, each expiring
/// on its own schedule. Time is supplied by the caller as an absolute number
/// of seconds, so expiry is a property of the data, not of a clock.
pub struct OtpStore {
    entries: Vec<OtpEntry>,
}

impl View for OtpStore {
    type V = Seq<OtpEntry>;

    closed spec fn view(&self) -> Seq<OtpEntry> {
        self.entries@
    }
}

impl OtpStore {
    /// Well-formed: one entry per email.
    pub open spec fn wf(&self) -> bool {
        otp_emails_distinct(self@)
    }

    /// An empty store.
    pub fn new() -> (r: OtpStore)
        ensures
            r.wf(),
            r@.len() == 0,
    {
        OtpStore { entries: Vec::new() }
    }

    fn find_index(&self, email: &str) -> (r: Option<usize>)
        requires
            self.wf(),
        ensures
            match r {
                Some(i) => i < self@.len() && self@[i as int].email@ == email@ && otp_lookup(
                    self@,
                    email@,
                ) == Some(self@[i as int]),
                None => otp_lookup(self@, email@) is None,
            },
    {
        let n = self.entries.len();
        let mut i: usize = 0;
        while i < n
            invariant
                self.wf(),
                n == self@.len(),
                i <= n,
                forall|j: int| 0 <= j < i ==> self@[j].email@ != email@,
            decreases n - i,
        {
            if str_eq(self.entries[i].email.as_str(), email) {
                proof {
                    lemma_lookup_at_index(self@, i as int, email@);
                }
                return Some(i);
            }
            i = i + 1;
        }
        proof {
            lemma_lookup_none(self@, email@);
        }
        None
    }

    /// Stores `code` for `email` with a fresh TTL, overwriting any prior
    /// pending code for that email and touching no other email.
    pub fn set_code(&mut self, email: String, code: u16, now: usize)
        requires
            old(self).wf(),
            now + OTP_TTL_SECS <= usize::MAX,
        ensures
            final(self).wf(),
            otp_lookup(final(self)@, email@) matches Some(e) && e.email@ == email@ && e.code
                == code && e.expires_at == now + OTP_TTL_SECS,
            forall|other: Seq<char>|
                other != email@ ==> otp_lookup(final(self)@, other) == otp_lookup(
                    old(self)@,
                    other,
                ),
    {
        let ghost pre = self@;
        let entry = OtpEntry { email, code, expires_at: now + OTP_TTL_SECS };
        match self.find_index(entry.email.as_str()) {
            Some(i) => {
                proof {
                    lemma_lookup_remove(pre, i as int, entry.email@);
                }
                self.entries.remove(i);
                proof {
                    assert forall|a: int, b: int|
                        0 <= a < b < self@.len() implies self@[a].email@ != self@[b].email@ by {
                        if b < i as int {
                            assert(self@[a] == pre[a] && self@[b] == pre[b]);
                        } else if a < i as int {
                            assert(self@[a] == pre[a] && self@[b] == pre[b + 1]);
                        } else {
                            assert(self@[a] == pre[a + 1] && self@[b] == pre[b + 1]);
                        }
                    }
                    lemma_lookup_none(self@, entry.email@);
                    assert forall|j: int| 0 <= j < self@.len() implies self@[j].email@
                        != entry.email@ by {
                        assert(otp_lookup(self@, entry.email@) is None);
                        if self@[j].email@ == entry.email@ {
                            lemma_lookup_at_index(self@, j, entry.email@);
                        }
                    }
                    assert forall|other: Seq<char>|
                        other != entry.email@ implies otp_lookup(self@.push(entry), other)
                        == otp_lookup(pre, other) by {
                        lemma_lookup_push(self@, entry, other);
                        lemma_lookup_remove(pre, i as int, other);
                    }
                    lemma_lookup_push(self@, entry, entry.email@);
                }
                let ghost removed = self@;
                self.entries.push(entry);
                proof {
                    assert forall|a: int, b: int|
                        0 <= a < b < self@.len() implies self@[a].email@ != self@[b].email@ by {
                        lemma_lookup_none(removed, self@[b].email@);
                        if b == self@.len() - 1 {
                            assert(self@[a] == removed[a]);
                        } else {
                            assert(self@[a] == removed[a] && self@[b] == removed[b]);
                        }
                    }
                }
            },
            None => {
                proof {
                    lemma_lookup_none(pre, entry.email@);
                    assert forall|other: Seq<char>|
                        other != entry.email@ implies otp_lookup(pre.push(entry), other)
                        == otp_lookup(pre, other) by {
                        lemma_lookup_push(pre, entry, other);
                    }
                    lemma_lookup_push(pre, entry, entry.email@);
                }
                self.entries.push(entry);
                proof {
                    assert forall|a: int, b: int|
                        0 <= a < b < self@.len() implies self@[a].email@ != self@[b].email@ by {
                        if b == self@.len() - 1 {
                            assert(self@[a] == pre[a]);
                        } else {
                            assert(self@[a] == pre[a] && self@[b] == pre[b]);
                        }
                    }
                }
            },
        }
    }

    /// Checks a presented code against the stored one. Absent or expired
    /// entries report `NoPendingCode`; a live entry with a different code
    /// reports `Mismatch`. Success does not consume the stored code.
    pub fn verify_otp(&self, email: &str, presented: u32, now: usize) -> (r: Result<
        (),
        AuthError,
    >)
        requires
            self.wf(),
        ensures
            r == otp_outcome(self@, email@, presented, now),
    {
        match self.find_index(email) {
            None => Err(AuthError::NoPendingCode),
            Some(i) => {
                let e = &self.entries[i];
                if now >= e.expires_at {
                    Err(AuthError::NoPendingCode)
                } else if presented == e.code as u32 {
                    Ok(())
                } else {
                    Err(AuthError::Mismatch)
                }
            },
        }
    }
}

/// Law: a presented code verifies at time `t` exactly when a code is pending
/// for that email, has not expired at `t`, and equals the presented one —
/// in particular the code delivered at issuance, and no other, verifies, and
/// an email without a pending entry rejects every code.
pub proof fn lemma_issued_code_verifies(
    entries: Seq<OtpEntry>,
    email: Seq<char>,
    presented: u32,
    t: usize,
)
    ensures
        otp_outcome(entries, email, presented, t) == Ok::<(), AuthError>(()) <==> (otp_lookup(
            entries,
            email,
        ) matches Some(e) && t < e.expires_at && presented == e.code as u32),
{
}

/// Law: once the TTL has elapsed — or no code was ever issued — verification
/// fails with `NoPendingCode`, whatever code is presented.
pub proof fn lemma_expired_code_rejected(
    entries: Seq<OtpEntry>,
    email: Seq<char>,
    presented: u32,
    t: usize,
)
    requires
        otp_lookup(entries, email) matches Some(e) ==> t >= e.expires_at,
    ensures
        otp_outcome(entries, email, presented, t) == Err::<(), AuthError>(AuthError::NoPendingCode),
{
}

} // verus!
