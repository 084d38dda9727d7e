//! Credential store model: the durable `users` table with its unique-email
//! constraint. Registration's single insert and login's single lookup are
//! the only operations the core performs on it.

use vstd::prelude::*;

use crate::errors::AuthError;
use crate::text::str_eq;

verus! {

/// One durable user row. The password is stored only as an opaque,
/// algorithm-tagged hash, never in plaintext.
pub struct UserAccount {
    pub id: u64,
    pub name: String,
    pub email: String,
    pub password_hash: String,
    pub role_id: u32,
}

/// The first row for `email`, if any. Rows keep distinct emails, so "first"
/// is "the" row.
pub open spec fn find_user(rows: Seq<UserAccount>, email: Seq<char>) -> Option<UserAccount>
    decreases rows.len(),
{
    if rows.len() == 0 {
        None
    } else if rows[0].email@ == email {
        Some(rows[0])
    } else {
        find_user(rows.drop_first(), email)
    }
}

/// The unique-email constraint of the table.
pub open spec fn user_emails_distinct(rows: Seq<UserAccount>) -> bool {
    forall|i: int, j: int| 0 <= i < j < rows.len() ==> rows[i].email@ != rows[j].email@
}

proof fn lemma_find_at_index(rows: Seq<UserAccount>, i: int, email: Seq<char>)
    requires
        user_emails_distinct(rows),
        0 <= i < rows.len(),
        rows[i].email@ == email,
    ensures
        find_user(rows, email) == Some(rows[i]),
    decreases rows.len(),
{
    if i > 0 {
        assert forall|a: int, b: int|
            0 <= a < b < rows.drop_first().len() implies rows.drop_first()[a].email@
            != rows.drop_first()[b].email@ by {
            assert(rows.drop_first()[a] == rows[a + 1]);
            assert(rows.drop_first()[b] == rows[b + 1]);
        }
        assert(rows.drop_first()[i - 1] == rows[i]);
        lemma_find_at_index(rows.drop_first(), i - 1, email);
    }
}

proof fn lemma_find_none(rows: Seq<UserAccount>, email: Seq<char>)
    ensures
        find_user(rows, email) is None <==> forall|i: int|
            0 <= i < rows.len() ==> rows[i].email@ != email,
    decreases rows.len(),
{
    if rows.len() > 0 {
        lemma_find_none(rows.drop_first(), email);
        assert forall|i: int| 1 <= i < rows.len() implies rows.drop_first()[i - 1] == rows[i] by {}
    }
}

/// Appending a row with a fresh email leaves every other email's lookup as
/// it was and makes the new row findable.
proof fn lemma_find_push(rows: Seq<UserAccount>, r: UserAccount, email: Seq<char>)
    ensures
        find_user(rows.push(r), email) == (if find_user(rows, email) is Some {
            find_user(rows, email)
        } else if email == r.email@ {
            Some(r)
        } else {
            None::<UserAccount>
        }),
    decreases rows.len(),
{
    if rows.len() == 0 {
        assert(rows.push(r).drop_first() =~= rows);
    } else {
        assert(rows.push(r)[0] == rows[0]);
        assert(rows.push(r).drop_first() =~= rows.drop_first().push(r));
        lemma_find_push(rows.drop_first(), r, email);
    }
}

/// The `users` table: rows with unique emails and an id counter that hands
/// out a fresh id to each inserted row.
pub struct UserStore {
    rows: Vec<UserAccount>,
    next_id: u64,
}

impl View for UserStore {
    type V = Seq<UserAccount>;

    closed spec fn view(&self) -> Seq<UserAccount> {
        self.rows@
    }
}

impl UserStore {
    /// Well-formed: the unique-email constraint holds.
    pub open spec fn wf(&self) -> bool {
        user_emails_distinct(self@)
    }

    /// The id the next inserted row will get.
    pub closed spec fn spec_next_id(&self) -> u64 {
        self.next_id
    }

    /// An empty table; ids start at 1.
    pub fn new() -> (r: UserStore)
        ensures
            r.wf(),
            r@.len() == 0,
            r.spec_next_id() == 1,
    {
        UserStore { rows: Vec::new(), next_id: 1 }
    }

    /// The id the next inserted row will get.
    pub fn next_id(&self) -> (r: u64)
        ensures
            r == self.spec_next_id(),
    {
        self.next_id
    }

    /// How many rows the table holds.
    pub fn count(&self) -> (r: usize)
        ensures
            r == self@.len(),
    {
        self.rows.len()
    }

    /// The row for `email`, if one exists.
    pub fn lookup(&self, email: &str) -> (r: Option<&UserAccount>)
        requires
            self.wf(),
        ensures
            match r {
                Some(u) => find_user(self@, email@) == Some(*u),
                None => find_user(self@, email@) is None,
            },
    {
        let n = self.rows.len();
        let mut i: usize = 0;
        while i < n
            invariant
                self.wf(),
                n == self@.len(),
                i <= n,
                forall|j: int| 0 <= j < i ==> self@[j].email@ != email@,
            decreases n - i,
        {
            if str_eq(self.rows[i].email.as_str(), email) {
                proof {
                    lemma_find_at_index(self@, i as int, email@);
                }
                return Some(&self.rows[i]);
            }
            i = i + 1;
        }
        proof {
            lemma_find_none(self@, email@);
        }
        None
    }

    /// Inserts a new row, rejecting a duplicate email without touching the
    /// existing row. On success the row is appended with a fresh id and the
    /// lookup of every other email is unchanged.
    pub fn insert(
        &mut self,
        name: String,
        email: String,
        password_hash: String,
        role_id: u32,
    ) -> (r: Result<(), AuthError>)
        requires
            old(self).wf(),
            old(self).spec_next_id() < u64::MAX,
        ensures
            final(self).wf(),
            r is Err ==> r == Err::<(), AuthError>(AuthError::StoreError) && *final(self) == *old(
                self,
            ),
            r is Err <==> find_user(old(self)@, email@) is Some,
            r is Ok ==> final(self)@ == old(self)@.push(final(self)@.last())
                && final(self)@.last().id == old(self).spec_next_id()
                && final(self)@.last().name@ == name@ && final(self)@.last().email@ == email@
                && final(self)@.last().password_hash@ == password_hash@
                && final(self)@.last().role_id == role_id && final(self).spec_next_id() == old(
                self,
            ).spec_next_id() + 1,
            forall|other: Seq<char>|
                other != email@ ==> find_user(final(self)@, other) == find_user(
                    old(self)@,
                    other,
                ),
    {
        let ghost pre = self@;
        match self.lookup(email.as_str()) {
            Some(_) => Err(AuthError::StoreError),
            None => {
                let row = UserAccount { id: self.next_id, name, email, password_hash, role_id };
                self.next_id = self.next_id + 1;
                self.rows.push(row);
                proof {
                    assert forall|other: Seq<char>|
                        other != row.email@ implies find_user(self@, other) == find_user(
                        pre,
                        other,
                    ) by {
                        lemma_find_push(pre, row, other);
                    }
                    lemma_find_push(pre, row, row.email@);
                    lemma_find_none(pre, row.email@);
                    assert forall|a: int, b: int|
                        0 <= a < b < self@.len() implies self@[a].email@ != self@[b].email@ by {
                        if b == self@.len() - 1 {
                            assert(self@[a] == pre[a]);
                        } else {
                            assert(self@[a] == pre[a] && self@[b] == pre[b]);
                        }
                    }
                    assert(self@.last() == self@[self@.len() - 1]);
                }
                Ok(())
            },
        }
    }
}

} // verus!
