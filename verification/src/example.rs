//! A small user-directory example in the crate's contract style: a keyed
//! store with unique ids, a syntactic id check, and a lookup whose success
//! and failure cases are both pinned down exactly.

use vstd::prelude::*;

verus! {

/// Error type for user operations.
#[derive(Debug)]
#[non_exhaustive]
pub enum UserError {
    /// User was not found in the directory.
    NotFound,
    /// The backing store failed; carries a description.
    DatabaseError(String),
}

/// User data structure.
#[derive(Debug, Clone)]
pub struct User {
    /// User's display name.
    pub name: String,
}

/// An in-memory directory of users keyed by id. Ids are unique: inserting an
/// existing id replaces that user in place.
///
/// The view of a directory is its sequence of `(id, name)` pairs in storage
/// order.
pub struct UserDirectory {
    entries: Vec<(String, User)>,
}

impl View for UserDirectory {
    type V = Seq<(Seq<char>, Seq<char>)>;

    closed spec fn view(&self) -> Seq<(Seq<char>, Seq<char>)> {
        self.entries@.map_values(|e: (String, User)| (e.0@, e.1.name@))
    }
}

impl UserDirectory {
    /// Ids are unique: no two entries share one.
    pub open spec fn wf(&self) -> bool {
        forall|i: int, j: int|
            #![trigger self@[i], self@[j]]
            0 <= i < j < self@.len() ==> self@[i].0 != self@[j].0
    }

    /// Whether some entry has id `id`.
    pub open spec fn has_id(&self, id: Seq<char>) -> bool {
        exists|i: int| 0 <= i < self@.len() && (#[trigger] self@[i]).0 == id
    }

    /// Creates an empty directory.
    pub fn new() -> (d: UserDirectory)
        ensures
            d@ =~= Seq::<(Seq<char>, Seq<char>)>::empty(),
            d.wf(),
    {
        let d = UserDirectory { entries: Vec::new() };
        proof {
            assert(d@ =~= Seq::<(Seq<char>, Seq<char>)>::empty());
        }
        d
    }

    /// The number of stored users.
    pub fn len(&self) -> (n: usize)
        ensures
            n == self@.len(),
    {
        self.entries.len()
    }

    /// Inserts a user under `id`: replaces the existing entry with that id in
    /// place, or appends a new entry.
    pub fn insert(&mut self, id: String, user: User)
        requires
            old(self).wf(),
        ensures
            final(self).wf(),
            old(self).has_id(id@) ==> exists|i: int|
                ({
                    &&& 0 <= i < old(self)@.len()
                    &&& (#[trigger] old(self)@[i]).0 == id@
                    &&& final(self)@ == old(self)@.update(i, (id@, user.name@))
                }),
            !old(self).has_id(id@) ==> final(self)@ == old(self)@.push((id@, user.name@)),
    {
        let n = self.entries.len();
        let mut k: usize = 0;
        while k < n && !(self.entries[k].0 == id)
            invariant
                n == self.entries@.len(),
                k <= n,
                forall|m: int| 0 <= m < k ==> (#[trigger] self.entries@[m]).0@ != id@,
            decreases n - k,
        {
            k = k + 1;
        }
        if k < n {
            proof {
                assert(self@[k as int].0 == id@);
            }
            self.entries[k] = (id, user);
            proof {
                assert(self@ =~= old(self)@.update(k as int, (id@, user.name@)));
            }
        } else {
            proof {
                assert(!self.has_id(id@));
            }
            self.entries.push((id, user));
            proof {
                assert(self@ =~= old(self)@.push((id@, user.name@)));
            }
        }
    }
}

/// Checks whether a user ID is syntactically valid: it must be non-empty.
pub fn is_valid_id(id: &str) -> (valid: bool)
    ensures
        valid <==> id@.len() > 0,
{
    !id.is_empty()
}

/// Fetches a user by ID.
///
/// Returns the user stored under `id` exactly when the directory has that
/// id, and `UserError::NotFound` exactly when it does not.
pub fn get_user<'a>(users: &'a UserDirectory, id: &str) -> (r: Result<&'a User, UserError>)
    requires
        users.wf(),
    ensures
        r is Ok <==> users.has_id(id@),
        r matches Ok(u) ==> exists|i: int|
            0 <= i < users@.len() && #[trigger] users@[i] == (id@, u.name@),
        r matches Err(e) ==> e is NotFound,
{
    let key: String = id.to_owned();
    let n = users.entries.len();
    let mut k: usize = 0;
    while k < n
        invariant
            n == users.entries@.len(),
            k <= n,
            key@ == id@,
            forall|m: int| 0 <= m < k ==> (#[trigger] users.entries@[m]).0@ != id@,
        decreases n - k,
    {
        if users.entries[k].0 == key {
            proof {
                assert(users@[k as int] == (id@, users.entries@[k as int].1.name@));
            }
            return Ok(&users.entries[k].1);
        }
        k = k + 1;
    }
    proof {
        assert(!users.has_id(id@));
    }
    Err(UserError::NotFound)
}

} // verus!
