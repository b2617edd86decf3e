use vstd::prelude::*;
use std::collections::HashMap;
use crate::error::{Invalid, UserError};
use crate::profile::{UserPreferences, PreferencesView, prefs_view, clone_prefs};
use crate::validate::{check_spec, check_fields, MAX_AGE};
use crate::render::{decimal, push_decimal};

verus! {

broadcast use vstd::std_specs::hash::group_hash_axioms;

/// A record held by a `UserDatabase`.
#[derive(Debug)]
pub struct User {
    pub id: u32,
    pub name: String,
    pub email: String,
    pub age: Option<u8>,
    pub preferences: Option<UserPreferences>,
}

/// The value of a `User`, with its text as characters.
pub struct UserView {
    pub id: u32,
    pub name: Seq<char>,
    pub email: Seq<char>,
    pub age: Option<u8>,
    pub preferences: Option<PreferencesView>,
}

impl View for User {
    type V = UserView;

    open spec fn view(&self) -> UserView {
        UserView {
            id: self.id,
            name: self.name@,
            email: self.email@,
            age: self.age,
            preferences: prefs_view(self.preferences),
        }
    }
}

impl Clone for User {
    fn clone(&self) -> (r: Self)
        ensures
            r@ == self@,
    {
        User {
            id: self.id,
            name: self.name.clone(),
            email: self.email.clone(),
            age: self.age,
            preferences: clone_prefs(&self.preferences),
        }
    }
}

/// The one-line summary of a record: `name (age) - email`, or
/// `name - email` where no age is set.
pub open spec fn info_text(u: UserView) -> Seq<char> {
    match u.age {
        Some(a) => u.name + " ("@ + decimal(a as nat) + ") - "@ + u.email,
        None => u.name + " - "@ + u.email,
    }
}

impl User {
    /// A record with the given identifier, name and email, and no age or
    /// preferences.
    pub fn new(id: u32, name: String, email: String) -> (r: Self)
        ensures
            r@ == (UserView { id, name: name@, email: email@, age: None, preferences: None }),
    {
        User { id, name, email, age: None, preferences: None }
    }

    /// Sets the age, which must be at most `MAX_AGE`; otherwise the record
    /// is left as it was.
    pub fn set_age(&mut self, age: u8) -> (r: Result<(), UserError>)
        ensures
            age > MAX_AGE ==> r == Err::<(), UserError>(UserError::Validation(Invalid::AgeOutOfRange))
                && final(self)@ == old(self)@,
            age <= MAX_AGE ==> r is Ok && final(self)@ == (UserView { age: Some(age), ..old(self)@ }),
    {
        if age > MAX_AGE {
            return Err(UserError::Validation(Invalid::AgeOutOfRange));
        }
        self.age = Some(age);
        Ok(())
    }

    /// The record as one line: `name (age) - email`, or `name - email`
    /// where no age is set.
    pub fn display_info(&self) -> (r: String)
        ensures
            r@ == info_text(self@),
    {
        let mut s = self.name.clone();
        match self.age {
            Some(a) => {
                s.append(" (");
                push_decimal(&mut s, a);
                s.append(") - ");
            },
            None => {
                s.append(" - ");
            },
        }
        s.append(self.email.as_str());
        s
    }
}

/// An in-memory store of records keyed by identifiers that it assigns
/// itself, from 1 upwards, never reusing one.
#[derive(Debug)]
pub struct UserDatabase {
    users: HashMap<u32, User>,
    next_id: u32,
}

impl View for UserDatabase {
    type V = Map<u32, UserView>;

    closed spec fn view(&self) -> Map<u32, UserView> {
        Map::new(|k: u32| self.users@.contains_key(k), |k: u32| self.users@[k]@)
    }
}

impl UserDatabase {
    /// The identifier that the next successful insertion will assign.
    pub closed spec fn next(&self) -> u32 {
        self.next_id
    }

    /// The store is well formed: the identifiers issued so far are exactly
    /// `1 .. next()`, and each record carries its own key as its `id`.
    pub closed spec fn wf(&self) -> bool {
        &&& 1 <= self.next_id
        &&& forall|k: u32| #[trigger] self.users@.contains_key(k) <==> 1 <= k < self.next_id
        &&& forall|k: u32| #[trigger] self.users@.contains_key(k) ==> self.users@[k].id == k
    }

    /// The records in the order of their identifiers.
    pub open spec fn listing(&self) -> Seq<UserView> {
        Seq::new((self.next() - 1) as nat, |i: int| self@[(i + 1) as u32])
    }

    /// What the store holds, and the counter, after a successful insertion.
    pub open spec fn inserted(
        &self,
        name: Seq<char>,
        email: Seq<char>,
        age: Option<u8>,
        preferences: Option<PreferencesView>,
    ) -> Map<u32, UserView> {
        self@.insert(
            self.next(),
            UserView { id: self.next(), name, email, age, preferences },
        )
    }

    /// Every key lies in `1 .. next()` and names a record whose `id` is that
    /// key; every identifier in that range is present.
    pub proof fn lemma_keys(&self)
        requires
            self.wf(),
        ensures
            1 <= self.next(),
            forall|k: u32| #[trigger] self@.contains_key(k) <==> 1 <= k < self.next(),
            forall|k: u32| #[trigger] self@.contains_key(k) ==> self@[k].id == k,
    {
    }

    /// `later` still holds every key that `self` holds, and its counter has
    /// not gone back.
    pub open spec fn keeps(&self, later: Self) -> bool {
        &&& self.next() <= later.next()
        &&& forall|k: u32| self@.contains_key(k) ==> #[trigger] later@.contains_key(k)
    }

    /// `keeps` chains: what holds from a first state to a second and from
    /// the second to a third holds from the first to the third.
    pub proof fn lemma_keeps_chain(a: Self, b: Self, c: Self)
        requires
            a.keeps(b),
            b.keeps(c),
        ensures
            a.keeps(c),
    {
    }

    /// Identifiers never repeat and only grow: an identifier that a store
    /// holds is still held, and lies below the next one to be assigned, in
    /// every later state that keeps it, whatever mix of insertions (failed
    /// or not) and age updates led there.
    pub proof fn lemma_later_ids_larger(earlier: Self, later: Self, id: u32)
        requires
            earlier.wf(),
            later.wf(),
            earlier@.contains_key(id),
            earlier.keeps(later),
        ensures
            later@.contains_key(id),
            id < later.next(),
    {
    }

    /// A successful insertion lengthens the listing by exactly one record,
    /// the new one, and leaves the earlier records in place.
    pub proof fn lemma_listing_after_insert(
        before: Self,
        after: Self,
        name: Seq<char>,
        email: Seq<char>,
        age: Option<u8>,
        preferences: Option<PreferencesView>,
    )
        requires
            before.wf(),
            after.wf(),
            after@ == before.inserted(name, email, age, preferences),
            after.next() == before.next() + 1,
        ensures
            after.listing().len() == before.listing().len() + 1,
            after.listing().take(before.listing().len() as int) == before.listing(),
            after.listing().last() == (UserView { id: before.next(), name, email, age, preferences }),
    {
        assert(after.listing().take(before.listing().len() as int) =~= before.listing());
    }

    /// An empty store whose first identifier will be 1.
    pub fn new() -> (r: Self)
        ensures
            r.wf(),
            r@ == Map::<u32, UserView>::empty(),
            r.next() == 1,
    {
        let r = UserDatabase { users: HashMap::new(), next_id: 1 };
        assert(r@ =~= Map::<u32, UserView>::empty());
        r
    }

    /// The identifier that the next successful insertion will assign.
    pub fn next_id(&self) -> (r: u32)
        ensures
            r == self.next(),
    {
        self.next_id
    }

    /// Validates the fields and, where they pass, stores a record under the
    /// next identifier and returns that identifier. On failure nothing
    /// changes and no identifier is used up.
    pub fn insert(
        &mut self,
        name: String,
        email: String,
        age: Option<u8>,
        preferences: Option<UserPreferences>,
    ) -> (r: Result<u32, UserError>)
        requires
            old(self).wf(),
            old(self).next() < u32::MAX,
        ensures
            final(self).wf(),
            old(self).keeps(*final(self)),
            match check_spec(name@, email@, age) {
                Err(e) => {
                    &&& r == Err::<u32, UserError>(e)
                    &&& final(self)@ == old(self)@
                    &&& final(self).next() == old(self).next()
                },
                Ok(_) => {
                    &&& r == Ok::<u32, UserError>(old(self).next())
                    &&& final(self)@ == old(self).inserted(name@, email@, age, prefs_view(preferences))
                    &&& final(self).next() == old(self).next() + 1
                },
            },
    {
        match check_fields(name.as_str(), email.as_str(), age) {
            Err(e) => {
                return Err(e);
            },
            Ok(()) => {},
        }
        let id = self.next_id;
        let user = User { id, name, email, age, preferences };
        self.users.insert(id, user);
        self.next_id = id + 1;
        proof {
            assert(self@ =~= old(self).inserted(name@, email@, age, prefs_view(preferences)));
        }
        Ok(id)
    }

    /// `insert` with no age and no preferences.
    pub fn add_user(&mut self, name: String, email: String) -> (r: Result<u32, UserError>)
        requires
            old(self).wf(),
            old(self).next() < u32::MAX,
        ensures
            final(self).wf(),
            old(self).keeps(*final(self)),
            match check_spec(name@, email@, None) {
                Err(e) => {
                    &&& r == Err::<u32, UserError>(e)
                    &&& final(self)@ == old(self)@
                    &&& final(self).next() == old(self).next()
                },
                Ok(_) => {
                    &&& r == Ok::<u32, UserError>(old(self).next())
                    &&& final(self)@ == old(self).inserted(name@, email@, None, None)
                    &&& final(self).next() == old(self).next() + 1
                },
            },
    {
        self.insert(name, email, None, None)
    }

    /// The record stored under `id`, if any.
    pub fn get_user(&self, id: u32) -> (r: Option<&User>)
        ensures
            r.is_some() == self@.contains_key(id),
            r.is_some() ==> r.unwrap()@ == self@[id],
    {
        self.users.get(&id)
    }

    /// Sets the age of the record stored under `id`. Fails with `NotFound`
    /// where there is none, and with a validation error where `age` exceeds
    /// `MAX_AGE`; in both cases nothing changes.
    pub fn update_user_age(&mut self, id: u32, age: u8) -> (r: Result<(), UserError>)
        requires
            old(self).wf(),
        ensures
            final(self).wf(),
            old(self).keeps(*final(self)),
            final(self).next() == old(self).next(),
            !old(self)@.contains_key(id) ==> r == Err::<(), UserError>(UserError::NotFound(id))
                && final(self)@ == old(self)@,
            old(self)@.contains_key(id) && age > MAX_AGE ==> r == Err::<(), UserError>(
                UserError::Validation(Invalid::AgeOutOfRange),
            ) && final(self)@ == old(self)@,
            old(self)@.contains_key(id) && age <= MAX_AGE ==> r is Ok && final(self)@ == old(
                self,
            )@.insert(id, UserView { age: Some(age), ..old(self)@[id] }),
    {
        match self.users.remove(&id) {
            None => {
                proof {
                    assert(self@ =~= old(self)@);
                }
                Err(UserError::NotFound(id))
            },
            Some(mut user) => {
                let r = user.set_age(age);
                self.users.insert(id, user);
                proof {
                    if age > MAX_AGE {
                        assert(self@ =~= old(self)@);
                    } else {
                        assert(self@ =~= old(self)@.insert(
                            id,
                            UserView { age: Some(age), ..old(self)@[id] },
                        ));
                    }
                }
                r
            },
        }
    }

    /// A copy of every record, in the order of their identifiers. Later
    /// changes to the store do not reach the copy.
    pub fn list_users(&self) -> (r: Vec<User>)
        requires
            self.wf(),
        ensures
            r@.map_values(|u: User| u@) == self.listing(),
            r@.len() == self.listing().len(),
    {
        let mut out: Vec<User> = Vec::new();
        let mut id: u32 = 1;
        while id < self.next_id
            invariant
                self.wf(),
                1 <= id <= self.next_id,
                out@.len() == id - 1,
                forall|i: int| 0 <= i < out@.len() ==> #[trigger] out@[i]@ == self@[(i + 1) as u32],
            decreases self.next_id - id,
        {
            match self.users.get(&id) {
                Some(u) => {
                    out.push(u.clone());
                },
                None => {
                    // every identifier below the counter is held
                    assert(false);
                },
            }
            id = id + 1;
        }
        assert(out@.map_values(|u: User| u@) =~= self.listing());
        out
    }
}

} // verus!
