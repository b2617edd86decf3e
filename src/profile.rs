use vstd::prelude::*;
use crate::error::UserError;
use crate::validate::{check_spec, check_fields, domain_of, email_domain};

verus! {

/// The colour scheme a user prefers.
#[derive(Debug, Clone, Copy, PartialEq, Eq, Structural)]
pub enum Theme {
    Light,
    Dark,
    Auto,
}

impl Default for Theme {
    fn default() -> (r: Self)
        ensures
            r == Theme::Auto,
    {
        Theme::Auto
    }
}

/// Settings a user keeps with their profile.
#[derive(Debug)]
pub struct UserPreferences {
    pub theme: Theme,
    pub notifications_enabled: bool,
    pub language: String,
}

/// The value of a `UserPreferences`, with the language as characters.
pub struct PreferencesView {
    pub theme: Theme,
    pub notifications_enabled: bool,
    pub language: Seq<char>,
}

impl View for UserPreferences {
    type V = PreferencesView;

    open spec fn view(&self) -> PreferencesView {
        PreferencesView {
            theme: self.theme,
            notifications_enabled: self.notifications_enabled,
            language: self.language@,
        }
    }
}

impl Clone for UserPreferences {
    fn clone(&self) -> (r: Self)
        ensures
            r@ == self@,
    {
        UserPreferences {
            theme: self.theme,
            notifications_enabled: self.notifications_enabled,
            language: self.language.clone(),
        }
    }
}

/// The value of optional preferences.
pub open spec fn prefs_view(p: Option<UserPreferences>) -> Option<PreferencesView> {
    match p {
        Some(q) => Some(q@),
        None => None,
    }
}

/// A copy of optional preferences with the same value.
pub fn clone_prefs(p: &Option<UserPreferences>) -> (r: Option<UserPreferences>)
    ensures
        prefs_view(r) == prefs_view(*p),
{
    match p {
        Some(q) => Some(q.clone()),
        None => None,
    }
}


/// A user profile, validated when it is made.
#[derive(Debug)]
pub struct User {
    pub id: u32,
    pub name: String,
    pub age: u8,
    pub email: String,
    pub preferences: Option<UserPreferences>,
}

/// The value of a profile `User`, with its text as characters.
pub struct ProfileView {
    pub id: u32,
    pub name: Seq<char>,
    pub age: u8,
    pub email: Seq<char>,
    pub preferences: Option<PreferencesView>,
}

impl View for User {
    type V = ProfileView;

    open spec fn view(&self) -> ProfileView {
        ProfileView {
            id: self.id,
            name: self.name@,
            age: self.age,
            email: self.email@,
            preferences: prefs_view(self.preferences),
        }
    }
}

impl User {
    /// A profile with no identifier yet (0) and no preferences, where the
    /// name is not empty, the email holds an `@` and the age is in range.
    pub fn new(name: String, age: u8, email: String) -> (r: Result<Self, UserError>)
        ensures
            match check_spec(name@, email@, Some(age)) {
                Err(e) => r matches Err(f) && f == e,
                Ok(_) => r matches Ok(u) && u@ == (ProfileView {
                    id: 0,
                    name: name@,
                    age,
                    email: email@,
                    preferences: None,
                }),
            },
    {
        match check_fields(name.as_str(), email.as_str(), Some(age)) {
            Err(e) => Err(e),
            Ok(()) => Ok(User { id: 0, name, age, email, preferences: None }),
        }
    }

    /// The same profile with its preferences replaced.
    pub fn with_preferences(self, preferences: UserPreferences) -> (r: Self)
        ensures
            r@ == (ProfileView { preferences: Some(preferences@), ..self@ }),
    {
        let mut u = self;
        u.preferences = Some(preferences);
        u
    }

    /// The name to show for this user.
    pub fn get_display_name(&self) -> (r: &str)
        ensures
            r@ == self.name@,
    {
        self.name.as_str()
    }

    /// The part of the email after its first `@`, up to the next `@` or
    /// the end.
    pub fn get_email_domain(&self) -> (r: Option<&str>)
        ensures
            r.is_some() == domain_of(self.email@).is_some(),
            r.is_some() ==> r.unwrap()@ == domain_of(self.email@).unwrap(),
    {
        email_domain(self.email.as_str())
    }

    /// Replaces the preferences.
    pub fn set_preferences(&mut self, preferences: UserPreferences)
        ensures
            final(self)@ == (ProfileView { preferences: Some(preferences@), ..old(self)@ }),
    {
        self.preferences = Some(preferences);
    }
}

/// A value that carries an identifier that a `Repository` assigns.
pub trait HasId {
    /// The identifier carried.
    spec fn id_of(&self) -> u32;

    fn get_id(&self) -> (r: u32)
        ensures
            r == self.id_of(),
    ;

    fn set_id(&mut self, id: u32)
        ensures
            final(self).id_of() == id,
    ;
}

impl HasId for User {
    open spec fn id_of(&self) -> u32 {
        self.id
    }

    fn get_id(&self) -> (r: u32) {
        self.id
    }

    fn set_id(&mut self, id: u32) {
        self.id = id;
    }
}

/// The profiles in `users` whose age is at least `min_age`, in order.
pub open spec fn at_least(users: Seq<User>, min_age: u8) -> Seq<User> {
    users.filter(|u: User| u.age >= min_age)
}

/// The profiles of `users` whose age is at least `min_age`, in their order.
pub fn filter_users_by_age(users: &[User], min_age: u8) -> (r: Vec<&User>)
    ensures
        r@.map_values(|u: &User| *u) == at_least(users@, min_age),
{
    let mut out: Vec<&User> = Vec::new();
    let mut i: usize = 0;
    while i < users.len()
        invariant
            0 <= i <= users@.len(),
            out@.map_values(|u: &User| *u) == at_least(users@.take(i as int), min_age),
        decreases users@.len() - i,
    {
        let u = &users[i];
        if u.age >= min_age {
            out.push(u);
        }
        proof {
            let t = users@.take(i + 1);
            assert(t.drop_last() =~= users@.take(i as int));
            reveal(Seq::filter);
            assert(out@.map_values(|u: &User| *u) =~= at_least(t, min_age));
        }
        i = i + 1;
    }
    assert(users@.take(users@.len() as int) =~= users@);
    out
}

} // verus!
