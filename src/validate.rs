use vstd::prelude::*;
use crate::error::{Invalid, UserError};

verus! {

/// The largest age a record may hold.
pub const MAX_AGE: u8 = 150;

/// The position of the first `@` in `s`, or `s.len()` where there is none.
pub open spec fn first_at(s: Seq<char>) -> int
    decreases s.len(),
{
    if s.len() == 0 {
        0
    } else if s[0] == '@' {
        0
    } else {
        1 + first_at(s.drop_first())
    }
}

/// `s` holds the separator `@` somewhere.
pub open spec fn has_at(s: Seq<char>) -> bool {
    exists|i: int| 0 <= i < s.len() && s[i] == '@'
}

/// An age is acceptable when it is absent or at most `MAX_AGE`.
pub open spec fn age_ok(age: Option<u8>) -> bool {
    match age {
        Some(a) => a <= MAX_AGE,
        None => true,
    }
}

/// The outcome of validating a name, an email and an optional age: the
/// rules are checked in that order and the first broken one is reported.
pub open spec fn check_spec(name: Seq<char>, email: Seq<char>, age: Option<u8>) -> Result<(), UserError> {
    if name.len() == 0 {
        Err(UserError::Validation(Invalid::EmptyName))
    } else if !has_at(email) {
        Err(UserError::Validation(Invalid::MissingAt))
    } else if !age_ok(age) {
        Err(UserError::Validation(Invalid::AgeOutOfRange))
    } else {
        Ok(())
    }
}

/// The text after the first `@` up to the next `@` or the end, where `s`
/// holds an `@`.
pub open spec fn domain_of(s: Seq<char>) -> Option<Seq<char>> {
    if first_at(s) < s.len() {
        let rest = s.skip(first_at(s) + 1);
        Some(rest.take(first_at(rest)))
    } else {
        None
    }
}

/// `first_at` is the first position that holds `@`, or the length.
pub proof fn lemma_first_at(s: Seq<char>, i: int)
    requires
        0 <= i <= s.len(),
        forall|k: int| 0 <= k < i ==> s[k] != '@',
        i == s.len() || s[i] == '@',
    ensures
        first_at(s) == i,
    decreases i,
{
    if i > 0 {
        assert(s[0] != '@');
        lemma_first_at(s.drop_first(), i - 1);
    }
}

/// `first_at` lies within the sequence, and before it there is no `@`.
pub proof fn lemma_first_at_bounds(s: Seq<char>)
    ensures
        0 <= first_at(s) <= s.len(),
        forall|k: int| 0 <= k < first_at(s) ==> s[k] != '@',
        first_at(s) < s.len() ==> s[first_at(s)] == '@',
        has_at(s) <==> first_at(s) < s.len(),
    decreases s.len(),
{
    if s.len() > 0 && s[0] != '@' {
        lemma_first_at_bounds(s.drop_first());
        assert forall|k: int| 0 <= k < first_at(s) implies s[k] != '@' by {
            if k > 0 {
                assert(s[k] == s.drop_first()[k - 1]);
            }
        }
        if has_at(s) {
            let i = choose|i: int| 0 <= i < s.len() && s[i] == '@';
            assert(s.drop_first()[i - 1] == '@');
        }
        if has_at(s.drop_first()) {
            let j = choose|j: int| 0 <= j < s.len() - 1 && s.drop_first()[j] == '@';
            assert(s[j + 1] == '@');
        }
    } else if s.len() > 0 {
        assert(s[0] == '@');
    }
}

/// The position of the first `@` at or after `from` in `s`, or the length
/// of `s` in characters where there is none.
fn find_at(s: &str, from: usize) -> (r: usize)
    requires
        from <= s@.len(),
    ensures
        r == from + first_at(s@.skip(from as int)),
        r <= s@.len(),
{
    let n = s.unicode_len();
    let mut i: usize = from;
    while i < n && s.get_char(i) != '@'
        invariant
            from <= i <= n,
            n == s@.len(),
            forall|k: int| from <= k < i ==> s@[k] != '@',
        decreases n - i,
    {
        i = i + 1;
    }
    proof {
        let t = s@.skip(from as int);
        assert forall|k: int| 0 <= k < i - from implies t[k] != '@' by {
            assert(t[k] == s@[k + from]);
        }
        lemma_first_at(t, i - from);
    }
    i
}

/// Whether `s` holds the separator `@`.
pub fn contains_at(s: &str) -> (r: bool)
    ensures
        r == has_at(s@),
{
    let i = find_at(s, 0);
    proof {
        assert(s@.skip(0) == s@);
        lemma_first_at_bounds(s@);
    }
    i < s.unicode_len()
}

/// Checks a name, an email and an optional age against the rules for a
/// record: the name is not empty, the email holds an `@`, and the age, where
/// given, is at most `MAX_AGE`.
pub fn check_fields(name: &str, email: &str, age: Option<u8>) -> (r: Result<(), UserError>)
    ensures
        r == check_spec(name@, email@, age),
{
    if name.unicode_len() == 0 {
        return Err(UserError::Validation(Invalid::EmptyName));
    }
    if !contains_at(email) {
        return Err(UserError::Validation(Invalid::MissingAt));
    }
    match age {
        Some(a) => {
            if a > MAX_AGE {
                return Err(UserError::Validation(Invalid::AgeOutOfRange));
            }
        },
        None => {},
    }
    Ok(())
}

/// The part of `email` between its first `@` and the next `@` (or the end),
/// or `None` where it holds no `@`.
pub fn email_domain(email: &str) -> (r: Option<&str>)
    ensures
        r.is_some() == domain_of(email@).is_some(),
        r.is_some() ==> r.unwrap()@ == domain_of(email@).unwrap(),
{
    let n = email.unicode_len();
    let i = find_at(email, 0);
    proof {
        assert(email@.skip(0) == email@);
    }
    if i >= n {
        return None;
    }
    let j = find_at(email, i + 1);
    proof {
        let rest = email@.skip(i + 1);
        lemma_first_at_bounds(rest);
        assert(email@.subrange(i + 1, j as int) == rest.take(first_at(rest)));
    }
    Some(email.substring_char(i + 1, j))
}

} // verus!
