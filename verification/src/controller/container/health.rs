//! The health states that docker reports for a container.

use crate::text::{chars_of, lower};
use vstd::prelude::*;

verus! {

/// Represents the possible health states of a container.
#[derive(Debug, Clone, Copy, Hash, PartialEq, Eq, Structural)]
pub enum ContainerHealth {
    Healthy,
    UnHealthy,
    Starting,
    NoHealthcheck,
}

/// The health state that a state field of `docker inspect` names, compared without regard to
/// the case of its letters.
pub open spec fn health_of(field: Seq<char>) -> ContainerHealth {
    let f = lower(field);
    if f == "healthy"@ {
        ContainerHealth::Healthy
    } else if f == "unhealthy"@ {
        ContainerHealth::UnHealthy
    } else if f == "starting"@ {
        ContainerHealth::Starting
    } else {
        ContainerHealth::NoHealthcheck
    }
}

/// The health state field is read without regard to the case of its letters.
pub proof fn law_health_ignores_case(field: Seq<char>)
    ensures
        health_of(field) == health_of(lower(field)),
{
    assert(lower(lower(field)) =~= lower(field));
}

/// `lower(field) == word`, for a `word` in lower case.
pub(crate) fn lower_equals(field: &Vec<char>, word: &str) -> (res: bool)
    ensures
        res == (lower(field@) == word@),
{
    let w = chars_of(word);
    let l = crate::text::lower_range(field, 0, field.len());
    assert(field@.subrange(0, field@.len() as int) =~= field@);
    if l.len() != w.len() {
        return false;
    }
    let mut i: usize = 0;
    while i < l.len()
        invariant
            l.len() == w.len(),
            l@ == lower(field@),
            w@ == word@,
            i <= l.len(),
            forall|j: int| 0 <= j < i ==> l@[j] == w@[j],
        decreases l.len() - i,
    {
        if l[i] != w[i] {
            assert(l@[i as int] != w@[i as int]);
            return false;
        }
        i += 1;
    }
    assert(l@ =~= w@);
    true
}

/// The health state that a state field names.
pub(crate) fn health_from_chars(field: &Vec<char>) -> (res: ContainerHealth)
    ensures
        res == health_of(field@),
{
    if lower_equals(field, "healthy") {
        ContainerHealth::Healthy
    } else if lower_equals(field, "unhealthy") {
        ContainerHealth::UnHealthy
    } else if lower_equals(field, "starting") {
        ContainerHealth::Starting
    } else {
        ContainerHealth::NoHealthcheck
    }
}

impl ContainerHealth {
    /// The health state that `field` names: `healthy`, `unhealthy` or `starting` in any
    /// case of letters, and `None` for anything else.
    pub fn new(field: &str) -> (res: ContainerHealth)
        ensures
            res == health_of(field@),
    {
        health_from_chars(&chars_of(field))
    }
}

} // verus!
