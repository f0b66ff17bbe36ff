//! The name of a docker container.

use vstd::prelude::*;
use vstd::std_specs::cmp::PartialEqSpec;

verus! {

/// The name of a docker container, as `docker ps` and `docker inspect` print it.
#[derive(Debug, Hash, Eq, PartialOrd, Ord)]
pub struct ContainerName(String);

impl View for ContainerName {
    type V = Seq<char>;

    closed spec fn view(&self) -> Seq<char> {
        self.0@
    }
}

impl ContainerName {
    /// The container name `name_str`.
    pub fn new(name_str: &str) -> (res: ContainerName)
        ensures
            res@ == name_str@,
    {
        ContainerName(String::from_str(name_str))
    }

    /// The container name held in `name`.
    pub fn from_string(name: String) -> (res: ContainerName)
        ensures
            res@ == name@,
    {
        ContainerName(name)
    }

    /// The name as text.
    pub fn as_str(&self) -> (res: &str)
        ensures
            res@ == self@,
    {
        self.0.as_str()
    }

    /// The name as an owned `String`, as it is displayed.
    pub fn to_string(&self) -> (res: String)
        ensures
            res@ == self@,
    {
        self.0.clone()
    }

    /// Two names are the same text.
    pub fn same_as(&self, other: &ContainerName) -> (res: bool)
        ensures
            res == (self@ == other@),
    {
        self.0 == other.0
    }
}

/// Two names with the same text are equal by `==`: a name built from a `String`
/// (`from_string`, `From`) is equal to the one built by `new` from the same characters.
pub proof fn law_same_text_same_name(a: ContainerName, b: ContainerName)
    requires
        a@ == b@,
    ensures
        a.eq_spec(&b),
{
}

impl Clone for ContainerName {
    fn clone(&self) -> (res: Self)
        ensures
            res@ == self@,
    {
        ContainerName(self.0.clone())
    }
}

impl PartialEq for ContainerName {
    fn eq(&self, other: &Self) -> (res: bool) {
        self.0 == other.0
    }
}

impl vstd::std_specs::cmp::PartialEqSpecImpl for ContainerName {
    open spec fn obeys_eq_spec() -> bool {
        true
    }

    open spec fn eq_spec(&self, other: &Self) -> bool {
        self@ == other@
    }
}

impl AsRef<str> for ContainerName {
    fn as_ref(&self) -> (res: &str)
        ensures
            res@ == self@,
    {
        self.0.as_str()
    }
}

impl From<String> for ContainerName {
    fn from(value: String) -> (res: Self)
        ensures
            res@ == value@,
    {
        ContainerName(value)
    }
}

impl vstd::std_specs::convert::FromSpecImpl<String> for ContainerName {
    open spec fn obeys_from_spec() -> bool {
        true
    }

    closed spec fn from_spec(v: String) -> Self {
        ContainerName(v)
    }
}

} // verus!
