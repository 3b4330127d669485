//! The identity of a signing key: a logical name and a derivation path.
use vstd::prelude::*;
use crate::bytes::{bytes_equal, copy_bytes};

verus! {

/// Selects one signing key at the backend. Two identities are the same key
/// exactly when their names and their paths agree element by element. An
/// identity does not change once it is made.
#[derive(Debug)]
pub struct KeyIdentity {
    name: String,
    derivation_path: Vec<Vec<u8>>,
}

/// The mathematical value of a `KeyIdentity`.
pub struct KeyIdentityView {
    pub name: Seq<char>,
    pub derivation_path: Seq<Seq<u8>>,
}

/// The path as a sequence of byte sequences.
pub open spec fn path_view(path: Seq<Vec<u8>>) -> Seq<Seq<u8>> {
    Seq::new(path.len(), |i: int| path[i]@)
}

impl View for KeyIdentity {
    type V = KeyIdentityView;

    closed spec fn view(&self) -> KeyIdentityView {
        KeyIdentityView { name: self.name@, derivation_path: path_view(self.derivation_path@) }
    }
}

/// A copy of a derivation path.
pub fn copy_path(path: &Vec<Vec<u8>>) -> (out: Vec<Vec<u8>>)
    ensures
        path_view(out@) == path_view(path@),
{
    let mut out: Vec<Vec<u8>> = Vec::new();
    let mut i: usize = 0;
    while i < path.len()
        invariant
            i <= path.len(),
            out.len() == i,
            forall|j: int| 0 <= j < i ==> out@[j]@ == path@[j]@,
        decreases path.len() - i,
    {
        out.push(copy_bytes(&path[i]));
        i += 1;
    }
    assert(path_view(out@) =~= path_view(path@));
    out
}

/// Whether two derivation paths agree element by element.
pub fn paths_equal(a: &Vec<Vec<u8>>, b: &Vec<Vec<u8>>) -> (same: bool)
    ensures
        same == (path_view(a@) == path_view(b@)),
{
    if a.len() != b.len() {
        assert(path_view(a@).len() != path_view(b@).len());
        return false;
    }
    let mut i: usize = 0;
    while i < a.len()
        invariant
            a.len() == b.len(),
            i <= a.len(),
            forall|j: int| 0 <= j < i ==> a@[j]@ == b@[j]@,
        decreases a.len() - i,
    {
        if !bytes_equal(&a[i], &b[i]) {
            assert(path_view(a@)[i as int] != path_view(b@)[i as int]);
            return false;
        }
        i += 1;
    }
    assert(path_view(a@) =~= path_view(b@));
    true
}

impl KeyIdentity {
    pub fn new(name: String, derivation_path: Vec<Vec<u8>>) -> (id: KeyIdentity)
        ensures
            id@ == (KeyIdentityView {
                name: name@,
                derivation_path: path_view(derivation_path@),
            }),
    {
        KeyIdentity { name, derivation_path }
    }

    /// The logical name of the key.
    pub fn name(&self) -> (name: &String)
        ensures
            name@ == self@.name,
    {
        &self.name
    }

    /// The derivation path, element by element.
    pub fn derivation_path(&self) -> (path: &Vec<Vec<u8>>)
        ensures
            path_view(path@) == self@.derivation_path,
    {
        &self.derivation_path
    }

    /// The identity of the test profile: the key `dfx_test_key` with an
    /// empty derivation path.
    pub fn test_profile() -> (id: KeyIdentity)
        ensures
            id@.name == "dfx_test_key"@,
            id@.derivation_path == Seq::<Seq<u8>>::empty(),
    {
        let id = KeyIdentity { name: "dfx_test_key".to_string(), derivation_path: Vec::new() };
        assert(id@.derivation_path =~= Seq::<Seq<u8>>::empty());
        id
    }

    /// Whether `self` and `other` select the same key.
    pub fn same_as(&self, other: &KeyIdentity) -> (same: bool)
        ensures
            same == (self@ == other@),
    {
        self.name == other.name && paths_equal(&self.derivation_path, &other.derivation_path)
    }
}

impl Clone for KeyIdentity {
    fn clone(&self) -> (id: KeyIdentity)
        ensures
            id@ == self@,
    {
        KeyIdentity { name: self.name.clone(), derivation_path: copy_path(&self.derivation_path) }
    }
}

impl PartialEq for KeyIdentity {
    fn eq(&self, other: &KeyIdentity) -> (same: bool) {
        self.same_as(other)
    }
}

impl Eq for KeyIdentity {}

impl vstd::std_specs::cmp::PartialEqSpecImpl for KeyIdentity {
    open spec fn obeys_eq_spec() -> bool {
        true
    }

    open spec fn eq_spec(&self, other: &KeyIdentity) -> bool {
        self@ == other@
    }
}

} // verus!
