use vstd::prelude::*;

verus! {

/// An account identity, held as the text form of its address.
#[derive(Clone, Debug)]
pub struct Identity {
    key: String,
}

impl View for Identity {
    type V = Seq<char>;

    closed spec fn view(&self) -> Seq<char> {
        self.key@
    }
}

impl Identity {
    pub fn new(key: String) -> (r: Identity)
        ensures
            r@ == key@,
    {
        Identity { key }
    }

    /// The address text of this identity.
    pub fn as_text(&self) -> (r: &String)
        ensures
            r@ == self@,
    {
        &self.key
    }

    /// Whether both identities name the same account.
    pub fn same_as(&self, other: &Identity) -> (r: bool)
        ensures
            r == (self@ == other@),
    {
        self.key == other.key
    }

    /// A copy of this identity.
    pub fn duplicate(&self) -> (r: Identity)
        ensures
            r == *self,
    {
        Identity { key: self.key.clone() }
    }
}

} // verus!
