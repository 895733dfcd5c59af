use vstd::prelude::*;

verus! {

/// A player's identity: a display name and a numeric code.
pub struct Player {
    pub name: String,
    pub code: u32,
}

impl View for Player {
    type V = (Seq<char>, u32);

    open spec fn view(&self) -> (Seq<char>, u32) {
        (self.name@, self.code)
    }
}

impl Player {
    pub fn new(name: &str, code: u32) -> (r: Player)
        ensures
            r@ == (name@, code),
    {
        Player { name: name.to_owned(), code }
    }
}

impl PartialEq for Player {
    fn eq(&self, other: &Player) -> (r: bool)
        ensures
            r == (self@ == other@),
    {
        self.name == other.name && self.code == other.code
    }
}

impl vstd::std_specs::cmp::PartialEqSpecImpl for Player {
    open spec fn obeys_eq_spec() -> bool {
        true
    }

    open spec fn eq_spec(&self, other: &Player) -> bool {
        self@ == other@
    }
}

impl Eq for Player {}

} // verus!
