use vstd::prelude::*;

verus! {

/// An account of the credential store: a name and its numeric code.
pub struct User {
    pub name: String,
    pub code: u32,
}

impl View for User {
    type V = (Seq<char>, u32);

    open spec fn view(&self) -> (Seq<char>, u32) {
        (self.name@, self.code)
    }
}

impl User {
    pub fn new(name: &str, code: u32) -> (r: User)
        ensures
            r@ == (name@, code),
    {
        User { name: name.to_owned(), code }
    }

    pub fn get_name(&self) -> (r: &str)
        ensures
            r@ == self.name@,
    {
        self.name.as_str()
    }

    pub fn get_code(&self) -> (r: &u32)
        ensures
            *r == self.code,
    {
        &self.code
    }
}

} // verus!
