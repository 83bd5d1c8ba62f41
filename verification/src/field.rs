use vstd::prelude::*;
use vstd::string::StringExecFns;

verus! {

/// A named row of a form: a label `name:` above what `callback` shows.
pub struct Field<F> {
    pub name: String,
    pub callback: F,
}

impl<F> Field<F> {
    /// A field with the given name and contents.
    pub fn new(name: String, callback: F) -> (res: Self)
        ensures
            res.name@ == name@,
            res.callback == callback,
    {
        Field { name, callback }
    }

    /// The label shown above the contents: the name followed by a colon.
    pub fn label(&self) -> (res: String)
        ensures
            res@ == self.name@.push(':'),
    {
        let mut s = self.name.clone();
        s.append(":");
        proof {
            reveal_strlit(":");
        }
        assert(s@ =~= self.name@.push(':'));
        s
    }
}

} // verus!
