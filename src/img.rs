use vstd::prelude::*;
use vstd::string::StringExecFns;

verus! {

/// An image asset, named by its file name.
pub struct Image {
    pub filename: String,
}

impl Image {
    /// The path the asset is loaded from: the file name under `./assets/`.
    pub fn path(&self) -> (r: String)
        ensures
            r@ == "./assets/"@ + self.filename@,
    {
        "./assets/".to_owned().concat(self.filename.as_str())
    }
}

} // verus!
