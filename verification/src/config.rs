//! The daemon's configuration file, as far as its content goes.

use vstd::prelude::*;

verus! {

/// Where the models are.
#[derive(Debug, PartialEq, Eq)]
pub struct Config {
    pub model_dir: String,
}

impl Config {
    pub fn new(model_dir: String) -> (c: Self)
        ensures
            c.model_dir == model_dir,
    {
        Config { model_dir }
    }

    #[must_use]
    pub fn model_dir(&self) -> (dir: &str)
        ensures
            dir@ == self.model_dir@,
    {
        self.model_dir.as_str()
    }
}

impl Clone for Config {
    fn clone(&self) -> (c: Self)
        ensures
            c == *self,
    {
        Config { model_dir: self.model_dir.clone() }
    }
}

} // verus!
