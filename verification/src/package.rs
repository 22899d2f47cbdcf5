//! The package metadata the command-line surface presents.

use vstd::prelude::*;

verus! {

#[derive(Copy, Clone, Debug)]
pub struct Package {
    pub name: &'static str,
    pub version: &'static str,
    pub authors: &'static str,
    pub description: &'static str,
}

} // verus!
