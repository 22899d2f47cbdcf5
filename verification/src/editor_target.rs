//! The editor `.target` descriptor: where the engine's launch binary lives.

use vstd::prelude::*;

verus! {

/// Prefix the engine writes in front of the launch path.
pub open spec fn engine_dir_prefix() -> Seq<char> {
    "$(EngineDir)/"@
}

#[derive(Clone, Debug)]
pub struct EditorTarget {
    pub binary_path: String,
}

impl EditorTarget {
    /// The launch path relative to the engine directory.
    pub fn binary_path(&self) -> (r: String)
        requires
            crate::strutil::starts_with(self.binary_path@, engine_dir_prefix()),
        ensures
            r@ == self.binary_path@.subrange(
                engine_dir_prefix().len() as int,
                self.binary_path@.len() as int,
            ),
    {
        proof {
            reveal_strlit("$(EngineDir)/");
        }
        let n = self.binary_path.as_str().unicode_len();
        self.binary_path.as_str().substring_char(13, n).to_owned()
    }
}

} // verus!
