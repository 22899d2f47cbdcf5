//! Building this tool itself in release mode and copying the binary into
//! the project root.

use vstd::prelude::*;

use crate::config::Config;
use crate::paths::{path_join, with_ext};
use crate::process::ProcessInvocation;
use crate::strutil::views_of;

verus! {

/// Compile the tool as a release binary and copy it to the project's root
/// directory.
#[derive(Clone, Debug)]
pub struct ReleaseBinary {
    pub name: String,
}

impl ReleaseBinary {
    /// The two invocations the operation runs in order: the release build,
    /// then the copy of the built binary to the project root under the
    /// requested name, both from the tool's own working directory.
    pub fn invocations(&self, config: &Config, cwd: &str) -> (r: Vec<ProcessInvocation>)
        ensures
            r@.len() == 2,
            r@[0].program@ == "cargo"@,
            r@[0].working_dir is Some && r@[0].working_dir->Some_0@ == cwd@,
            views_of(r@[0].args@) == seq!["build"@, "--release"@],
            r@[1].program@ == "cp"@,
            r@[1].working_dir is Some && r@[1].working_dir->Some_0@ == cwd@,
            views_of(r@[1].args@) == seq![
                "./target/release/uebuild.exe"@,
                with_ext(path_join(config.project_root@, self.name@), "exe"@),
            ],
    {
        let out_base = crate::paths::join(config.project_root.as_str(), self.name.as_str());
        let out_path = crate::paths::replace_extension(out_base.as_str(), "exe");

        let mut build = ProcessInvocation::new(String::from_str("cargo"), Some(cwd.to_owned()));
        build.arg(String::from_str("build"));
        build.arg(String::from_str("--release"));
        proof {
            assert(views_of(build.args@) =~= seq!["build"@, "--release"@]);
        }

        let mut copy = ProcessInvocation::new(String::from_str("cp"), Some(cwd.to_owned()));
        copy.arg(String::from_str("./target/release/uebuild.exe"));
        copy.arg(out_path);
        proof {
            assert(views_of(copy.args@) =~= seq![
                "./target/release/uebuild.exe"@,
                with_ext(path_join(config.project_root@, self.name@), "exe"@),
            ]);
        }

        let mut r: Vec<ProcessInvocation> = Vec::new();
        r.push(build);
        r.push(copy);
        r
    }
}

} // verus!
