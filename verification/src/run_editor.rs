//! Opening the project in the engine's editor.

use vstd::prelude::*;

use crate::config::Config;
use crate::paths::path_join;
use crate::process::ProcessInvocation;
use crate::strutil::views_of;

verus! {

/// Opens the uproject in the editor.
#[derive(Clone, Debug)]
pub struct RunEditor;

impl RunEditor {
    /// The single invocation the operation resolves to: the editor binary
    /// in the project root, handed the project file and logging flags.
    pub fn invocation(&self, config: &Config) -> (r: ProcessInvocation)
        ensures
            r.program@ == path_join(config.engine_path@, config.editor_binary_path@),
            r.working_dir == Some(config.project_root),
            views_of(r.args@) == seq![
                crate::paths::with_ext(
                    path_join(config.project_root@, config.project_name@),
                    "uproject"@,
                ),
                "-debug"@,
                "-stdout"@,
                "-AllowStdOutLogVerbosity"@,
            ],
    {
        let mut inv = ProcessInvocation::new(
            config.editor_binary(),
            Some(config.project_root.clone()),
        );
        inv.arg(config.uproject_path());
        inv.arg(String::from_str("-debug"));
        inv.arg(String::from_str("-stdout"));
        inv.arg(String::from_str("-AllowStdOutLogVerbosity"));
        proof {
            assert(views_of(inv.args@) =~= seq![
                crate::paths::with_ext(
                    path_join(config.project_root@, config.project_name@),
                    "uproject"@,
                ),
                "-debug"@,
                "-stdout"@,
                "-AllowStdOutLogVerbosity"@,
            ]);
        }
        inv
    }
}

} // verus!
