//! Running a local play-in-separate-editor-process session, as a client or
//! a dedicated server.

use vstd::prelude::*;

use crate::config::{Config, Engine};
use crate::paths::{path_join, strip_ext};
use crate::process::ProcessInvocation;
use crate::strutil::{opt_view, views_of};
use crate::types::{AsUnrealStr, Configuration};

verus! {

/// Run a local play-in-editor instance of the project in a separate editor
/// process.
#[derive(Clone, Debug)]
pub struct RunPisep {
    /// The configuration the project should run in.
    pub configuration: Configuration,
    /// Run a dedicated server.
    pub server: bool,
    /// The map level to open when the game begins; defaults per the
    /// server/client role.
    pub level: Option<String>,
    /// The game-mode alias to run in the level.
    pub mode: Option<String>,
}

/// The default map an engine config provides, extension removed.
pub open spec fn engine_default_map(e: Engine) -> Option<Seq<char>> {
    match opt_view(e.default_map_server) {
        Some(s) => Some(strip_ext(s)),
        None => match opt_view(e.default_map_game) {
            Some(g) => Some(strip_ext(g)),
            None => None,
        },
    }
}

/// Which map the session opens: an explicitly supplied level first, else —
/// for a server — the configured default, else none.
pub open spec fn effective_map(
    level: Option<Seq<char>>,
    server: bool,
    engine: Engine,
) -> Option<Seq<char>> {
    match level {
        Some(l) => Some(l),
        None => if server {
            engine_default_map(engine)
        } else {
            None
        },
    }
}

/// The single level argument: the map (if any), then an optional game-mode
/// query, then the listen flag — concatenated into one token.
pub open spec fn level_arg_spec(map: Option<Seq<char>>, mode: Option<Seq<char>>) -> Seq<char> {
    (match map {
        Some(m) => m,
        None => Seq::empty(),
    }) + (match mode {
        Some(g) => "?game="@ + g,
        None => Seq::empty(),
    }) + "?listen"@
}

impl RunPisep {
    /// The composed level argument. It always exists, since the listen flag
    /// is always appended.
    pub fn get_level_arg(&self, config: &Config) -> (r: Option<String>)
        ensures
            r is Some,
            r->Some_0@ == level_arg_spec(
                effective_map(opt_view(self.level), self.server, config.engine),
                opt_view(self.mode),
            ),
    {
        let mut s = String::new();
        match &self.level {
            Some(l) => {
                s.append(l.as_str());
            },
            None => {
                if self.server {
                    match config.engine().default_map() {
                        Some(m) => {
                            s.append(m.as_str());
                        },
                        None => {},
                    }
                }
            },
        }
        match &self.mode {
            Some(g) => {
                s.append("?game=");
                s.append(g.as_str());
            },
            None => {},
        }
        s.append("?listen");
        proof {
            assert(s@ =~= level_arg_spec(
                effective_map(opt_view(self.level), self.server, config.engine),
                opt_view(self.mode),
            ));
        }
        Some(s)
    }

    /// The single invocation the session resolves to: the editor binary in
    /// the project root, handed the project file, the role flag, the level
    /// argument, the logging and messaging flags, and the run
    /// configuration.
    pub fn invocation(&self, config: &Config) -> (r: ProcessInvocation)
        ensures
            r.program@ == path_join(config.engine_path@, config.editor_binary_path@),
            r.working_dir == Some(config.project_root),
            views_of(r.args@) == seq![
                crate::paths::with_ext(
                    path_join(config.project_root@, config.project_name@),
                    "uproject"@,
                ),
                if self.server {
                    "-server"@
                } else {
                    "-game"@
                },
                level_arg_spec(
                    effective_map(opt_view(self.level), self.server, config.engine),
                    opt_view(self.mode),
                ),
                "-stdout"@,
                "-AllowStdOutLogVerbosity"@,
                "-NoEAC"@,
                "-messaging"@,
                "RunConfig="@ + self.configuration.ue_spec(),
                "-debug"@,
            ],
    {
        let mut inv = ProcessInvocation::new(
            config.editor_binary(),
            Some(config.project_root.clone()),
        );
        inv.arg(config.uproject_path());
        if self.server {
            inv.arg(String::from_str("-server"));
        } else {
            inv.arg(String::from_str("-game"));
        }
        match self.get_level_arg(config) {
            Some(arg) => {
                inv.arg(arg);
            },
            None => {},
        }
        inv.arg(String::from_str("-stdout"));
        inv.arg(String::from_str("-AllowStdOutLogVerbosity"));
        inv.arg(String::from_str("-NoEAC"));
        inv.arg(String::from_str("-messaging"));
        inv.arg(crate::strutil::concat2("RunConfig=", self.configuration.as_ue()));
        inv.arg(String::from_str("-debug"));
        proof {
            assert(views_of(inv.args@) =~= seq![
                crate::paths::with_ext(
                    path_join(config.project_root@, config.project_name@),
                    "uproject"@,
                ),
                if self.server {
                    "-server"@
                } else {
                    "-game"@
                },
                level_arg_spec(
                    effective_map(opt_view(self.level), self.server, config.engine),
                    opt_view(self.mode),
                ),
                "-stdout"@,
                "-AllowStdOutLogVerbosity"@,
                "-NoEAC"@,
                "-messaging"@,
                "RunConfig="@ + self.configuration.ue_spec(),
                "-debug"@,
            ]);
        }
        inv
    }
}

} // verus!
