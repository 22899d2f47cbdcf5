//! The cook operation: packaging the project to run standalone.
//!
//! Cooking is only meaningful for client and server targets; requesting it
//! for the editor target fails fast, before any invocation is built.

use vstd::prelude::*;

use crate::config::{target_key_spec, Config, MissingValue};
use crate::errors::Error;
use crate::paths::path_join;
use crate::process::ProcessInvocation;
use crate::strutil::{concat2, concat3, views_of};
use crate::types::{AsUnrealStr, Configuration, Platform, Target};

verus! {

/// The cook operation was requested for the editor target.
#[derive(Copy, Clone, Debug, PartialEq, Eq, Structural)]
pub struct InvalidCookTarget;

impl InvalidCookTarget {
    pub fn message(&self) -> (r: String)
        ensures
            r@ == "Cooking does not support the Editor target"@,
    {
        String::from_str("Cooking does not support the Editor target")
    }
}

/// Cooks the project to run standalone.
#[derive(Clone, Debug)]
pub struct Cook {
    pub target: Target,
    pub platform: Platform,
    pub configuration: Configuration,
    /// Relative path in the project root to output the cooked build to.
    pub dest: String,
}

/// The arguments every cook run passes, whatever its target.
pub open spec fn cook_common_args(
    uproject: Seq<char>,
    target_name: Seq<char>,
    deploy_dir: Seq<char>,
) -> Seq<Seq<char>> {
    seq![
        "-ScriptsForProject=\""@ + uproject + "\""@,
        "BuildCookRun"@,
        "-project=\""@ + uproject + "\""@,
        "-target="@ + target_name,
        "-installed"@,
        "-nop4"@,
        "-build"@,
        "-cook"@,
        "-stage"@,
        "-archive"@,
        "-archivedirectory=\""@ + deploy_dir + "\""@,
        "-ddc=InstalledDerivedDataBackendGraph"@,
        "-pak"@,
        "-prereqs"@,
        "-nodebuginfo"@,
        "-utf8output"@,
    ]
}

/// The arguments a client cook appends.
pub open spec fn cook_client_args(plat: Seq<char>, cfg: Seq<char>) -> Seq<Seq<char>> {
    seq!["-targetplatform="@ + plat, "-clientconfig="@ + cfg]
}

/// The arguments a server cook appends.
pub open spec fn cook_server_args(
    target_name: Seq<char>,
    plat: Seq<char>,
    cfg: Seq<char>,
) -> Seq<Seq<char>> {
    seq![
        "-server"@,
        "-noclient"@,
        "-serverplatform="@ + plat,
        "-platform="@ + plat,
        "-serverconfig="@ + cfg,
        "-Target=\""@ + target_name + " "@ + plat + " "@ + cfg + "\""@,
    ]
}

impl Cook {
    /// The single invocation a cook resolves to. The editor target is
    /// rejected with `InvalidTarget` before anything is built; a target
    /// whose build name was never discovered is rejected with
    /// `MissingValue`; otherwise the `RunUAT.bat` invocation is returned
    /// with the exact argument list for the target kind.
    pub fn invocation(&self, config: &Config) -> (r: Result<ProcessInvocation, Error>)
        ensures
            self.target == Target::Editor ==> r == Err::<ProcessInvocation, Error>(
                Error::InvalidTarget(InvalidCookTarget),
            ),
            self.target != Target::Editor && config.target_spec(self.target) is None ==> r
                == Err::<ProcessInvocation, Error>(
                Error::MissingValue(MissingValue(target_key_spec(self.target))),
            ),
            self.target != Target::Editor && config.target_spec(self.target) is Some ==> ({
                let uproject = crate::paths::with_ext(
                    path_join(config.project_root@, config.project_name@),
                    "uproject"@,
                );
                let target_name = config.target_spec(self.target)->Some_0@;
                let deploy = path_join(config.project_root@, self.dest@);
                let common = cook_common_args(uproject, target_name, deploy);
                &&& r is Ok
                &&& r->Ok_0.program@ == path_join(
                    config.engine_path@,
                    "Build/BatchFiles/RunUAT.bat"@,
                )
                &&& r->Ok_0.working_dir == Some(config.project_root)
                &&& (self.target == Target::Client ==> views_of(r->Ok_0.args@) == common
                    + cook_client_args(
                    self.platform.ue_spec(),
                    self.configuration.ue_spec(),
                ))
                &&& (self.target == Target::Server ==> views_of(r->Ok_0.args@) == common
                    + cook_server_args(
                    target_name,
                    self.platform.ue_spec(),
                    self.configuration.ue_spec(),
                ))
            }),
    {
        if matches!(self.target, Target::Editor) {
            return Err(Error::InvalidTarget(InvalidCookTarget));
        }
        let target_name: String = match config.get_project_target(self.target) {
            Some(n) => n.clone(),
            None => {
                return Err(Error::MissingValue(MissingValue(crate::config::target_key(
                    self.target,
                ))));
            },
        };
        let uat = crate::paths::join(config.engine_path.as_str(), "Build/BatchFiles/RunUAT.bat");
        let uproject = config.uproject_path();
        let deploy = crate::paths::join(config.project_root.as_str(), self.dest.as_str());
        let mut inv = ProcessInvocation::new(uat, Some(config.project_root.clone()));
        inv.arg(concat3("-ScriptsForProject=\"", uproject.as_str(), "\""));
        inv.arg(String::from_str("BuildCookRun"));
        inv.arg(concat3("-project=\"", uproject.as_str(), "\""));
        inv.arg(concat2("-target=", target_name.as_str()));
        inv.arg(String::from_str("-installed"));
        inv.arg(String::from_str("-nop4"));
        inv.arg(String::from_str("-build"));
        inv.arg(String::from_str("-cook"));
        inv.arg(String::from_str("-stage"));
        inv.arg(String::from_str("-archive"));
        inv.arg(concat3("-archivedirectory=\"", deploy.as_str(), "\""));
        inv.arg(String::from_str("-ddc=InstalledDerivedDataBackendGraph"));
        inv.arg(String::from_str("-pak"));
        inv.arg(String::from_str("-prereqs"));
        inv.arg(String::from_str("-nodebuginfo"));
        inv.arg(String::from_str("-utf8output"));
        let plat = self.platform.as_ue();
        let cfg = self.configuration.as_ue();
        match self.target {
            Target::Client => {
                inv.arg(concat2("-targetplatform=", plat));
                inv.arg(concat2("-clientconfig=", cfg));
                proof {
                    assert(views_of(inv.args@) =~= cook_common_args(
                        uproject@,
                        target_name@,
                        deploy@,
                    ) + cook_client_args(self.platform.ue_spec(), self.configuration.ue_spec()));
                }
            },
            Target::Server => {
                inv.arg(String::from_str("-server"));
                inv.arg(String::from_str("-noclient"));
                inv.arg(concat2("-serverplatform=", plat));
                inv.arg(concat2("-platform=", plat));
                inv.arg(concat2("-serverconfig=", cfg));
                let mut t = String::from_str("-Target=\"");
                t.append(target_name.as_str());
                t.append(" ");
                t.append(plat);
                t.append(" ");
                t.append(cfg);
                t.append("\"");
                inv.arg(t);
                proof {
                    assert(views_of(inv.args@) =~= cook_common_args(
                        uproject@,
                        target_name@,
                        deploy@,
                    ) + cook_server_args(
                        target_name@,
                        self.platform.ue_spec(),
                        self.configuration.ue_spec(),
                    ));
                }
            },
            Target::Editor => {
                proof {
                    assert(false);
                }
            },
        }
        Ok(inv)
    }
}

} // verus!
