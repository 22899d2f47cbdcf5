use uebuild::compile::Compile;
use uebuild::config::{Config, Engine, Game, Key, MissingValue};
use uebuild::cook::Cook;
use uebuild::errors::Error;
use uebuild::pisep::RunPisep;
use uebuild::project_files::UpdateProjectFiles;
use uebuild::release::ReleaseBinary;
use uebuild::run_editor::RunEditor;
use uebuild::types::{Configuration, Platform, Target};
use uebuild::uproject::UProject;

fn test_config() -> Config {
    Config {
        engine_path: "C:/Engine".to_string(),
        editor_binary_path: "Binaries/Win64/UE4Editor-Win64-DebugGame.exe".to_string(),
        project_root: "C:/Proj".to_string(),
        project_name: "MyGame".to_string(),
        project_editor_target: Some("MyGameEditor".to_string()),
        project_client_target: Some("MyGame".to_string()),
        project_server_target: Some("MyGameServer".to_string()),
        project: UProject { engine_association: String::new(), plugins: Vec::new() },
        engine: Engine {
            default_map_server: None,
            default_map_game: None,
            mode_aliases: Vec::new(),
        },
        game: Game { maps_to_cook: Vec::new() },
    }
}

#[test]
fn cook_rejects_editor_target_before_building_anything() {
    let cook = Cook {
        target: Target::Editor,
        platform: Platform::Windows,
        configuration: Configuration::Development,
        dest: "DeploymentBuilds".to_string(),
    };
    let r = cook.invocation(&test_config());
    assert!(matches!(r, Err(Error::InvalidTarget(_))));
}

#[test]
fn cook_client_invocation_has_exact_arguments() {
    let cook = Cook {
        target: Target::Client,
        platform: Platform::Windows,
        configuration: Configuration::Development,
        dest: "DeploymentBuilds".to_string(),
    };
    let inv = cook.invocation(&test_config()).unwrap();
    assert_eq!(inv.program.as_str(), "C:/Engine/Build/BatchFiles/RunUAT.bat");
    assert_eq!(inv.working_dir.as_deref(), Some("C:/Proj"));
    let expected: Vec<String> = [
        "-ScriptsForProject=\"C:/Proj/MyGame.uproject\"",
        "BuildCookRun",
        "-project=\"C:/Proj/MyGame.uproject\"",
        "-target=MyGame",
        "-installed",
        "-nop4",
        "-build",
        "-cook",
        "-stage",
        "-archive",
        "-archivedirectory=\"C:/Proj/DeploymentBuilds\"",
        "-ddc=InstalledDerivedDataBackendGraph",
        "-pak",
        "-prereqs",
        "-nodebuginfo",
        "-utf8output",
        "-targetplatform=Win64",
        "-clientconfig=Development",
    ]
    .iter()
    .map(|s| s.to_string())
    .collect();
    assert_eq!(inv.args, expected);
}

#[test]
fn cook_server_invocation_appends_server_arguments() {
    let cook = Cook {
        target: Target::Server,
        platform: Platform::Linux,
        configuration: Configuration::Shipping,
        dest: "Out".to_string(),
    };
    let inv = cook.invocation(&test_config()).unwrap();
    let tail: Vec<&str> = inv.args.iter().rev().take(6).map(|s| s.as_str()).collect();
    assert_eq!(
        tail,
        vec![
            "-Target=\"MyGameServer Linux Shipping\"",
            "-serverconfig=Shipping",
            "-platform=Linux",
            "-serverplatform=Linux",
            "-noclient",
            "-server",
        ]
    );
}

#[test]
fn cook_missing_target_name_is_missing_value() {
    let mut config = test_config();
    config.project_server_target = None;
    let cook = Cook {
        target: Target::Server,
        platform: Platform::Windows,
        configuration: Configuration::Development,
        dest: "Out".to_string(),
    };
    let r = cook.invocation(&config);
    assert!(matches!(
        r,
        Err(Error::MissingValue(MissingValue(Key::ProjectServerTarget)))
    ));
}

#[test]
fn compile_invocation_names_target_configuration_platform() {
    let compile = Compile {
        target: Target::Editor,
        platform: Platform::Windows,
        configuration: Configuration::DebugGame,
    };
    let inv = compile.invocation(&test_config()).unwrap();
    assert_eq!(inv.program.as_str(), "C:/Engine/Build/BatchFiles/Build.bat");
    assert_eq!(inv.working_dir.as_deref(), Some("C:/Proj"));
    assert_eq!(
        inv.args,
        vec!["MyGameEditor".to_string(), "DebugGame".to_string(), "Win64".to_string()]
    );
}

#[test]
fn compile_missing_target_is_missing_value() {
    let mut config = test_config();
    config.project_editor_target = None;
    let compile = Compile {
        target: Target::Editor,
        platform: Platform::Windows,
        configuration: Configuration::DebugGame,
    };
    assert!(matches!(
        compile.invocation(&config),
        Err(Error::MissingValue(MissingValue(Key::ProjectEditorTarget)))
    ));
}

#[test]
fn project_files_invocation_runs_generator_batch() {
    let inv = UpdateProjectFiles.invocation(&test_config());
    assert_eq!(inv.program.as_str(), "C:/Engine/Build/BatchFiles/GenerateProjectFiles.bat");
    assert_eq!(inv.working_dir.as_deref(), Some("C:/Proj"));
    assert!(inv.args.is_empty());
}

#[test]
fn run_editor_invocation_opens_the_project() {
    let inv = RunEditor.invocation(&test_config());
    assert_eq!(
        inv.program.as_str(),
        "C:/Engine/Binaries/Win64/UE4Editor-Win64-DebugGame.exe"
    );
    assert_eq!(
        inv.args,
        vec![
            "C:/Proj/MyGame.uproject".to_string(),
            "-debug".to_string(),
            "-stdout".to_string(),
            "-AllowStdOutLogVerbosity".to_string(),
        ]
    );
}

#[test]
fn pisep_level_arg_uses_explicit_level_and_mode() {
    let pisep = RunPisep {
        configuration: Configuration::DebugGame,
        server: false,
        level: Some("/Game/Maps/Arena.Arena".to_string()),
        mode: Some("tdm".to_string()),
    };
    let arg = pisep.get_level_arg(&test_config()).unwrap();
    assert_eq!(arg.as_str(), "/Game/Maps/Arena.Arena?game=tdm?listen");
}

#[test]
fn pisep_server_falls_back_to_default_map_without_extension() {
    let mut config = test_config();
    config.engine.default_map_server = Some("/Game/Maps/Lobby.Lobby".to_string());
    let pisep = RunPisep {
        configuration: Configuration::DebugGame,
        server: true,
        level: None,
        mode: None,
    };
    let arg = pisep.get_level_arg(&config).unwrap();
    assert_eq!(arg.as_str(), "/Game/Maps/Lobby?listen");
}

#[test]
fn pisep_client_without_level_still_listens() {
    let pisep = RunPisep {
        configuration: Configuration::DebugGame,
        server: false,
        level: None,
        mode: None,
    };
    let arg = pisep.get_level_arg(&test_config()).unwrap();
    assert_eq!(arg.as_str(), "?listen");
}

#[test]
fn pisep_invocation_flags_role_and_run_config() {
    let pisep = RunPisep {
        configuration: Configuration::Test,
        server: true,
        level: None,
        mode: None,
    };
    let inv = pisep.invocation(&test_config());
    assert_eq!(inv.args[0].as_str(), "C:/Proj/MyGame.uproject");
    assert_eq!(inv.args[1].as_str(), "-server");
    assert_eq!(inv.args[2].as_str(), "?listen");
    assert!(inv.args.contains(&"RunConfig=Test".to_string()));
    assert_eq!(inv.args.last().map(|s| s.as_str()), Some("-debug"));
}

#[test]
fn release_binary_builds_then_copies() {
    let rb = ReleaseBinary { name: "uebuild".to_string() };
    let invs = rb.invocations(&test_config(), "/src/tool");
    assert_eq!(invs.len(), 2);
    assert_eq!(invs[0].program.as_str(), "cargo");
    assert_eq!(invs[0].args, vec!["build".to_string(), "--release".to_string()]);
    assert_eq!(invs[1].program.as_str(), "cp");
    assert_eq!(
        invs[1].args,
        vec![
            "./target/release/uebuild.exe".to_string(),
            "C:/Proj/uebuild.exe".to_string(),
        ]
    );
}
