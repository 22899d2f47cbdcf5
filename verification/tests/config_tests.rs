use uebuild::config::{
    cfg_file_name, custom_engine_path, editor_binary_from_target, editor_target_source,
    find_uproject, preinstalled_engine_path, server_target_source, Config, Configure, Engine,
    Game, Key, MissingValue,
};
use uebuild::cook::InvalidCookTarget;
use uebuild::editor_target::EditorTarget;
use uebuild::types::{Platform, Target};
use uebuild::uproject::{Plugin, UProject};

fn test_config() -> Config {
    Config {
        engine_path: "C:/Engine".to_string(),
        editor_binary_path: "Binaries/Win64/UE4Editor-Win64-DebugGame.exe".to_string(),
        project_root: "C:/Proj".to_string(),
        project_name: "MyGame".to_string(),
        project_editor_target: Some("MyGameEditor".to_string()),
        project_client_target: Some("MyGame".to_string()),
        project_server_target: None,
        project: UProject { engine_association: String::new(), plugins: Vec::new() },
        engine: Engine {
            default_map_server: None,
            default_map_game: None,
            mode_aliases: Vec::new(),
        },
        game: Game { maps_to_cook: Vec::new() },
    }
}

#[test]
fn uproject_path_and_editor_binary_are_rooted() {
    let config = test_config();
    assert_eq!(config.uproject_path().as_str(), "C:/Proj/MyGame.uproject");
    assert_eq!(
        config.editor_binary().as_str(),
        "C:/Engine/Binaries/Win64/UE4Editor-Win64-DebugGame.exe"
    );
}

#[test]
fn get_and_set_round_trip_every_key() {
    let mut config = test_config();
    let keys = [
        Key::EnginePath,
        Key::EditorBinaryPath,
        Key::ProjectRoot,
        Key::ProjectName,
        Key::ProjectEditorTarget,
        Key::ProjectClientTarget,
        Key::ProjectServerTarget,
    ];
    for (i, key) in keys.iter().enumerate() {
        let value = format!("value-{i}");
        config.set(key, value.clone());
        assert_eq!(config.get(key), Some(value));
    }
}

#[test]
fn get_project_target_reads_per_target_names() {
    let config = test_config();
    assert_eq!(config.get_project_target(Target::Editor).map(|s| s.as_str()), Some("MyGameEditor"));
    assert_eq!(config.get_project_target(Target::Client).map(|s| s.as_str()), Some("MyGame"));
    assert!(config.get_project_target(Target::Server).is_none());
}

#[test]
fn discovered_targets_follow_source_files() {
    let mut config = test_config();
    config.apply_discovered_targets(true, false);
    assert_eq!(config.project_client_target.as_deref(), Some("MyGame"));
    assert_eq!(config.project_editor_target.as_deref(), Some("MyGameEditor"));
    assert!(config.project_server_target.is_none());
}

#[test]
fn target_source_paths_sit_under_source() {
    assert_eq!(
        editor_target_source("C:/Proj", "MyGame").as_str(),
        "C:/Proj/Source/MyGameEditor.Target.cs"
    );
    assert_eq!(
        server_target_source("C:/Proj", "MyGame").as_str(),
        "C:/Proj/Source/MyGameServer.Target.cs"
    );
}

#[test]
fn cfg_file_name_uses_exe_stem() {
    assert_eq!(cfg_file_name("uebuild").as_str(), "uebuild-cfg.json");
}

#[test]
fn find_uproject_prefers_direct_match() {
    let direct = vec!["C:/Proj/MyGame.uproject".to_string()];
    let nested = vec!["C:/Proj/Game/Other.uproject".to_string()];
    assert_eq!(
        find_uproject(&direct, &nested).as_deref(),
        Some("C:/Proj/MyGame.uproject")
    );
    assert_eq!(
        find_uproject(&Vec::new(), &nested).as_deref(),
        Some("C:/Proj/Game/Other.uproject")
    );
    assert!(find_uproject(&Vec::new(), &Vec::new()).is_none());
}

#[test]
fn engine_path_candidates() {
    assert_eq!(
        preinstalled_engine_path("4.26").as_str(),
        "C:\\Program Files\\Epic Games\\UE_4.26\\Engine"
    );
    assert_eq!(custom_engine_path("C:/Code/Proj").as_str(), "C:/Code/Engine");
}

#[test]
fn editor_binary_falls_back_when_target_file_is_absent() {
    assert_eq!(
        editor_binary_from_target(None).as_str(),
        "Binaries/Win64/UE4Editor-Win64-DebugGame.exe"
    );
    let with_prefix = EditorTarget {
        binary_path: "$(EngineDir)/Binaries/Win64/UE4Editor.exe".to_string(),
    };
    assert_eq!(
        editor_binary_from_target(Some(&with_prefix)).as_str(),
        "Binaries/Win64/UE4Editor.exe"
    );
    let without_prefix = EditorTarget { binary_path: "Binaries/Linux/UE4Editor".to_string() };
    assert_eq!(
        editor_binary_from_target(Some(&without_prefix)).as_str(),
        "Binaries/Linux/UE4Editor"
    );
}

#[test]
fn configure_applies_only_full_key_value_pairs() {
    let mut config = test_config();
    let show_all = Configure { key: None, value: None };
    assert!(!show_all.apply(&mut config));
    let show_one = Configure { key: Some(Key::ProjectName), value: None };
    assert!(!show_one.apply(&mut config));
    assert_eq!(config.project_name.as_str(), "MyGame");
    let update = Configure { key: Some(Key::ProjectName), value: Some("Renamed".to_string()) };
    assert!(update.apply(&mut config));
    assert_eq!(config.project_name.as_str(), "Renamed");
}

#[test]
fn missing_value_and_invalid_target_messages() {
    let mv = MissingValue(Key::ProjectServerTarget);
    assert_eq!(mv.message().as_str(), "Missing config value for key ProjectServerTarget");
    assert_eq!(
        InvalidCookTarget.message().as_str(),
        "Cooking does not support the Editor target"
    );
}

#[test]
fn engine_config_parses_defaults_and_mode_aliases() {
    let text = "\
[/Script/EngineSettings.GameMapsSettings]\n\
GameDefaultMap=/Game/Maps/Entry.Entry\n\
ServerDefaultMap=/Game/Maps/Lobby.Lobby\n\
+GameModeClassAliases=(Name=\"TDM\",ClassName=\"/Game/Modes/TDM\")\n\
+GameModeClassAliases=(Name=\"tdm\",ClassName=\"/Game/Modes/TDM\")\n\
+GameModeClassAliases=(Name=\"ctf\",ClassName=\"/Game/Modes/CTF\")\n\
[OtherSection]\n\
ServerDefaultMap=/Game/Maps/Wrong\n";
    let engine = Engine::from_ini(text);
    assert_eq!(engine.default_map_server.as_deref(), Some("/Game/Maps/Lobby.Lobby"));
    assert_eq!(engine.default_map_game.as_deref(), Some("/Game/Maps/Entry.Entry"));
    // "TDM" is only the uppercase twin of "tdm", so it is dropped.
    assert_eq!(
        engine.mode_aliases,
        vec!["ctf".to_string(), "tdm".to_string()]
    );
    assert_eq!(engine.default_map().as_deref(), Some("/Game/Maps/Lobby"));
}

#[test]
fn engine_default_map_falls_back_to_game_map() {
    let engine = Engine {
        default_map_server: None,
        default_map_game: Some("/Game/Maps/Entry.Entry".to_string()),
        mode_aliases: Vec::new(),
    };
    assert_eq!(engine.default_map().as_deref(), Some("/Game/Maps/Entry"));
    let empty = Engine {
        default_map_server: None,
        default_map_game: None,
        mode_aliases: Vec::new(),
    };
    assert!(empty.default_map().is_none());
}

#[test]
fn game_config_parses_cookable_maps() {
    let text = "\
[/Script/UnrealEd.ProjectPackagingSettings]\n\
+MapsToCook=(FilePath=\"/Game/Maps/Arena\")\n\
+MapsToCook=(FilePath=\"/Game/Maps/Lobby\")\n";
    let game = Game::from_ini(text);
    assert_eq!(
        game.maps_to_cook,
        vec!["/Game/Maps/Arena".to_string(), "/Game/Maps/Lobby".to_string()]
    );
    let table = game.maps_by_name();
    assert_eq!(
        table,
        vec![
            ("Arena".to_string(), "/Game/Maps/Arena".to_string()),
            ("Lobby".to_string(), "/Game/Maps/Lobby".to_string()),
        ]
    );
    assert_eq!(game.resolve_map("Arena").as_deref(), Some("/Game/Maps/Arena.Arena"));
    assert!(game.resolve_map("Nowhere").is_none());
}

#[test]
fn later_map_with_same_name_wins() {
    let game = Game {
        maps_to_cook: vec!["/Old/Arena".to_string(), "/New/Arena".to_string()],
    };
    let table = game.maps_by_name();
    assert_eq!(table, vec![("Arena".to_string(), "/New/Arena".to_string())]);
    assert_eq!(game.resolve_map("Arena").as_deref(), Some("/New/Arena.Arena"));
}

#[test]
fn module_paths_cover_project_and_plugins() {
    let project = UProject {
        engine_association: "4.26".to_string(),
        plugins: vec![Plugin { name: "Voice".to_string() }, Plugin { name: "Stats".to_string() }],
    };
    assert_eq!(project.get_engine_association().map(|s| s.as_str()), Some("4.26"));
    assert_eq!(
        project.get_module_paths(Platform::Windows),
        vec![
            "Binaries/Win64/UE4Editor.modules".to_string(),
            "Plugins/Voice/Binaries/Win64/UE4Editor.modules".to_string(),
            "Plugins/Stats/Binaries/Win64/UE4Editor.modules".to_string(),
        ]
    );
    let bare = UProject { engine_association: String::new(), plugins: Vec::new() };
    assert!(bare.get_engine_association().is_none());
}

#[test]
fn editor_target_strips_engine_dir_prefix() {
    let t = EditorTarget { binary_path: "$(EngineDir)/Binaries/Win64/UE4Editor.exe".to_string() };
    assert_eq!(t.binary_path().as_str(), "Binaries/Win64/UE4Editor.exe");
}
