use uebuild::archive::read_archive_entries;
use uebuild::config::{Config, Engine, Game};
use uebuild::errors::Error;
use uebuild::localization::{
    archive_file_name, build_po_archive, filter_cultures, mono_config_name, select_po_entries,
    ExportPOZip, Import, ImportPOZip, Localization, Update,
};
use uebuild::uproject::UProject;

fn test_config() -> Config {
    Config {
        engine_path: "C:/Engine".to_string(),
        editor_binary_path: "Binaries/Win64/UE4Editor-Win64-DebugGame.exe".to_string(),
        project_root: "C:/Proj".to_string(),
        project_name: "MyGame".to_string(),
        project_editor_target: None,
        project_client_target: None,
        project_server_target: None,
        project: UProject { engine_association: String::new(), plugins: Vec::new() },
        engine: Engine {
            default_map_server: None,
            default_map_game: None,
            mode_aliases: Vec::new(),
        },
        game: Game { maps_to_cook: Vec::new() },
    }
}

const BASE_CONFIG: &str = "[CommonSettings]\nSourcePath=Content/Localization/Game\nCulturesToGenerate=InvariantCulture=en\nCulturesToGenerate=InvariantCulture=fr\n";

#[test]
fn culture_filter_keeps_only_requested_language() {
    let filtered = filter_cultures(BASE_CONFIG, "fr").unwrap();
    assert_eq!(
        filtered.as_str(),
        "[CommonSettings]\nSourcePath=Content/Localization/Game\nCulturesToGenerate=InvariantCulture=fr\n"
    );
}

#[test]
fn culture_filter_rejects_absent_language() {
    let r = filter_cultures(BASE_CONFIG, "de");
    match r {
        Err(Error::UnsupportedCulture(m)) => {
            assert_eq!(m.as_str(), "Culture \"de\" is not supported.");
        },
        other => panic!("expected UnsupportedCulture, got {:?}", other),
    }
}

#[test]
fn stage_plan_without_language_uses_base_config() {
    let plan = Localization::plan_stage(&test_config(), "Game_Gather", None, None).unwrap();
    assert_eq!(plan.config_rel.as_str(), "Config/Localization/Game_Gather.ini");
    assert!(plan.temp.is_none());
}

#[test]
fn stage_plan_with_language_materializes_temporary_config() {
    let plan = Localization::plan_stage(
        &test_config(),
        "Game_Gather",
        Some(&"fr".to_string()),
        Some(BASE_CONFIG),
    )
    .unwrap();
    assert_eq!(plan.config_rel.as_str(), "Config/Localization/Game_Gather_fr.ini");
    let (abs, content) = plan.temp.unwrap();
    assert_eq!(abs.as_str(), "C:/Proj/Config/Localization/Game_Gather_fr.ini");
    assert!(content.contains("CulturesToGenerate=InvariantCulture=fr"));
    assert!(!content.contains("CulturesToGenerate=InvariantCulture=en"));
}

#[test]
fn stage_plan_with_absent_language_fails_and_writes_nothing() {
    let r = Localization::plan_stage(
        &test_config(),
        "Game_Gather",
        Some(&"de".to_string()),
        Some(BASE_CONFIG),
    );
    assert!(matches!(r, Err(Error::UnsupportedCulture(_))));
}

#[test]
fn gatherer_invocation_names_config_and_scc_flags() {
    let inv = Localization::make_command(&test_config(), "Config/Localization/Game_Gather.ini");
    assert_eq!(
        inv.program.as_str(),
        "C:/Engine/Binaries/Win64/UE4Editor-Win64-DebugGame.exe"
    );
    assert_eq!(inv.working_dir.as_deref(), Some("C:/Proj"));
    assert_eq!(
        inv.args,
        vec![
            "C:/Proj/MyGame.uproject".to_string(),
            "-run=GatherText".to_string(),
            "-config=Config/Localization/Game_Gather.ini".to_string(),
            "-EnableSCC -DisableSCCSubmit".to_string(),
            "-DisableSCCSubmit".to_string(),
        ]
    );
}

#[test]
fn cfg_ini_path_with_and_without_root() {
    assert_eq!(
        Localization::make_cfg_ini_path(Some("C:/Proj"), "Game_Export.ini").as_str(),
        "C:/Proj/Config/Localization/Game_Export.ini"
    );
    assert_eq!(
        Localization::make_cfg_ini_path(None, "Game_Export.ini").as_str(),
        "Config/Localization/Game_Export.ini"
    );
}

#[test]
fn mono_config_name_combines_base_and_language() {
    assert_eq!(mono_config_name("Game_Compile", "fr").as_str(), "Game_Compile_fr.ini");
}

#[test]
fn update_runs_gather_export_compile_in_order() {
    let stages = Update::stage_sequence();
    let names: Vec<&str> = stages.iter().map(|s| s.as_str()).collect();
    assert_eq!(names, vec!["Game_Gather", "Game_Export", "Game_Compile"]);
}

#[test]
fn import_source_path_comes_from_ini_property() {
    let path = Import::source_path_from_ini(BASE_CONFIG).unwrap();
    assert_eq!(path.as_str(), "Content/Localization/Game");
    assert!(Import::source_path_from_ini("Other=1\n").is_none());
}

#[test]
fn export_archive_contains_each_language_directory_and_po_file() {
    let langs = vec![
        ("en".to_string(), b"hello po".to_vec()),
        ("fr".to_string(), b"bonjour po".to_vec()),
    ];
    let bytes = build_po_archive(&langs).unwrap();

    let mut archive = zip::ZipArchive::new(std::io::Cursor::new(bytes)).unwrap();
    let mut names = Vec::new();
    for i in 0..archive.len() {
        names.push(archive.by_index(i).unwrap().name().to_string());
    }
    assert_eq!(names, vec!["en/", "en/Game.po", "fr/", "fr/Game.po"]);
    let mut en = Vec::new();
    std::io::Read::read_to_end(&mut archive.by_name("en/Game.po").unwrap(), &mut en).unwrap();
    assert_eq!(en, b"hello po".to_vec());
    let mut fr = Vec::new();
    std::io::Read::read_to_end(&mut archive.by_name("fr/Game.po").unwrap(), &mut fr).unwrap();
    assert_eq!(fr, b"bonjour po".to_vec());
}

#[test]
fn import_of_exported_archive_round_trips_contents() {
    let langs = vec![
        ("en".to_string(), b"hello po".to_vec()),
        ("fr".to_string(), b"bonjour po".to_vec()),
    ];
    let bytes = build_po_archive(&langs).unwrap();
    let entries = read_archive_entries(bytes).unwrap();
    let selected = select_po_entries(&entries);
    assert_eq!(selected, langs);
}

#[test]
fn import_skips_foreign_and_unsafe_entries() {
    let mut writer = zip::ZipWriter::new(std::io::Cursor::new(Vec::new()));
    let opts = zip::write::SimpleFileOptions::default();
    writer.start_file("Game.po", opts).unwrap();
    std::io::Write::write_all(&mut writer, b"rootless").unwrap();
    writer.start_file("de/Game.po", opts).unwrap();
    std::io::Write::write_all(&mut writer, b"hallo").unwrap();
    writer.start_file("de/Extra.txt", opts).unwrap();
    std::io::Write::write_all(&mut writer, b"junk").unwrap();
    let bytes = writer.finish().unwrap().into_inner();

    let entries = read_archive_entries(bytes).unwrap();
    let selected = select_po_entries(&entries);
    assert_eq!(selected, vec![("de".to_string(), b"hallo".to_vec())]);
}

#[test]
fn empty_po_content_round_trips() {
    let langs = vec![("eo".to_string(), Vec::new()), ("fr".to_string(), b"x".to_vec())];
    let bytes = build_po_archive(&langs).unwrap();
    let entries = read_archive_entries(bytes).unwrap();
    assert_eq!(select_po_entries(&entries), langs);
}

#[test]
fn duplicate_language_is_refused_by_the_archive() {
    let langs = vec![
        ("en".to_string(), b"one".to_vec()),
        ("en".to_string(), b"two".to_vec()),
    ];
    let r = build_po_archive(&langs);
    assert!(matches!(r, Err(Error::IoError(_))));
}

#[test]
fn opening_invalid_archive_bytes_is_an_io_error() {
    let r = read_archive_entries(b"not a zip archive".to_vec());
    assert!(matches!(r, Err(Error::IoError(_))));
}

#[test]
fn import_destination_is_language_directory_with_po_file() {
    let (dir, file) = ImportPOZip::po_destination("C:/Proj/Content/Localization/Game", "fr");
    assert_eq!(dir.as_str(), "C:/Proj/Content/Localization/Game/fr");
    assert_eq!(file.as_str(), "C:/Proj/Content/Localization/Game/fr/Game.po");
}

#[test]
fn export_paths_are_dated_and_rooted() {
    assert_eq!(archive_file_name("2021-06-01").as_str(), "Localization_2021-06-01.zip");
    let config = test_config();
    assert_eq!(
        ExportPOZip::content_root(&config).as_str(),
        "C:/Proj/Content/Localization/Game"
    );
    assert_eq!(
        ExportPOZip::archive_output_path(&config, "2021-06-01").as_str(),
        "C:/Proj/Content/Localization/Localization_2021-06-01.zip"
    );
    assert_eq!(ExportPOZip::po_file_path("root/en").as_str(), "root/en/Game.po");
}
