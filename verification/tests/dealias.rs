use uebuild::compile::fixup_module_plan;
use uebuild::editor_modules::BinaryModule;

fn manifest(entries: &[(&str, &str)]) -> BinaryModule {
    BinaryModule {
        build_id: "build-123".to_string(),
        modules: entries.iter().map(|(m, b)| (m.to_string(), b.to_string())).collect(),
    }
}

#[test]
fn misnamed_binary_gets_dll_and_pdb_rename() {
    let mut m = manifest(&[("Core", "UE4Editor-Core-1234.dll")]);
    let plan = m.dealias();
    assert_eq!(
        plan,
        vec![
            ("UE4Editor-Core-1234.dll".to_string(), "UE4Editor-Core.dll".to_string()),
            ("UE4Editor-Core-1234.pdb".to_string(), "UE4Editor-Core.pdb".to_string()),
        ]
    );
    assert_eq!(m.modules, vec![("Core".to_string(), "UE4Editor-Core.dll".to_string())]);
    assert_eq!(m.build_id.as_str(), "build-123");
}

#[test]
fn correctly_named_manifest_is_a_no_op() {
    let mut m = manifest(&[("Core", "UE4Editor-Core.dll"), ("Game", "UE4Editor-Game.dll")]);
    let before = m.modules.clone();
    let plan = m.dealias();
    assert!(plan.is_empty());
    assert_eq!(m.modules, before);
}

#[test]
fn dealias_twice_is_idempotent() {
    let mut m = manifest(&[("Core", "UE4Editor-Core-42.dll"), ("Game", "UE4Editor-Game.dll")]);
    let first = m.dealias();
    assert_eq!(first.len(), 2);
    let after_first = m.modules.clone();
    let second = m.dealias();
    assert!(second.is_empty());
    assert_eq!(m.modules, after_first);
}

#[test]
fn pdb_renames_match_dll_renames_in_count() {
    let mut m = manifest(&[
        ("Core", "UE4Editor-Core-1.dll"),
        ("Game", "UE4Editor-Game.dll"),
        ("Net", "UE4Editor-Net-9.dll"),
        ("Audio", "Audio.dll"),
    ]);
    let plan = m.dealias();
    let dll = plan.iter().filter(|p| p.1.ends_with(".dll")).count();
    let pdb = plan.iter().filter(|p| p.1.ends_with(".pdb")).count();
    assert_eq!(dll, 3);
    assert_eq!(pdb, dll);
}

#[test]
fn fixup_plan_checks_out_manifest_and_targets_and_resolves_moves() {
    let plan = vec![
        ("Old.dll".to_string(), "UE4Editor-Core.dll".to_string()),
        ("Old.pdb".to_string(), "UE4Editor-Core.pdb".to_string()),
    ];
    let (checkout, moves) = fixup_module_plan("proj/Binaries/Win64/UE4Editor.modules", &plan);
    assert_eq!(
        checkout,
        vec![
            "proj/Binaries/Win64/UE4Editor.modules".to_string(),
            "proj/Binaries/Win64/Old.dll".to_string(),
            "proj/Binaries/Win64/UE4Editor-Core.dll".to_string(),
            "proj/Binaries/Win64/Old.pdb".to_string(),
            "proj/Binaries/Win64/UE4Editor-Core.pdb".to_string(),
        ]
    );
    assert_eq!(
        moves,
        vec![
            (
                "proj/Binaries/Win64/Old.dll".to_string(),
                "proj/Binaries/Win64/UE4Editor-Core.dll".to_string()
            ),
            (
                "proj/Binaries/Win64/Old.pdb".to_string(),
                "proj/Binaries/Win64/UE4Editor-Core.pdb".to_string()
            ),
        ]
    );
}

#[test]
fn checkout_invocation_uses_windows_paths() {
    let files = vec!["a/b.dll".to_string(), "a/b.pdb".to_string()];
    let inv = uebuild::compile::checkout_invocation("root", &files);
    assert_eq!(inv.program.as_str(), "p4.exe");
    assert_eq!(inv.working_dir.as_deref(), Some("root"));
    assert_eq!(inv.args, vec!["edit".to_string(), "a\\b.dll".to_string(), "a\\b.pdb".to_string()]);
}

#[test]
fn make_writable_invocation_shape() {
    let inv = uebuild::compile::make_writable_invocation("x/y.dll");
    assert_eq!(inv.program.as_str(), "chmod");
    assert!(inv.working_dir.is_none());
    assert_eq!(inv.args, vec!["777".to_string(), "x/y.dll".to_string()]);
}
