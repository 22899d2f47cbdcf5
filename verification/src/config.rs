//! The resolved per-run configuration: paths to the engine, the project and
//! its binaries, the per-target build names, and the engine/game settings
//! read from the project's INI files.
//!
//! The configuration is built once at startup by the surrounding program and
//! passed by value into every operation; nothing here consults global state.

use vstd::prelude::*;

use crate::editor_target::{engine_dir_prefix, EditorTarget};
use crate::ini::{section_value, section_values, section_values_spec};
use crate::paths::{parent_of, path_join, strip_ext};
use crate::strutil::{
    concat3, ffind, lower_of, opt_view, sort_strings, starts_with, str_eq, str_find_char,
    str_starts_with, to_lowercase, vec_contains_str, views_of,
};
use crate::uproject::UProject;

verus! {

/// An identifier for every supported per-user setting.
#[derive(Copy, Clone, Debug, PartialEq, Eq, Structural)]
pub enum Key {
    /// The absolute path to the engine; the directory is expected to contain
    /// `Build/BatchFiles/`.
    EnginePath,
    EditorBinaryPath,
    /// The absolute path to the directory holding the `.uproject` file.
    ProjectRoot,
    /// The name of the `.uproject` file, without the suffix.
    ProjectName,
    /// The name of the `.target.cs` file for building the editor.
    ProjectEditorTarget,
    /// The name of the `.target.cs` file for building a client.
    ProjectClientTarget,
    /// The name of the `.target.cs` file for building a dedicated server.
    ProjectServerTarget,
}

pub open spec fn key_name_spec(k: Key) -> Seq<char> {
    match k {
        Key::EnginePath => "EnginePath"@,
        Key::EditorBinaryPath => "EditorBinaryPath"@,
        Key::ProjectRoot => "ProjectRoot"@,
        Key::ProjectName => "ProjectName"@,
        Key::ProjectEditorTarget => "ProjectEditorTarget"@,
        Key::ProjectClientTarget => "ProjectClientTarget"@,
        Key::ProjectServerTarget => "ProjectServerTarget"@,
    }
}

pub fn key_name(k: Key) -> (r: &'static str)
    ensures
        r@ == key_name_spec(k),
{
    match k {
        Key::EnginePath => "EnginePath",
        Key::EditorBinaryPath => "EditorBinaryPath",
        Key::ProjectRoot => "ProjectRoot",
        Key::ProjectName => "ProjectName",
        Key::ProjectEditorTarget => "ProjectEditorTarget",
        Key::ProjectClientTarget => "ProjectClientTarget",
        Key::ProjectServerTarget => "ProjectServerTarget",
    }
}

/// The key under which each build target's name is stored.
pub open spec fn target_key_spec(t: crate::types::Target) -> Key {
    match t {
        crate::types::Target::Editor => Key::ProjectEditorTarget,
        crate::types::Target::Client => Key::ProjectClientTarget,
        crate::types::Target::Server => Key::ProjectServerTarget,
    }
}

pub fn target_key(t: crate::types::Target) -> (k: Key)
    ensures
        k == target_key_spec(t),
{
    match t {
        crate::types::Target::Editor => Key::ProjectEditorTarget,
        crate::types::Target::Client => Key::ProjectClientTarget,
        crate::types::Target::Server => Key::ProjectServerTarget,
    }
}

/// A required configuration key was never resolved.
#[derive(Copy, Clone, Debug, PartialEq, Eq, Structural)]
pub struct MissingValue(pub Key);

impl MissingValue {
    pub fn message(&self) -> (r: String)
        ensures
            r@ == "Missing config value for key "@ + key_name_spec(self.0),
    {
        crate::strutil::concat2("Missing config value for key ", key_name(self.0))
    }
}

/// Everything an operation may consult, resolved once per run.
#[derive(Clone, Debug)]
pub struct Config {
    pub engine_path: String,
    pub editor_binary_path: String,
    pub project_root: String,
    pub project_name: String,
    pub project_editor_target: Option<String>,
    pub project_client_target: Option<String>,
    pub project_server_target: Option<String>,
    pub project: UProject,
    pub engine: Engine,
    pub game: Game,
}

impl Config {
    pub open spec fn get_spec(&self, key: Key) -> Option<Seq<char>> {
        match key {
            Key::EnginePath => Some(self.engine_path@),
            Key::EditorBinaryPath => Some(self.editor_binary_path@),
            Key::ProjectRoot => Some(self.project_root@),
            Key::ProjectName => Some(self.project_name@),
            Key::ProjectEditorTarget => opt_view(self.project_editor_target),
            Key::ProjectClientTarget => opt_view(self.project_client_target),
            Key::ProjectServerTarget => opt_view(self.project_server_target),
        }
    }

    /// The current value of one key, if it was ever resolved.
    pub fn get(&self, key: &Key) -> (r: Option<String>)
        ensures
            opt_view(r) == self.get_spec(*key),
    {
        match key {
            Key::EnginePath => Some(self.engine_path.clone()),
            Key::EditorBinaryPath => Some(self.editor_binary_path.clone()),
            Key::ProjectRoot => Some(self.project_root.clone()),
            Key::ProjectName => Some(self.project_name.clone()),
            Key::ProjectEditorTarget => match &self.project_editor_target {
                Some(s) => Some(s.clone()),
                None => None,
            },
            Key::ProjectClientTarget => match &self.project_client_target {
                Some(s) => Some(s.clone()),
                None => None,
            },
            Key::ProjectServerTarget => match &self.project_server_target {
                Some(s) => Some(s.clone()),
                None => None,
            },
        }
    }

    /// The configuration with one key overwritten and every other field
    /// untouched.
    pub open spec fn set_spec(prev: Config, key: Key, value: String) -> Config {
        match key {
            Key::EnginePath => (Config { engine_path: value, ..prev }),
            Key::EditorBinaryPath => (Config { editor_binary_path: value, ..prev }),
            Key::ProjectRoot => (Config { project_root: value, ..prev }),
            Key::ProjectName => (Config { project_name: value, ..prev }),
            Key::ProjectEditorTarget => (Config { project_editor_target: Some(value), ..prev }),
            Key::ProjectClientTarget => (Config { project_client_target: Some(value), ..prev }),
            Key::ProjectServerTarget => (Config { project_server_target: Some(value), ..prev }),
        }
    }

    /// Overwrite the value of one key; every other field is untouched.
    pub fn set(&mut self, key: &Key, value: String)
        ensures
            *final(self) == Config::set_spec(*old(self), *key, value),
    {
        match key {
            Key::EnginePath => {
                self.engine_path = value;
            },
            Key::EditorBinaryPath => {
                self.editor_binary_path = value;
            },
            Key::ProjectRoot => {
                self.project_root = value;
            },
            Key::ProjectName => {
                self.project_name = value;
            },
            Key::ProjectEditorTarget => {
                self.project_editor_target = Some(value);
            },
            Key::ProjectClientTarget => {
                self.project_client_target = Some(value);
            },
            Key::ProjectServerTarget => {
                self.project_server_target = Some(value);
            },
        }
    }

    pub fn engine_path(&self) -> (r: &String)
        ensures
            r@ == self.engine_path@,
    {
        &self.engine_path
    }

    pub fn project_root(&self) -> (r: &String)
        ensures
            r@ == self.project_root@,
    {
        &self.project_root
    }

    /// The editor binary, resolved below the engine directory.
    pub fn editor_binary(&self) -> (r: String)
        ensures
            r@ == path_join(self.engine_path@, self.editor_binary_path@),
    {
        crate::paths::join(self.engine_path.as_str(), self.editor_binary_path.as_str())
    }

    /// The `.uproject` file below the project root.
    pub fn uproject_path(&self) -> (r: String)
        ensures
            r@ == crate::paths::with_ext(
                path_join(self.project_root@, self.project_name@),
                "uproject"@,
            ),
    {
        let base = crate::paths::join(self.project_root.as_str(), self.project_name.as_str());
        crate::paths::replace_extension(base.as_str(), "uproject")
    }

    pub open spec fn target_spec(&self, target: crate::types::Target) -> Option<String> {
        match target {
            crate::types::Target::Editor => self.project_editor_target,
            crate::types::Target::Client => self.project_client_target,
            crate::types::Target::Server => self.project_server_target,
        }
    }

    /// The build-target name discovered for `target`, if any.
    pub fn get_project_target(&self, target: crate::types::Target) -> (r: Option<&String>)
        ensures
            match r {
                Some(s) => self.target_spec(target) == Some(*s),
                None => self.target_spec(target) is None,
            },
    {
        match target {
            crate::types::Target::Editor => self.project_editor_target.as_ref(),
            crate::types::Target::Client => self.project_client_target.as_ref(),
            crate::types::Target::Server => self.project_server_target.as_ref(),
        }
    }

    pub fn project(&self) -> (r: &UProject)
        ensures
            r == self.project,
    {
        &self.project
    }

    pub fn engine(&self) -> (r: &Engine)
        ensures
            r == self.engine,
    {
        &self.engine
    }

    pub fn game(&self) -> (r: &Game)
        ensures
            r == self.game,
    {
        &self.game
    }

    /// Record the build targets a discovery pass found beside the project
    /// sources: a client target always exists under the project's own name,
    /// while editor and server targets exist only when their `.Target.cs`
    /// files were seen.
    pub fn apply_discovered_targets(&mut self, has_editor: bool, has_server: bool)
        ensures
            opt_view(final(self).project_client_target) == Some(old(self).project_name@),
            has_editor ==> opt_view(final(self).project_editor_target) == Some(
                old(self).project_name@ + "Editor"@,
            ),
            !has_editor ==> final(self).project_editor_target is None,
            has_server ==> opt_view(final(self).project_server_target) == Some(
                old(self).project_name@ + "Server"@,
            ),
            !has_server ==> final(self).project_server_target is None,
            final(self).engine_path == old(self).engine_path,
            final(self).editor_binary_path == old(self).editor_binary_path,
            final(self).project_root == old(self).project_root,
            final(self).project_name == old(self).project_name,
            final(self).project == old(self).project,
            final(self).engine == old(self).engine,
            final(self).game == old(self).game,
    {
        self.project_client_target = Some(self.project_name.clone());
        self.project_editor_target = if has_editor {
            Some(crate::strutil::concat2(self.project_name.as_str(), "Editor"))
        } else {
            None
        };
        self.project_server_target = if has_server {
            Some(crate::strutil::concat2(self.project_name.as_str(), "Server"))
        } else {
            None
        };
    }
}

/// Handle changes to the user preferences for this project. Without a key,
/// the whole configuration is presented; with a key but no value, that
/// key's value; with key and value, the configuration is updated and must
/// then be persisted.
#[derive(Clone, Debug)]
pub struct Configure {
    pub key: Option<Key>,
    pub value: Option<String>,
}

impl Configure {
    /// Apply the change this request carries. Only a key given together
    /// with a value mutates the configuration, and exactly then the caller
    /// owes a save; everything else is presentation and leaves the
    /// configuration as it stands.
    pub fn apply(&self, config: &mut Config) -> (saved: bool)
        ensures
            self.key is Some && self.value is Some ==> saved && *final(config) == Config::set_spec(
                *old(config),
                self.key->Some_0,
                self.value->Some_0,
            ),
            !(self.key is Some && self.value is Some) ==> !saved && *final(config) == *old(
                config,
            ),
    {
        match (&self.key, &self.value) {
            (Some(key), Some(value)) => {
                config.set(key, value.clone());
                true
            },
            _ => false,
        }
    }
}

/// Save the dynamically generated config to the current directory.
#[derive(Clone, Debug)]
pub struct SaveToDisk;

/// Where the `Editor.Target.cs` source sits when the project has an editor
/// build target.
pub fn editor_target_source(project_root: &str, project_name: &str) -> (r: String)
    ensures
        r@ == path_join(project_root@, "Source/"@ + project_name@ + "Editor.Target.cs"@),
{
    let rel = concat3("Source/", project_name, "Editor.Target.cs");
    crate::paths::join(project_root, rel.as_str())
}

/// Where the `Server.Target.cs` source sits when the project has a server
/// build target.
pub fn server_target_source(project_root: &str, project_name: &str) -> (r: String)
    ensures
        r@ == path_join(project_root@, "Source/"@ + project_name@ + "Server.Target.cs"@),
{
    let rel = concat3("Source/", project_name, "Server.Target.cs");
    crate::paths::join(project_root, rel.as_str())
}

/// The name of the saved-config file beside the executable's working root.
pub fn cfg_file_name(exe_stem: &str) -> (r: String)
    ensures
        r@ == exe_stem@ + "-cfg.json"@,
{
    crate::strutil::concat2(exe_stem, "-cfg.json")
}

/// Pick the project descriptor among discovery candidates: the first match
/// directly under the working root wins, else the first under `Game/`.
pub fn find_uproject(direct: &Vec<String>, in_game: &Vec<String>) -> (r: Option<String>)
    ensures
        direct@.len() > 0 ==> r is Some && r->Some_0@ == direct@[0]@,
        direct@.len() == 0 && in_game@.len() > 0 ==> r is Some && r->Some_0@ == in_game@[0]@,
        direct@.len() == 0 && in_game@.len() == 0 ==> r is None,
{
    if direct.len() > 0 {
        Some(direct[0].clone())
    } else if in_game.len() > 0 {
        Some(in_game[0].clone())
    } else {
        None
    }
}

/// The pre-installed location of an engine named by its version.
pub fn preinstalled_engine_path(version: &str) -> (r: String)
    ensures
        r@ == "C:\\Program Files\\Epic Games\\UE_"@ + version@ + "\\Engine"@,
{
    concat3("C:\\Program Files\\Epic Games\\UE_", version, "\\Engine")
}

/// The custom-engine location beside the project: an `Engine` directory in
/// the project root's parent.
pub fn custom_engine_path(project_root: &str) -> (r: String)
    ensures
        r@ == path_join(parent_of(project_root@), "Engine"@),
{
    let p = crate::paths::parent(project_root);
    crate::paths::join(p.as_str(), "Engine")
}

/// The editor binary path relative to the engine directory: taken from the
/// editor `.target` descriptor when one was read, with the engine-directory
/// prefix removed if present, else the fixed default location.
pub fn editor_binary_from_target(t: Option<&EditorTarget>) -> (r: String)
    ensures
        match t {
            Some(et) => if starts_with(et.binary_path@, engine_dir_prefix()) {
                r@ == et.binary_path@.subrange(
                    engine_dir_prefix().len() as int,
                    et.binary_path@.len() as int,
                )
            } else {
                r@ == et.binary_path@
            },
            None => r@ == "Binaries/Win64/UE4Editor-Win64-DebugGame.exe"@,
        },
{
    match t {
        Some(et) => {
            if str_starts_with(et.binary_path.as_str(), "$(EngineDir)/") {
                et.binary_path()
            } else {
                et.binary_path.clone()
            }
        },
        None => String::from_str("Binaries/Win64/UE4Editor-Win64-DebugGame.exe"),
    }
}

/// The section of `DefaultEngine.ini` holding map and mode settings.
pub open spec fn game_maps_section() -> Seq<char> {
    "/Script/EngineSettings.GameMapsSettings"@
}

/// The alias named by one `+GameModeClassAliases` value: the text after a
/// leading `(Name="` marker (if present), cut at the first quote.
pub open spec fn alias_of(v: Seq<char>) -> Seq<char> {
    let w = if starts_with(v, "(Name=\""@) {
        v.subrange("(Name=\""@.len() as int, v.len() as int)
    } else {
        v
    };
    match ffind(w, '"') {
        Some(i) => w.subrange(0, i),
        None => w,
    }
}

/// Every alias named in the engine config, in line order, duplicates kept.
pub open spec fn alias_names(text: Seq<char>) -> Seq<Seq<char>> {
    section_values_spec(text, game_maps_section(), "+GameModeClassAliases"@).map_values(
        |v: Seq<char>| alias_of(v),
    )
}

/// The elements of `s` with later duplicates removed.
pub open spec fn dedup_left(s: Seq<Seq<char>>) -> Seq<Seq<char>>
    decreases s.len(),
{
    if s.len() == 0 {
        Seq::empty()
    } else {
        let init = dedup_left(s.drop_last());
        if init.contains(s.last()) {
            init
        } else {
            init.push(s.last())
        }
    }
}

/// An alias stays unless it is a distinct uppercase form of another alias:
/// dropped when its lowercase form differs and is itself an alias.
pub open spec fn keep_alias(all: Seq<Seq<char>>, n: Seq<char>) -> bool {
    lower_of(n) == n || !all.contains(lower_of(n))
}

/// The final alias collection, before ordering: unique names, filtered.
pub open spec fn mode_aliases_spec(text: Seq<char>) -> Seq<Seq<char>> {
    dedup_left(alias_names(text)).filter(|n: Seq<char>| keep_alias(alias_names(text), n))
}

proof fn lemma_filter_push(s: Seq<Seq<char>>, x: Seq<char>, pred: spec_fn(Seq<char>) -> bool)
    ensures
        s.push(x).filter(pred) == if pred(x) {
            s.filter(pred).push(x)
        } else {
            s.filter(pred)
        },
{
    reveal(Seq::filter);
    assert(s.push(x).drop_last() =~= s);
    assert(s.push(x).last() == x);
}

/// The engine-wide settings read from `DefaultEngine.ini`.
#[derive(Clone, Debug)]
pub struct Engine {
    pub default_map_server: Option<String>,
    pub default_map_game: Option<String>,
    pub mode_aliases: Vec<String>,
}

fn alias_of_exec(v: &str) -> (r: String)
    ensures
        r@ == alias_of(v@),
{
    proof {
        reveal_strlit("(Name=\"");
    }
    let n = v.unicode_len();
    let w: String = if str_starts_with(v, "(Name=\"") {
        v.substring_char(7, n).to_owned()
    } else {
        v.to_owned()
    };
    match str_find_char(w.as_str(), '"') {
        Some(i) => w.as_str().substring_char(0, i).to_owned(),
        None => w,
    }
}

impl Engine {
    /// Read the default maps and game-mode aliases out of the engine config
    /// text. The alias collection holds each distinct alias once, minus any
    /// that is only the uppercase twin of another alias; the vector is then
    /// reordered for display.
    pub fn from_ini(text: &str) -> (r: Engine)
        ensures
            opt_view(r.default_map_server) == crate::ini::first_of(
                section_values_spec(text@, game_maps_section(), "ServerDefaultMap"@),
            ),
            opt_view(r.default_map_game) == crate::ini::first_of(
                section_values_spec(text@, game_maps_section(), "GameDefaultMap"@),
            ),
            views_of(r.mode_aliases@).to_multiset() == mode_aliases_spec(text@).to_multiset(),
            forall|i: int, j: int|
                0 <= i < j < r.mode_aliases@.len() ==> crate::strutil::lex_leq(
                    r.mode_aliases@[i]@,
                    r.mode_aliases@[j]@,
                ),
    {
        let section = "/Script/EngineSettings.GameMapsSettings";
        let default_map_server = section_value(text, section, "ServerDefaultMap");
        let default_map_game = section_value(text, section, "GameDefaultMap");
        let raw = section_values(text, section, "+GameModeClassAliases");

        let ghost all = alias_names(text@);
        let mut names: Vec<String> = Vec::new();
        let mut i: usize = 0;
        while i < raw.len()
            invariant
                all == alias_names(text@),
                views_of(raw@) == section_values_spec(
                    text@,
                    game_maps_section(),
                    "+GameModeClassAliases"@,
                ),
                i <= raw@.len(),
                names@.len() == i,
                views_of(names@) =~= all.subrange(0, i as int),
            decreases raw@.len() - i,
        {
            let a = alias_of_exec(raw[i].as_str());
            names.push(a);
            proof {
                assert(all[i as int] == alias_of(views_of(raw@)[i as int]));
                assert(views_of(names@) =~= all.subrange(0, i + 1 as int));
            }
            i += 1;
        }
        proof {
            assert(all.subrange(0, all.len() as int) =~= all);
        }

        let mut uniq: Vec<String> = Vec::new();
        let mut i: usize = 0;
        while i < names.len()
            invariant
                all == views_of(names@),
                i <= names@.len(),
                views_of(uniq@) == dedup_left(all.subrange(0, i as int)),
            decreases names@.len() - i,
        {
            let ghost prefix = all.subrange(0, i as int);
            proof {
                assert(all.subrange(0, i + 1 as int).drop_last() =~= prefix);
                assert(all.subrange(0, i + 1 as int).last() == all[i as int]);
            }
            if !vec_contains_str(&uniq, names[i].as_str()) {
                let ghost before = uniq@;
                uniq.push(names[i].clone());
                proof {
                    assert(views_of(uniq@) =~= views_of(before).push(all[i as int]));
                }
            }
            i += 1;
        }
        proof {
            assert(all.subrange(0, all.len() as int) =~= all);
        }

        let ghost pred = |n: Seq<char>| keep_alias(all, n);
        let mut kept: Vec<String> = Vec::new();
        let mut i: usize = 0;
        let ghost uv = views_of(uniq@);
        proof {
            reveal(Seq::filter);
            assert(uv.subrange(0, 0) =~= Seq::<Seq<char>>::empty());
        }
        while i < uniq.len()
            invariant
                all == alias_names(text@),
                all == views_of(names@),
                uv == views_of(uniq@),
                uv == dedup_left(all),
                pred == (|n: Seq<char>| keep_alias(all, n)),
                i <= uniq@.len(),
                views_of(kept@) == uv.subrange(0, i as int).filter(pred),
            decreases uniq@.len() - i,
        {
            let ghost prefix = uv.subrange(0, i as int);
            proof {
                assert(uv.subrange(0, i + 1 as int) =~= prefix.push(uv[i as int]));
                lemma_filter_push(prefix, uv[i as int], pred);
                assert(uv[i as int] == uniq@[i as int]@);
            }
            let low = to_lowercase(uniq[i].as_str());
            let keep = str_eq(low.as_str(), uniq[i].as_str()) || !vec_contains_str(
                &names,
                low.as_str(),
            );
            if keep {
                let ghost before = kept@;
                kept.push(uniq[i].clone());
                proof {
                    assert(views_of(kept@) =~= views_of(before).push(uv[i as int]));
                }
            }
            i += 1;
        }
        proof {
            assert(uv.subrange(0, uv.len() as int) =~= uv);
        }
        let mut mode_aliases = kept;
        sort_strings(&mut mode_aliases);
        Engine { default_map_server, default_map_game, mode_aliases }
    }

    /// The level a server opens by default: the configured server default,
    /// else the game default, with the map's extension suffix removed.
    pub fn default_map(&self) -> (r: Option<String>)
        ensures
            match self.default_map_server {
                Some(s) => r is Some && r->Some_0@ == strip_ext(s@),
                None => match self.default_map_game {
                    Some(g) => r is Some && r->Some_0@ == strip_ext(g@),
                    None => r is None,
                },
            },
    {
        let map: &String = match &self.default_map_server {
            Some(s) => s,
            None => match &self.default_map_game {
                Some(g) => g,
                None => {
                    return None;
                },
            },
        };
        proof {
            reveal_strlit("");
        }
        Some(crate::paths::replace_extension(map.as_str(), ""))
    }

    pub fn mode_aliases(&self) -> (r: &Vec<String>)
        ensures
            r == self.mode_aliases,
    {
        &self.mode_aliases
    }
}

/// The section of `DefaultGame.ini` holding packaging settings.
pub open spec fn packaging_section() -> Seq<char> {
    "/Script/UnrealEd.ProjectPackagingSettings"@
}

/// The map path named by one `+MapsToCook` value: a `(FilePath="` prefix
/// and a `")` suffix are removed when present.
pub open spec fn cook_path_of(v: Seq<char>) -> Seq<char> {
    let w = if starts_with(v, "(FilePath=\""@) {
        v.subrange("(FilePath=\""@.len() as int, v.len() as int)
    } else {
        v
    };
    if crate::strutil::ends_with(w, "\")"@) {
        w.subrange(0, w.len() - "\")"@.len())
    } else {
        w
    }
}

/// The cookable maps named in the game config, in line order.
pub open spec fn maps_to_cook_spec(text: Seq<char>) -> Seq<Seq<char>> {
    section_values_spec(text, packaging_section(), "+MapsToCook"@).map_values(
        |v: Seq<char>| cook_path_of(v),
    )
}

fn cook_path_of_exec(v: &str) -> (r: String)
    ensures
        r@ == cook_path_of(v@),
{
    proof {
        reveal_strlit("(FilePath=\"");
        reveal_strlit("\")");
    }
    let n = v.unicode_len();
    let w: String = if str_starts_with(v, "(FilePath=\"") {
        v.substring_char(11, n).to_owned()
    } else {
        v.to_owned()
    };
    let wn = w.as_str().unicode_len();
    if crate::strutil::str_ends_with(w.as_str(), "\")") {
        w.as_str().substring_char(0, wn - 2).to_owned()
    } else {
        w
    }
}

/// The game-side settings read from `DefaultGame.ini`.
#[derive(Clone, Debug)]
pub struct Game {
    pub maps_to_cook: Vec<String>,
}

/// Associate `v` to key `k`: a fresh pair at the end, or the value of the
/// first pair already keyed `k` replaced.
pub open spec fn upsert(
    acc: Seq<(Seq<char>, Seq<char>)>,
    k: Seq<char>,
    v: Seq<char>,
) -> Seq<(Seq<char>, Seq<char>)>
    decreases acc.len(),
{
    if acc.len() == 0 {
        seq![(k, v)]
    } else if acc[0].0 == k {
        seq![(k, v)] + acc.drop_first()
    } else {
        seq![acc[0]] + upsert(acc.drop_first(), k, v)
    }
}

/// The name table of a map list: each map keyed by its file name, a later
/// map replacing an earlier one with the same name.
pub open spec fn by_name_spec(maps: Seq<Seq<char>>) -> Seq<(Seq<char>, Seq<char>)>
    decreases maps.len(),
{
    if maps.len() == 0 {
        Seq::empty()
    } else {
        upsert(
            by_name_spec(maps.drop_last()),
            crate::paths::file_name_of(maps.last()),
            maps.last(),
        )
    }
}

/// The value of the first pair keyed `k`.
pub open spec fn assoc_lookup(t: Seq<(Seq<char>, Seq<char>)>, k: Seq<char>) -> Option<Seq<char>>
    decreases t.len(),
{
    if t.len() == 0 {
        None
    } else if t[0].0 == k {
        Some(t[0].1)
    } else {
        assoc_lookup(t.drop_first(), k)
    }
}

impl Game {
    /// Read the cookable map list out of the game config text.
    pub fn from_ini(text: &str) -> (r: Game)
        ensures
            views_of(r.maps_to_cook@) == maps_to_cook_spec(text@),
    {
        let raw = section_values(text, "/Script/UnrealEd.ProjectPackagingSettings", "+MapsToCook");
        let ghost goal = maps_to_cook_spec(text@);
        let mut maps_to_cook: Vec<String> = Vec::new();
        let mut i: usize = 0;
        while i < raw.len()
            invariant
                goal == maps_to_cook_spec(text@),
                views_of(raw@) == section_values_spec(text@, packaging_section(), "+MapsToCook"@),
                i <= raw@.len(),
                maps_to_cook@.len() == i,
                views_of(maps_to_cook@) =~= goal.subrange(0, i as int),
            decreases raw@.len() - i,
        {
            let p = cook_path_of_exec(raw[i].as_str());
            maps_to_cook.push(p);
            proof {
                assert(views_of(raw@)[i as int] == raw@[i as int]@);
                assert(goal[i as int] == cook_path_of(views_of(raw@)[i as int]));
                assert(views_of(maps_to_cook@) =~= goal.subrange(0, i + 1 as int));
            }
            i += 1;
        }
        proof {
            assert(goal.subrange(0, goal.len() as int) =~= goal);
        }
        Game { maps_to_cook }
    }

    /// The cookable maps keyed by file name, as (name, path) pairs: every
    /// pair's key is its path's file name, and a later map wins a shared
    /// name.
    pub fn maps_by_name(&self) -> (r: Vec<(String, String)>)
        ensures
            r@.map_values(|p: (String, String)| (p.0@, p.1@)) == by_name_spec(
                views_of(self.maps_to_cook@),
            ),
    {
        let ghost pview = |p: (String, String)| (p.0@, p.1@);
        let mut out: Vec<(String, String)> = Vec::new();
        let mut i: usize = 0;
        let ghost ms = views_of(self.maps_to_cook@);
        proof {
            assert(ms.subrange(0, 0) =~= Seq::<Seq<char>>::empty());
        }
        while i < self.maps_to_cook.len()
            invariant
                ms == views_of(self.maps_to_cook@),
                i <= self.maps_to_cook@.len(),
                out@.map_values(|p: (String, String)| (p.0@, p.1@)) == by_name_spec(
                    ms.subrange(0, i as int),
                ),
            decreases self.maps_to_cook@.len() - i,
        {
            let ghost prefix = ms.subrange(0, i as int);
            proof {
                assert(ms.subrange(0, i + 1 as int).drop_last() =~= prefix);
                assert(ms.subrange(0, i + 1 as int).last() == ms[i as int]);
            }
            let name = crate::paths::file_name(self.maps_to_cook[i].as_str());
            let path = self.maps_to_cook[i].clone();
            upsert_exec(&mut out, name, path);
            i += 1;
        }
        proof {
            assert(ms.subrange(0, ms.len() as int) =~= ms);
        }
        out
    }

    /// Resolve a map by its short name against the name table: the full
    /// path, suffixed with `.<name>` as the engine's open-level syntax
    /// expects.
    pub fn resolve_map(&self, name: &str) -> (r: Option<String>)
        ensures
            ({
                let table = by_name_spec(views_of(self.maps_to_cook@));
                match assoc_lookup(table, name@) {
                    Some(path) => r is Some && r->Some_0@ == crate::paths::with_ext(
                        path,
                        crate::paths::file_name_of(path),
                    ),
                    None => r is None,
                }
            }),
    {
        let table = self.maps_by_name();
        let ghost tv = table@.map_values(|p: (String, String)| (p.0@, p.1@));
        let mut i: usize = 0;
        proof {
            assert(tv.subrange(0, tv.len() as int) =~= tv);
        }
        while i < table.len()
            invariant
                tv == table@.map_values(|p: (String, String)| (p.0@, p.1@)),
                tv == by_name_spec(views_of(self.maps_to_cook@)),
                i <= table@.len(),
                assoc_lookup(tv.subrange(i as int, tv.len() as int), name@) == assoc_lookup(
                    tv,
                    name@,
                ),
            decreases table@.len() - i,
        {
            let ghost suffix = tv.subrange(i as int, tv.len() as int);
            proof {
                assert(tv[i as int] == (table@[i as int].0@, table@[i as int].1@));
                assert(suffix[0] == tv[i as int]);
                assert(suffix.drop_first() =~= tv.subrange(i + 1, tv.len() as int));
            }
            if str_eq(table[i].0.as_str(), name) {
                let path = &table[i].1;
                let fname = crate::paths::file_name(path.as_str());
                let resolved = crate::paths::replace_extension(path.as_str(), fname.as_str());
                proof {
                    assert(tv[i as int].0 == name@);
                    assert(assoc_lookup(suffix, name@) == Some(tv[i as int].1));
                    assert(path@ == tv[i as int].1);
                }
                return Some(resolved);
            }
            i += 1;
        }
        proof {
            assert(tv.subrange(tv.len() as int, tv.len() as int)
                =~= Seq::<(Seq<char>, Seq<char>)>::empty());
        }
        None
    }
}

proof fn lemma_upsert_found(t: Seq<(Seq<char>, Seq<char>)>, k: Seq<char>, v: Seq<char>, i: int)
    requires
        0 <= i < t.len(),
        t[i].0 == k,
        forall|j: int| 0 <= j < i ==> t[j].0 != k,
    ensures
        upsert(t, k, v) == t.update(i, (k, v)),
    decreases t.len(),
{
    if i == 0 {
        assert(upsert(t, k, v) =~= t.update(0, (k, v)));
    } else {
        let rest = t.drop_first();
        assert(forall|j: int| 0 <= j < i - 1 ==> rest[j].0 == t[j + 1].0 && t[j + 1].0 != k);
        lemma_upsert_found(rest, k, v, i - 1);
        assert(upsert(t, k, v) =~= t.update(i, (k, v)));
    }
}

proof fn lemma_upsert_missing(t: Seq<(Seq<char>, Seq<char>)>, k: Seq<char>, v: Seq<char>)
    requires
        forall|j: int| 0 <= j < t.len() ==> t[j].0 != k,
    ensures
        upsert(t, k, v) == t.push((k, v)),
    decreases t.len(),
{
    if t.len() == 0 {
        assert(upsert(t, k, v) =~= t.push((k, v)));
    } else {
        let rest = t.drop_first();
        assert(forall|j: int| 0 <= j < rest.len() ==> rest[j].0 == t[j + 1].0 && t[j + 1].0 != k);
        lemma_upsert_missing(rest, k, v);
        assert(upsert(t, k, v) =~= t.push((k, v)));
    }
}

fn upsert_exec(out: &mut Vec<(String, String)>, k: String, v: String)
    ensures
        final(out)@.map_values(|p: (String, String)| (p.0@, p.1@)) == upsert(
            old(out)@.map_values(|p: (String, String)| (p.0@, p.1@)),
            k@,
            v@,
        ),
{
    let ghost t = old(out)@.map_values(|p: (String, String)| (p.0@, p.1@));
    let mut i: usize = 0;
    while i < out.len()
        invariant
            out@ == old(out)@,
            t == out@.map_values(|p: (String, String)| (p.0@, p.1@)),
            i <= out@.len(),
            forall|j: int| 0 <= j < i ==> t[j].0 != k@,
        decreases out@.len() - i,
    {
        proof {
            assert(t[i as int] == (out@[i as int].0@, out@[i as int].1@));
        }
        if str_eq(out[i].0.as_str(), k.as_str()) {
            let ghost idx = i as int;
            proof {
                assert(t[idx].0 == k@);
            }
            out.set(i, (k, v));
            proof {
                lemma_upsert_found(t, k@, v@, idx);
                assert(out@.map_values(|p: (String, String)| (p.0@, p.1@)) =~= t.update(
                    idx,
                    (k@, v@),
                ));
            }
            return;
        }
        i += 1;
    }
    proof {
        lemma_upsert_missing(t, k@, v@);
    }
    out.push((k, v));
    proof {
        assert(out@.map_values(|p: (String, String)| (p.0@, p.1@)) =~= t.push((k@, v@)));
    }
}

} // verus!

