//! The localization pipeline: gather, export, compile, import, the
//! composite update, and the PO-archive packaging stages.
//!
//! Each stage resolves to one gatherer invocation driven by a config file
//! under `Config/Localization`. When a single language is requested, the
//! base config is projected to a temporary single-language config whose
//! lifetime is scoped to the one invocation: the plan computed here names
//! the temporary file and its content; whoever runs the stage writes it
//! just before the invocation and deletes it right after, success or not.

use vstd::prelude::*;

use crate::archive::{
    archive_decodes_to, dir_entry_name, entry_views, writer_entries, ArchiveWriter,
};
use crate::config::Config;
use crate::errors::Error;
use crate::paths::{file_name_of, parent_of, path_join};
use crate::process::ProcessInvocation;
use crate::strutil::{
    concat2, concat3, ends_with, join_with, rfind, split_on, starts_with, str_split,
    str_starts_with, str_trim, trim_spec, views_of,
};

verus! {

/// A no-op placeholder kept for the command surface; the real stages are
/// the variants of [`Localization`].
#[derive(Clone, Debug)]
pub struct UpdateLocalization;

/// [Game -> Archive] Searches compiled code and assets for localized text.
#[derive(Clone, Debug)]
pub struct Gather {
    /// Optionally the specific language to gather.
    pub lang: Option<String>,
}

/// [Archive -> PO] Exports gathered archives to human-readable PO files.
#[derive(Clone, Debug)]
pub struct Export {
    pub lang: Option<String>,
}

/// [Archive -> LocRes] Compiles localization archives into binary files.
#[derive(Clone, Debug)]
pub struct Compile {
    pub lang: Option<String>,
}

/// [PO -> Archive] Imports external PO files into the localization archive.
#[derive(Clone, Debug)]
pub struct Import {
    pub lang: Option<String>,
}

/// [Game -> Archive -> PO & LocRes] Gather, export and compile everything,
/// then package the PO files.
#[derive(Clone, Debug)]
pub struct Update {
    pub lang: Option<String>,
}

/// [Archive -> PO zip] Packages every language's PO file into one archive.
#[derive(Clone, Debug)]
pub struct ExportPOZip;

/// [PO zip -> Archive] Extracts a PO archive and imports its contents.
#[derive(Clone, Debug)]
pub struct ImportPOZip {
    /// The zip file to import.
    pub zip_path: String,
}

/// The localization subcommands.
#[derive(Clone, Debug)]
pub enum Localization {
    Gather(Gather),
    Export(Export),
    Compile(Compile),
    Import(Import),
    Update(Update),
    ExportZip(ExportPOZip),
    ImportZip(ImportPOZip),
}

impl Gather {
    pub fn config_base(&self) -> (r: &'static str)
        ensures
            r@ == "Game_Gather"@,
    {
        "Game_Gather"
    }
}

impl Export {
    pub fn config_base(&self) -> (r: &'static str)
        ensures
            r@ == "Game_Export"@,
    {
        "Game_Export"
    }
}

impl Compile {
    pub fn config_base(&self) -> (r: &'static str)
        ensures
            r@ == "Game_Compile"@,
    {
        "Game_Compile"
    }
}

impl Import {
    pub fn config_base(&self) -> (r: &'static str)
        ensures
            r@ == "Game_Import"@,
    {
        "Game_Import"
    }

    /// The import source directory named by the `SourcePath` property of
    /// `Game_Import.ini`, if the property is present.
    pub fn source_path_from_ini(import_ini: &str) -> (r: Option<String>)
        ensures
            match r {
                Some(v) => crate::ini::ini_prop_spec(import_ini@, "SourcePath"@) == Some(v@),
                None => crate::ini::ini_prop_spec(import_ini@, "SourcePath"@) is None,
            },
    {
        crate::ini::read_ini_prop(import_ini, "SourcePath")
    }
}

impl Update {
    /// The three stages the composite update runs, in this order, stopping
    /// at the first failure; on full success the PO-archive export follows.
    pub fn stage_sequence() -> (r: Vec<String>)
        ensures
            views_of(r@) == seq!["Game_Gather"@, "Game_Export"@, "Game_Compile"@],
    {
        let mut r: Vec<String> = Vec::new();
        r.push(String::from_str("Game_Gather"));
        r.push(String::from_str("Game_Export"));
        r.push(String::from_str("Game_Compile"));
        proof {
            assert(views_of(r@) =~= seq!["Game_Gather"@, "Game_Export"@, "Game_Compile"@]);
        }
        r
    }
}

impl Localization {
    /// Where a localization config file sits: under `Config/Localization`,
    /// resolved against the project root when one is given.
    pub fn make_cfg_ini_path(project_root: Option<&str>, cfg: &str) -> (r: String)
        ensures
            match project_root {
                Some(root) => r@ == path_join(path_join(root@, "Config/Localization"@), cfg@),
                None => r@ == path_join("Config/Localization"@, cfg@),
            },
    {
        match project_root {
            Some(root) => {
                let dir = crate::paths::join(root, "Config/Localization");
                crate::paths::join(dir.as_str(), cfg)
            },
            None => crate::paths::join("Config/Localization", cfg),
        }
    }

    /// The gatherer invocation every stage runs: the editor binary in the
    /// project root, handed the project file, the gather commandlet, the
    /// config path, and the flags that keep the gatherer from submitting to
    /// source control itself.
    pub fn make_command(config: &Config, loc_config: &str) -> (r: ProcessInvocation)
        ensures
            r.program@ == path_join(config.engine_path@, config.editor_binary_path@),
            r.working_dir == Some(config.project_root),
            views_of(r.args@) == seq![
                crate::paths::with_ext(
                    path_join(config.project_root@, config.project_name@),
                    "uproject"@,
                ),
                "-run=GatherText"@,
                "-config="@ + loc_config@,
                "-EnableSCC -DisableSCCSubmit"@,
                "-DisableSCCSubmit"@,
            ],
    {
        let mut inv = ProcessInvocation::new(
            config.editor_binary(),
            Some(config.project_root.clone()),
        );
        inv.arg(config.uproject_path());
        inv.arg(String::from_str("-run=GatherText"));
        inv.arg(concat2("-config=", loc_config));
        inv.arg(String::from_str("-EnableSCC -DisableSCCSubmit"));
        inv.arg(String::from_str("-DisableSCCSubmit"));
        proof {
            assert(views_of(inv.args@) =~= seq![
                crate::paths::with_ext(
                    path_join(config.project_root@, config.project_name@),
                    "uproject"@,
                ),
                "-run=GatherText"@,
                "-config="@ + loc_config@,
                "-EnableSCC -DisableSCCSubmit"@,
                "-DisableSCCSubmit"@,
            ]);
        }
        inv
    }
}

/// Whether a config line names cultures to generate.
pub open spec fn is_culture_line(l: Seq<char>) -> bool {
    starts_with(l, "CulturesToGenerate="@)
}

/// Whether a culture line names the requested language: its trimmed text
/// ends with `=<lang>`, the language being the final `=`-separated token.
pub open spec fn culture_matches(l: Seq<char>, lang: Seq<char>) -> bool {
    ends_with(trim_spec(l), seq!['='] + lang)
}

/// Whether a line survives the single-language projection: every line that
/// is not a culture line stays verbatim; a culture line stays only for the
/// requested language.
pub open spec fn keep_line(l: Seq<char>, lang: Seq<char>) -> bool {
    !is_culture_line(l) || culture_matches(l, lang)
}

/// The lines of the projected config, in original order.
pub open spec fn kept_lines(text: Seq<char>, lang: Seq<char>) -> Seq<Seq<char>> {
    split_on(text, '\n').filter(|l: Seq<char>| keep_line(l, lang))
}

/// Whether some culture line of these lines names the language.
pub open spec fn found_in(ls: Seq<Seq<char>>, lang: Seq<char>) -> bool
    decreases ls.len(),
{
    if ls.len() == 0 {
        false
    } else {
        (is_culture_line(ls[0]) && culture_matches(ls[0], lang)) || found_in(ls.drop_first(), lang)
    }
}

/// Whether the base config supports the language at all.
pub open spec fn culture_found(text: Seq<char>, lang: Seq<char>) -> bool {
    found_in(split_on(text, '\n'), lang)
}

proof fn lemma_filter_push_lines(s: Seq<Seq<char>>, x: Seq<char>, pred: spec_fn(Seq<char>) -> bool)
    ensures
        s.push(x).filter(pred) == if pred(x) {
            s.filter(pred).push(x)
        } else {
            s.filter(pred)
        },
{
    reveal(Seq::filter);
    assert(s.push(x).drop_last() =~= s);
    assert(s.push(x).last() == x);
}

/// Project the base config text to one language: every line that begins
/// with `CulturesToGenerate=` is kept only when its trimmed text ends with
/// `=<lang>`; all other lines are kept verbatim, in original order. When no
/// culture line names the language, the whole stage is unsupported and no
/// projected text exists.
pub fn filter_cultures(content: &str, lang: &str) -> (r: Result<String, Error>)
    ensures
        r is Ok <==> culture_found(content@, lang@),
        r is Ok ==> r->Ok_0@ == join_with(kept_lines(content@, lang@), '\n'),
        !culture_found(content@, lang@) ==> (r->Err_0 matches Error::UnsupportedCulture(m)
            && m@ == "Culture \""@ + lang@ + "\" is not supported."@),
{
    let lines = str_split(content, '\n');
    let ghost ls = views_of(lines@);
    let ghost pred = |l: Seq<char>| keep_line(l, lang@);
    let mut probe = String::new();
    probe.push('=');
    probe.append(lang);
    let mut kept: Vec<String> = Vec::new();
    let mut found = false;
    let mut i: usize = 0;
    proof {
        reveal(Seq::filter);
        assert(ls.subrange(0, 0) =~= Seq::<Seq<char>>::empty());
        assert(ls.subrange(0, ls.len() as int) =~= ls);
    }
    while i < lines.len()
        invariant
            ls == views_of(lines@),
            ls == split_on(content@, '\n'),
            probe@ == seq!['='] + lang@,
            pred == (|l: Seq<char>| keep_line(l, lang@)),
            i <= lines@.len(),
            views_of(kept@) == ls.subrange(0, i as int).filter(pred),
            found_in(ls, lang@) == (found || found_in(
                ls.subrange(i as int, ls.len() as int),
                lang@,
            )),
        decreases lines@.len() - i,
    {
        let ghost prefix = ls.subrange(0, i as int);
        let ghost suffix = ls.subrange(i as int, ls.len() as int);
        proof {
            assert(ls.subrange(0, i + 1 as int) =~= prefix.push(ls[i as int]));
            lemma_filter_push_lines(prefix, ls[i as int], pred);
            assert(suffix[0] == ls[i as int]);
            assert(suffix.drop_first() =~= ls.subrange(i + 1, ls.len() as int));
            assert(ls[i as int] == lines@[i as int]@);
        }
        let line = &lines[i];
        let is_culture = str_starts_with(line.as_str(), "CulturesToGenerate=");
        if !is_culture {
            kept.push(line.clone());
            proof {
                assert(views_of(kept@) =~= views_of(kept@.drop_last()).push(ls[i as int]));
            }
        } else {
            let trimmed = str_trim(line.as_str());
            if crate::strutil::str_ends_with(trimmed, probe.as_str()) {
                kept.push(line.clone());
                found = true;
                proof {
                    assert(views_of(kept@) =~= views_of(kept@.drop_last()).push(ls[i as int]));
                }
            }
        }
        i += 1;
    }
    proof {
        assert(ls.subrange(ls.len() as int, ls.len() as int) =~= Seq::<Seq<char>>::empty());
        assert(ls.subrange(0, ls.len() as int) =~= ls);
    }
    if !found {
        return Err(Error::UnsupportedCulture(concat3("Culture \"", lang, "\" is not supported.")));
    }
    Ok(crate::strutil::join_strings(&kept, '\n'))
}

/// The derived single-language config file's name.
pub fn mono_config_name(base_name: &str, lang: &str) -> (r: String)
    ensures
        r@ == base_name@ + "_"@ + lang@ + ".ini"@,
{
    let mut r = String::from_str(base_name);
    r.append("_");
    r.append(lang);
    r.append(".ini");
    r
}

/// The base config file's name.
pub fn base_config_name(base_name: &str) -> (r: String)
    ensures
        r@ == base_name@ + ".ini"@,
{
    concat2(base_name, ".ini")
}

/// One planned stage: which config path the gatherer invocation names, and
/// the temporary single-language config to materialize first, if any. The
/// temporary file is created immediately before the invocation and deleted
/// immediately after it, whatever the invocation's outcome.
#[derive(Clone, Debug)]
pub struct LocStagePlan {
    /// The config path handed to the gatherer, relative to the project root.
    pub config_rel: String,
    /// The temporary config's absolute path and its content.
    pub temp: Option<(String, String)>,
}

impl Localization {
    /// Plan one stage. Without a language the base config is used directly
    /// and nothing temporary exists. With a language the base config's text
    /// is projected; an unsupported language aborts the stage before any
    /// invocation, and nothing is written.
    pub fn plan_stage(
        config: &Config,
        base_name: &str,
        lang: Option<&String>,
        base_content: Option<&str>,
    ) -> (r: Result<LocStagePlan, Error>)
        requires
            lang is Some ==> base_content is Some,
        ensures
            lang is None ==> r is Ok && r->Ok_0.temp is None && r->Ok_0.config_rel@ == path_join(
                "Config/Localization"@,
                base_name@ + ".ini"@,
            ),
            lang is Some && !culture_found(base_content->Some_0@, lang->Some_0@) ==> (
            r->Err_0 matches Error::UnsupportedCulture(m) && r is Err && m@ == "Culture \""@
                + lang->Some_0@ + "\" is not supported."@),
            lang is Some && culture_found(base_content->Some_0@, lang->Some_0@) ==> {
                let mono = base_name@ + "_"@ + lang->Some_0@ + ".ini"@;
                &&& r is Ok
                &&& r->Ok_0.config_rel@ == path_join("Config/Localization"@, mono)
                &&& r->Ok_0.temp is Some
                &&& r->Ok_0.temp->Some_0.0@ == path_join(
                    path_join(config.project_root@, "Config/Localization"@),
                    mono,
                )
                &&& r->Ok_0.temp->Some_0.1@ == join_with(
                    kept_lines(base_content->Some_0@, lang->Some_0@),
                    '\n',
                )
            },
    {
        match lang {
            None => {
                let base_ini = base_config_name(base_name);
                let rel = Self::make_cfg_ini_path(None, base_ini.as_str());
                Ok(LocStagePlan { config_rel: rel, temp: None })
            },
            Some(lang) => {
                let content = match base_content {
                    Some(c) => c,
                    None => {
                        proof {
                            assert(false);
                        }
                        ""
                    },
                };
                let filtered = match filter_cultures(content, lang.as_str()) {
                    Ok(t) => t,
                    Err(e) => {
                        return Err(e);
                    },
                };
                let mono = mono_config_name(base_name, lang.as_str());
                let rel = Self::make_cfg_ini_path(None, mono.as_str());
                let abs = Self::make_cfg_ini_path(
                    Some(config.project_root.as_str()),
                    mono.as_str(),
                );
                Ok(LocStagePlan { config_rel: rel, temp: Some((abs, filtered)) })
            },
        }
    }
}

/// The archive file name carrying a calendar date.
pub fn archive_file_name(date: &str) -> (r: String)
    ensures
        r@ == "Localization_"@ + date@ + ".zip"@,
{
    concat3("Localization_", date, ".zip")
}

impl ExportPOZip {
    /// The localization content root whose immediate subdirectories are the
    /// languages.
    pub fn content_root(config: &Config) -> (r: String)
        ensures
            r@ == path_join(config.project_root@, "Content/Localization/Game"@),
    {
        crate::paths::join(config.project_root.as_str(), "Content/Localization/Game")
    }

    /// Where the dated archive is written.
    pub fn archive_output_path(config: &Config, date: &str) -> (r: String)
        ensures
            r@ == path_join(
                path_join(config.project_root@, "Content/Localization"@),
                "Localization_"@ + date@ + ".zip"@,
            ),
    {
        let dir = crate::paths::join(config.project_root.as_str(), "Content/Localization");
        let name = archive_file_name(date);
        crate::paths::join(dir.as_str(), name.as_str())
    }

    /// A language directory's PO file.
    pub fn po_file_path(lang_dir: &str) -> (r: String)
        ensures
            r@ == path_join(lang_dir@, "Game.po"@),
    {
        crate::paths::join(lang_dir, "Game.po")
    }
}

/// The views of language/content pairs.
pub open spec fn lang_data_views(v: Seq<(String, Vec<u8>)>) -> Seq<(Seq<char>, Seq<u8>)> {
    v.map_values(|p: (String, Vec<u8>)| (p.0@, p.1@))
}

/// What the exported archive holds: per language, in order, a directory
/// entry followed by the language's `Game.po` file with its bytes.
pub open spec fn po_archive_entries(ls: Seq<(Seq<char>, Seq<u8>)>) -> Seq<(Seq<char>, bool, Seq<u8>)>
    decreases ls.len(),
{
    if ls.len() == 0 {
        Seq::empty()
    } else {
        seq![
            (dir_entry_name(ls[0].0), false, Seq::<u8>::empty()),
            (ls[0].0 + "/Game.po"@, true, ls[0].1),
        ] + po_archive_entries(ls.drop_first())
    }
}

/// Languages the export stage can always pack: each plainly named, with
/// name and contents inside the archive format's fields, and no language
/// repeated.
pub open spec fn packable_langs(ls: Seq<(Seq<char>, Seq<u8>)>) -> bool {
    &&& forall|i: int|
        0 <= i < ls.len() ==> plain_lang_name((#[trigger] ls[i]).0) && ls[i].0.len() <= 0x3000
            && crate::archive::data_fits(ls[i].1)
    &&& forall|i: int, j: int| 0 <= i < j < ls.len() ==> ls[i].0 != ls[j].0
}

proof fn lemma_plain_chars(l: Seq<char>)
    requires
        plain_lang_name(l),
    ensures
        forall|j: int| 0 <= j < l.len() ==> l[j] != '/' && l[j] != '\\',
        dir_entry_name(l) == l + seq!['/'],
{
    assert forall|j: int| 0 <= j < l.len() implies l[j] != '/' && l[j] != '\\' by {
        if l[j] == '/' {
            assert(l.contains('/'));
        }
        if l[j] == '\\' {
            assert(l.contains('\\'));
        }
    }
}

proof fn lemma_lang_entry_names(a: Seq<char>, b: Seq<char>)
    requires
        plain_lang_name(a),
        plain_lang_name(b),
    ensures
        a != b ==> a + seq!['/'] != b + seq!['/'],
        a != b ==> a + "/Game.po"@ != b + "/Game.po"@,
        a + seq!['/'] != b + "/Game.po"@,
        a + "/Game.po"@ != b + seq!['/'],
{
    reveal_strlit("/Game.po");
    if a != b {
        if a + seq!['/'] == b + seq!['/'] {
            assert((a + seq!['/']).drop_last() =~= a);
            assert((b + seq!['/']).drop_last() =~= b);
        }
        if a + "/Game.po"@ == b + "/Game.po"@ {
            assert(a.len() == b.len());
            assert(a =~= b) by {
                assert(forall|j: int|
                    0 <= j < a.len() ==> a[j] == (a + "/Game.po"@)[j] && b[j] == (b
                        + "/Game.po"@)[j]);
            }
        }
    }
    assert((a + seq!['/']).last() == '/');
    assert((b + "/Game.po"@).last() == 'o');
    assert((a + "/Game.po"@).last() == 'o');
    assert((b + seq!['/']).last() == '/');
}

proof fn lemma_po_entries_len(ls: Seq<(Seq<char>, Seq<u8>)>)
    ensures
        po_archive_entries(ls).len() == 2 * ls.len(),
    decreases ls.len(),
{
    if ls.len() > 0 {
        lemma_po_entries_len(ls.drop_first());
    }
}

proof fn lemma_po_entries_concat(a: Seq<(Seq<char>, Seq<u8>)>, b: Seq<(Seq<char>, Seq<u8>)>)
    ensures
        po_archive_entries(a + b) == po_archive_entries(a) + po_archive_entries(b),
    decreases a.len(),
{
    if a.len() == 0 {
        assert(a + b =~= b);
        assert(po_archive_entries(a) + po_archive_entries(b) =~= po_archive_entries(b));
    } else {
        assert((a + b)[0] == a[0]);
        assert((a + b).drop_first() =~= a.drop_first() + b);
        lemma_po_entries_concat(a.drop_first(), b);
        assert(po_archive_entries(a + b) =~= po_archive_entries(a) + po_archive_entries(b));
    }
}

proof fn lemma_po_names_avoid(ls: Seq<(Seq<char>, Seq<u8>)>, x: Seq<char>)
    requires
        plain_lang_name(x),
        forall|m: int| 0 <= m < ls.len() ==> plain_lang_name((#[trigger] ls[m]).0),
        forall|m: int| 0 <= m < ls.len() ==> (#[trigger] ls[m]).0 != x,
    ensures
        forall|k: int|
            0 <= k < po_archive_entries(ls).len() ==> (#[trigger] po_archive_entries(ls)[k]).0
                != dir_entry_name(x) && po_archive_entries(ls)[k].0 != x + "/Game.po"@,
    decreases ls.len(),
{
    lemma_plain_chars(x);
    if ls.len() > 0 {
        let rest = ls.drop_first();
        assert(forall|m: int| 0 <= m < rest.len() ==> rest[m] == ls[m + 1]);
        lemma_po_names_avoid(rest, x);
        lemma_plain_chars(ls[0].0);
        lemma_lang_entry_names(ls[0].0, x);
        let es = po_archive_entries(ls);
        assert forall|k: int|
            0 <= k < es.len() implies (#[trigger] es[k]).0 != dir_entry_name(x) && es[k].0 != x
            + "/Game.po"@ by {
            if k == 0 {
                assert(es[0].0 == dir_entry_name(ls[0].0));
            } else if k == 1 {
                assert(es[1].0 == ls[0].0 + "/Game.po"@);
            } else {
                assert(es[k] == po_archive_entries(rest)[k - 2]);
            }
        }
    }
}

proof fn lemma_po_entries_fit(ls: Seq<(Seq<char>, Seq<u8>)>)
    requires
        forall|m: int|
            0 <= m < ls.len() ==> plain_lang_name((#[trigger] ls[m]).0) && ls[m].0.len() <= 0x3000
                && crate::archive::data_fits(ls[m].1),
    ensures
        crate::archive::entries_fit(po_archive_entries(ls)),
    decreases ls.len(),
{
    reveal_strlit("/Game.po");
    if ls.len() > 0 {
        let rest = ls.drop_first();
        assert(forall|m: int| 0 <= m < rest.len() ==> rest[m] == ls[m + 1]);
        lemma_po_entries_fit(rest);
        lemma_plain_chars(ls[0].0);
        let es = po_archive_entries(ls);
        assert forall|k: int|
            0 <= k < es.len() implies crate::archive::name_fits((#[trigger] es[k]).0)
            && crate::archive::data_fits(es[k].2) by {
            if k == 0 {
                assert(es[0].0 == ls[0].0 + seq!['/']);
            } else if k == 1 {
                assert(es[1].0 == ls[0].0 + "/Game.po"@);
            } else {
                assert(es[k] == po_archive_entries(rest)[k - 2]);
            }
        }
    }
}

/// Build the whole PO archive in memory from the languages and their PO
/// file contents, in order. Nothing reaches disk here, so a failed export
/// leaves no partial archive anywhere. On packable languages — the only
/// kind a language-directory scan produces — the build cannot fail.
pub fn build_po_archive(langs: &Vec<(String, Vec<u8>)>) -> (r: Result<Vec<u8>, Error>)
    ensures
        r is Ok ==> archive_decodes_to(r->Ok_0@, po_archive_entries(lang_data_views(langs@))),
        packable_langs(lang_data_views(langs@)) ==> r is Ok,
{
    let ghost lv = lang_data_views(langs@);
    let ghost packable = packable_langs(lv);
    let mut w = ArchiveWriter::new();
    let mut i: usize = 0;
    proof {
        assert(lv.subrange(0, lv.len() as int) =~= lv);
        assert(writer_entries(&w) + po_archive_entries(lv) =~= po_archive_entries(lv));
    }
    while i < langs.len()
        invariant
            lv == lang_data_views(langs@),
            packable == packable_langs(lv),
            i <= langs@.len(),
            writer_entries(&w) + po_archive_entries(lv.subrange(i as int, lv.len() as int))
                == po_archive_entries(lv),
        decreases langs@.len() - i,
    {
        let ghost suffix = lv.subrange(i as int, lv.len() as int);
        let ghost pre = lv.subrange(0, i as int);
        let ghost we0 = writer_entries(&w);
        let ghost lang = lv[i as int].0;
        proof {
            reveal_strlit("/Game.po");
            assert(suffix[0] == (langs@[i as int].0@, langs@[i as int].1@));
            assert(suffix.drop_first() =~= lv.subrange(i + 1, lv.len() as int));
            // The writer so far holds exactly the entries of the languages
            // already packed.
            let popre = po_archive_entries(pre);
            let posuf = po_archive_entries(suffix);
            lemma_po_entries_concat(pre, suffix);
            assert(pre + suffix =~= lv);
            lemma_po_entries_len(pre);
            lemma_po_entries_len(suffix);
            lemma_po_entries_len(lv);
            assert(we0.len() == popre.len());
            assert(we0 =~= popre) by {
                assert forall|k: int| 0 <= k < we0.len() implies we0[k] == popre[k] by {
                    assert(we0[k] == (we0 + posuf)[k]);
                    assert(popre[k] == (popre + posuf)[k]);
                }
            }
            if packable {
                assert(plain_lang_name(lv[i as int].0) && lv[i as int].0.len() <= 0x3000
                    && crate::archive::data_fits(lv[i as int].1));
                lemma_plain_chars(lang);
                assert forall|m: int|
                    0 <= m < pre.len() implies plain_lang_name((#[trigger] pre[m]).0)
                    && pre[m].0 != lang && pre[m].0.len() <= 0x3000 && crate::archive::data_fits(
                    pre[m].1,
                ) by {
                    assert(pre[m] == lv[m]);
                }
                lemma_po_names_avoid(pre, lang);
                lemma_po_entries_fit(pre);
                assert(crate::archive::entries_fit(we0));
                assert(crate::archive::name_fits(dir_entry_name(lang)));
                assert(!crate::archive::stored_names(we0).contains(dir_entry_name(lang))) by {
                    if crate::archive::stored_names(we0).contains(dir_entry_name(lang)) {
                        let k = choose|k: int|
                            0 <= k < crate::archive::stored_names(we0).len()
                                && crate::archive::stored_names(we0)[k] == dir_entry_name(lang);
                        assert(crate::archive::stored_names(we0)[k] == we0[k].0);
                    }
                }
            }
        }
        let name = &langs[i].0;
        if let Err(e) = w.add_directory(name.as_str()) {
            proof {
                if packable {
                    assert(name@ == lang);
                    assert(false);
                }
            }
            return Err(e);
        }
        let ghost we1 = writer_entries(&w);
        let fname = concat2(name.as_str(), "/Game.po");
        proof {
            reveal_strlit("/Game.po");
            assert(fname@.len() > 0);
            assert(fname@.last() == 'o') by {
                assert(fname@.last() == "/Game.po"@.last());
            }
            if packable {
                assert(we1 == we0.push((dir_entry_name(lang), false, Seq::<u8>::empty())));
                lemma_lang_entry_names(lang, lang);
                assert(crate::archive::entries_fit(we1)) by {
                    assert(forall|k: int| 0 <= k < we0.len() ==> we1[k] == we0[k]);
                    assert(we1.last().0 == dir_entry_name(lang));
                }
                assert(crate::archive::name_fits(fname@));
                assert(!crate::archive::stored_names(we1).contains(fname@)) by {
                    lemma_plain_chars(lang);
                    assert(dir_entry_name(lang) != fname@);
                    if crate::archive::stored_names(we1).contains(fname@) {
                        let k = choose|k: int|
                            0 <= k < crate::archive::stored_names(we1).len()
                                && crate::archive::stored_names(we1)[k] == fname@;
                        assert(crate::archive::stored_names(we1)[k] == we1[k].0);
                        if k < we0.len() {
                            assert(we1[k] == po_archive_entries(pre)[k]);
                        }
                    }
                }
            }
        }
        if let Err(e) = w.start_file(fname.as_str()) {
            proof {
                if packable {
                    assert(false);
                }
            }
            return Err(e);
        }
        let ghost before = writer_entries(&w);
        if let Err(e) = w.write_data(langs[i].1.as_slice()) {
            proof {
                if packable {
                    assert(before == we1.push((fname@, true, Seq::<u8>::empty())));
                    assert(Seq::<u8>::empty() + langs@[i as int].1@ =~= lv[i as int].1);
                    assert(crate::archive::data_fits(lv[i as int].1));
                    assert(false);
                }
            }
            return Err(e);
        }
        proof {
            assert(before.last() == (suffix[0].0 + "/Game.po"@, true, Seq::<u8>::empty()));
            assert(Seq::<u8>::empty() + langs@[i as int].1@ =~= suffix[0].1);
            assert(writer_entries(&w) =~= before.drop_last().push(
                (suffix[0].0 + "/Game.po"@, true, suffix[0].1),
            ));
            assert(writer_entries(&w) + po_archive_entries(suffix.drop_first())
                =~= po_archive_entries(lv));
        }
        i += 1;
    }
    proof {
        assert(lv.subrange(lv.len() as int, lv.len() as int) =~= Seq::<(Seq<char>, Seq<u8>)>::empty());
        assert(writer_entries(&w) =~= po_archive_entries(lv));
        if packable {
            lemma_po_entries_fit(lv);
        }
    }
    w.finish()
}

/// Whether an extracted entry name is safe to resolve below the import
/// directory: relative, free of backslashes, and without a parent-directory
/// component — the enclosed-path guard.
pub open spec fn is_safe_entry_name(n: Seq<char>) -> bool {
    n.len() > 0 && n[0] != '/' && !n.contains('\\') && !split_on(n, '/').contains(".."@)
}

/// Whether an entry name is extracted: safe, named `Game.po` as its last
/// component, and lying in a named language directory.
pub open spec fn takes_name(n: Seq<char>) -> bool {
    is_safe_entry_name(n) && file_name_of(n) == "Game.po"@ && parent_of(n).len() > 0
        && file_name_of(parent_of(n)).len() > 0
}

/// The language an extracted entry belongs to: its immediate parent
/// directory's name.
pub open spec fn lang_of(n: Seq<char>) -> Seq<char> {
    file_name_of(parent_of(n))
}

/// The extraction of an archive's entries: each file entry that passes the
/// name rule contributes its language and bytes, in entry order.
pub open spec fn selected_po(
    entries: Seq<(Seq<char>, bool, Seq<u8>)>,
) -> Seq<(Seq<char>, Seq<u8>)>
    decreases entries.len(),
{
    if entries.len() == 0 {
        Seq::empty()
    } else {
        let e = entries[0];
        let rest = selected_po(entries.drop_first());
        if e.1 && takes_name(e.0) {
            seq![(lang_of(e.0), e.2)] + rest
        } else {
            rest
        }
    }
}

/// The language an entry is extracted to, if it is extracted at all.
fn entry_language(name: &str, is_file: bool) -> (r: Option<String>)
    ensures
        r is Some <==> is_file && takes_name(name@),
        r is Some ==> r->Some_0@ == lang_of(name@),
{
    if !is_file {
        return None;
    }
    let n = name.unicode_len();
    if n == 0 {
        return None;
    }
    if name.get_char(0) == '/' {
        proof {
            assert(!is_safe_entry_name(name@));
        }
        return None;
    }
    match crate::strutil::str_find_char(name, '\\') {
        Some(i) => {
            proof {
                assert(name@.contains('\\')) by {
                    assert(name@[i as int] == '\\');
                }
            }
            return None;
        },
        None => {
            proof {
                crate::strutil::lemma_ffind(name@, '\\');
                if name@.contains('\\') {
                    let k = choose|k: int|
                        0 <= k < name@.len() && name@[k] == '\\';
                    assert(name@[k] != '\\');
                }
            }
        },
    }
    let parts = str_split(name, '/');
    if crate::strutil::vec_contains_str(&parts, "..") {
        return None;
    }
    proof {
        assert(is_safe_entry_name(name@));
    }
    let fname = crate::paths::file_name(name);
    if !crate::strutil::str_eq(fname.as_str(), "Game.po") {
        return None;
    }
    let par = crate::paths::parent(name);
    if par.as_str().unicode_len() == 0 {
        return None;
    }
    let lang = crate::paths::file_name(par.as_str());
    if lang.as_str().unicode_len() == 0 {
        return None;
    }
    Some(lang)
}

/// Extract the `(language, bytes)` pairs an archive's entries yield.
pub fn select_po_entries(entries: &Vec<(String, bool, Vec<u8>)>) -> (r: Vec<(String, Vec<u8>)>)
    ensures
        lang_data_views(r@) == selected_po(entry_views(entries@)),
{
    let ghost ev = entry_views(entries@);
    let mut out: Vec<(String, Vec<u8>)> = Vec::new();
    let mut i: usize = 0;
    proof {
        assert(ev.subrange(0, ev.len() as int) =~= ev);
        assert(lang_data_views(out@) + selected_po(ev) =~= selected_po(ev));
    }
    while i < entries.len()
        invariant
            ev == entry_views(entries@),
            i <= entries@.len(),
            lang_data_views(out@) + selected_po(ev.subrange(i as int, ev.len() as int))
                == selected_po(ev),
        decreases entries@.len() - i,
    {
        let ghost suffix = ev.subrange(i as int, ev.len() as int);
        proof {
            assert(suffix[0] == (entries@[i as int].0@, entries@[i as int].1, entries@[
                i as int
            ].2@));
            assert(suffix.drop_first() =~= ev.subrange(i + 1, ev.len() as int));
        }
        match entry_language(entries[i].0.as_str(), entries[i].1) {
            Some(lang) => {
                let data = entries[i].2.clone();
                let ghost before = out@;
                out.push((lang, data));
                proof {
                    assert(lang_data_views(out@) =~= lang_data_views(before).push(
                        (lang_of(suffix[0].0), suffix[0].2),
                    ));
                    assert(lang_data_views(out@) + selected_po(suffix.drop_first())
                        =~= selected_po(ev));
                }
            },
            None => {},
        }
        i += 1;
    }
    proof {
        assert(ev.subrange(ev.len() as int, ev.len() as int) =~= Seq::<(
            Seq<char>,
            bool,
            Seq<u8>,
        )>::empty());
        assert(lang_data_views(out@) =~= selected_po(ev));
    }
    out
}

impl ImportPOZip {
    /// Where one extracted language lands below the import directory: its
    /// own subdirectory, holding `Game.po`.
    pub fn po_destination(import_root: &str, lang: &str) -> (r: (String, String))
        ensures
            r.0@ == path_join(import_root@, lang@),
            r.1@ == path_join(path_join(import_root@, lang@), "Game.po"@),
    {
        let dir = crate::paths::join(import_root, lang);
        let file = crate::paths::join(dir.as_str(), "Game.po");
        (dir, file)
    }
}

/// A language name as the export stage produces them: a plain directory
/// name, with no separators and no parent-directory meaning.
pub open spec fn plain_lang_name(l: Seq<char>) -> bool {
    l.len() > 0 && !l.contains('/') && !l.contains('\\') && l != ".."@
}

proof fn lemma_file_entry_name_facts(l: Seq<char>)
    requires
        plain_lang_name(l),
    ensures
        takes_name(l + "/Game.po"@),
        lang_of(l + "/Game.po"@) == l,
    decreases l.len(),
{
    reveal_strlit("/Game.po");
    reveal_strlit("Game.po");
    reveal_strlit("..");
    let f = l + "/Game.po"@;
    assert(forall|j: int| 0 <= j < l.len() ==> l[j] != '/') by {
        if exists|j: int| 0 <= j < l.len() && l[j] == '/' {
            let j = choose|j: int| 0 <= j < l.len() && l[j] == '/';
            assert(l.contains('/')) by {
                assert(l[j] == '/');
            }
        }
    }
    assert(forall|j: int| 0 <= j < l.len() ==> l[j] != '\\') by {
        if exists|j: int| 0 <= j < l.len() && l[j] == '\\' {
            let j = choose|j: int| 0 <= j < l.len() && l[j] == '\\';
            assert(l.contains('\\')) by {
                assert(l[j] == '\\');
            }
        }
    }
    assert(f[l.len() as int] == '/');
    assert(forall|j: int| l.len() < j < f.len() ==> f[j] == "/Game.po"@[j - l.len()]);
    assert(forall|j: int| l.len() < j < f.len() ==> f[j] != '/');
    // The last separator of the file entry sits exactly before `Game.po`.
    crate::strutil::lemma_rfind(f, '/');
    let k = match rfind(f, '/') {
        Some(k) => k,
        None => {
            assert(f[l.len() as int] != '/');
            0
        },
    };
    assert(rfind(f, '/') == Some(l.len() as int)) by {
        assert(f[k] == '/');
        assert(!(k < l.len()) || l[k] == '/');
        assert(!(k > l.len()));
        assert(k == l.len());
    }
    assert(parent_of(f) =~= l);
    assert(file_name_of(f) =~= "Game.po"@);
    // The language directory has no separator, so it is its own file name.
    crate::strutil::lemma_rfind(l, '/');
    assert(rfind(l, '/') is None) by {
        if rfind(l, '/') is Some {
            let j = rfind(l, '/')->Some_0;
            assert(l[j] == '/');
        }
    }
    assert(file_name_of(l) =~= l);
    assert(lang_of(f) == l);
    // Safety: relative, no backslash, no parent-directory component.
    assert(f[0] == l[0]);
    assert(f[0] != '/');
    assert(!f.contains('\\')) by {
        if f.contains('\\') {
            let j = choose|j: int| 0 <= j < f.len() && f[j] == '\\';
            assert(f[j] != '\\');
        }
    }
    assert(split_on(f, '/') =~= seq![l, "Game.po"@]) by {
        crate::strutil::lemma_split_no_sep(l, '/');
        let lp = l.push('/');
        assert(lp.drop_last() =~= l);
        assert(split_on(lp, '/') =~= seq![l, Seq::<char>::empty()]);
        assert(forall|j: int| 0 <= j < "Game.po"@.len() ==> "Game.po"@[j] != '/');
        crate::strutil::lemma_split_append_nosep(lp, "Game.po"@, '/');
        assert(f =~= lp + "Game.po"@);
        assert(Seq::<char>::empty() + "Game.po"@ =~= "Game.po"@);
    }
    assert(!split_on(f, '/').contains(".."@)) by {
        assert("Game.po"@.len() == 7);
        assert(".."@.len() == 2);
        if split_on(f, '/').contains(".."@) {
            let j = choose|j: int|
                0 <= j < split_on(f, '/').len() && split_on(f, '/')[j] == ".."@;
            assert(split_on(f, '/')[j] != ".."@);
        }
    }
    assert(is_safe_entry_name(f));
}

/// Import-archive round trip: extracting the archive the export stage
/// builds recovers exactly the language / PO-content pairs that were
/// packed, in order. Holds for plainly named languages — the only names a
/// language directory scan produces.
pub proof fn lemma_po_round_trip(langs: Seq<(Seq<char>, Seq<u8>)>)
    requires
        forall|i: int| 0 <= i < langs.len() ==> plain_lang_name(#[trigger] langs[i].0),
    ensures
        selected_po(po_archive_entries(langs)) == langs,
    decreases langs.len(),
{
    if langs.len() == 0 {
        assert(selected_po(po_archive_entries(langs)) =~= langs);
    } else {
        let l = langs[0].0;
        let data = langs[0].1;
        let es = po_archive_entries(langs);
        let rest = po_archive_entries(langs.drop_first());
        lemma_file_entry_name_facts(l);
        assert(forall|i: int|
            0 <= i < langs.drop_first().len() ==> plain_lang_name(
                #[trigger] langs.drop_first()[i].0,
            )) by {
            assert(forall|i: int|
                0 <= i < langs.drop_first().len() ==> langs.drop_first()[i] == langs[i + 1]);
        }
        lemma_po_round_trip(langs.drop_first());
        assert(es[0] == (dir_entry_name(l), false, Seq::<u8>::empty()));
        assert(es.drop_first() =~= seq![(l + "/Game.po"@, true, data)] + rest);
        let tail = es.drop_first();
        assert(selected_po(es) == selected_po(tail));
        assert(tail[0] == (l + "/Game.po"@, true, data));
        assert(tail.drop_first() =~= rest);
        assert(selected_po(tail) == seq![(lang_of(l + "/Game.po"@), data)] + selected_po(rest));
        assert(selected_po(es) =~= langs) by {
            assert(selected_po(rest) == langs.drop_first());
        }
    }
}

} // verus!

