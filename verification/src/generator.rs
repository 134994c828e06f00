use vstd::prelude::*;
use vstd::string::*;
use crate::error::CodingGameError;
use crate::game_session::{GameData, GameDataTest};
use crate::language::Language;

verus! {

/// One template of an asset store: a relative path and the template
/// body that will be rendered into the file at that path.
pub struct AssetEntry {
    pub relative_path: String,
    pub template_body: String,
}

/// One concrete file the generator will write.
pub struct FileSpec {
    pub path: String,
    pub contents: String,
}

/// One materialized test fixture: its directory and its two files.
pub struct FixtureSpec {
    pub dir: String,
    pub input: FileSpec,
    pub output: FileSpec,
}

/// Everything the generator decides before any directory is created:
/// the project directory, the persisted configuration file, and the
/// fixture files, in original test order.
pub struct GenerationPlan {
    pub project_dir: String,
    pub config: FileSpec,
    pub fixtures: Vec<FixtureSpec>,
}

/// The directory of the fixture with the given label.
pub open spec fn fixture_dir_spec(root: Seq<char>, safe_label: Seq<char>) -> Seq<char> {
    root + "/tests/data/"@ + safe_label
}

/// The serialized token of a language in the configuration file.
pub open spec fn language_token(l: Language) -> Seq<char> {
    match l {
        Language::Rust => "rust"@,
    }
}

/// The exact text of the persisted project configuration file.
pub open spec fn config_contents_spec(name: Seq<char>, l: Language) -> Seq<char> {
    "name = \""@ + name + "\"\nlanguage = \""@ + language_token(l) + "\"\n"@
}

/// The configuration file is the single source of truth for a managed
/// project: for names made of safe characters, its text determines the
/// project name and the language exactly.
pub proof fn lemma_config_contents_injective(
    n1: Seq<char>,
    l1: Language,
    n2: Seq<char>,
    l2: Language,
)
    requires
        forall|i: int| 0 <= i < n1.len() ==> crate::game_session::is_safe_char(#[trigger] n1[i]),
        forall|i: int| 0 <= i < n2.len() ==> crate::game_session::is_safe_char(#[trigger] n2[i]),
        config_contents_spec(n1, l1) == config_contents_spec(n2, l2),
    ensures
        n1 == n2,
        l1 == l2,
{
    reveal_strlit("name = \"");
    reveal_strlit("\"\nlanguage = \"");
    let p = "name = \""@;
    let q = "\"\nlanguage = \""@;
    let s1 = config_contents_spec(n1, l1);
    let s2 = config_contents_spec(n2, l2);
    assert(q[0] == '"');
    if n1.len() < n2.len() {
        let at = p.len() as int + n1.len() as int;
        assert(s1[at] == q[0]);
        assert(s2[at] == n2[n1.len() as int]);
        assert(crate::game_session::is_safe_char(n2[n1.len() as int]));
        assert(false);
    }
    if n2.len() < n1.len() {
        let at = p.len() as int + n2.len() as int;
        assert(s2[at] == q[0]);
        assert(s1[at] == n1[n2.len() as int]);
        assert(crate::game_session::is_safe_char(n1[n2.len() as int]));
        assert(false);
    }
    assert forall|i: int| 0 <= i < n1.len() implies n1[i] == n2[i] by {
        assert(s1[p.len() + i] == n1[i]);
        assert(s2[p.len() + i] == n2[i]);
    }
    assert(n1 =~= n2);
}

/// The name of the configuration file at a project's root.
pub fn config_file_name() -> (r: String)
    ensures
        r@ == "CodingGame.toml"@,
{
    "CodingGame.toml".to_owned()
}

/// The path a rendered template is written to, under the project root.
pub fn rendered_path(root: &str, relative: &str) -> (r: String)
    ensures
        r@ == root@ + "/"@ + relative@,
{
    let mut out = root.to_owned();
    out.append("/");
    out.append(relative);
    out
}

/// Write out the configuration file's text for a project.
pub fn config_file_contents(name: &str, language: Language) -> (r: String)
    ensures
        r@ == config_contents_spec(name@, language),
{
    let mut out = "name = \"".to_owned();
    out.append(name);
    out.append("\"\nlanguage = \"");
    match language {
        Language::Rust => out.append("rust"),
    }
    out.append("\"\n");
    out
}

/// Refuse to treat a directory without a configuration file as a
/// managed project; succeed exactly when the file is present.
pub fn require_managed(config_present: bool, path: &str) -> (r: Result<(), CodingGameError>)
    ensures
        r is Ok <==> config_present,
        r is Err ==> (r->Err_0 matches CodingGameError::NotACodingGamePuzzle(p) && p@ == path@),
{
    if config_present {
        Ok(())
    } else {
        Err(CodingGameError::NotACodingGamePuzzle(path.to_owned()))
    }
}

/// The on-disk plan for one fixture, in original order.
fn fixture_plan(root: &str, tests: &Vec<GameDataTest>) -> (r: Vec<FixtureSpec>)
    ensures
        r@.len() == tests@.len(),
        forall|i: int|
            0 <= i < r@.len() ==> {
                &&& (#[trigger] r@[i]).dir@ == fixture_dir_spec(root@, tests@[i].safe_label@)
                &&& r@[i].input.path@ == fixture_dir_spec(root@, tests@[i].safe_label@)
                    + "/input.txt"@
                &&& r@[i].input.contents == tests@[i].input_text
                &&& r@[i].output.path@ == fixture_dir_spec(root@, tests@[i].safe_label@)
                    + "/output.txt"@
                &&& r@[i].output.contents == tests@[i].output_text
            },
{
    let n = tests.len();
    let mut out: Vec<FixtureSpec> = Vec::new();
    let mut i: usize = 0;
    while i < n
        invariant
            i <= n,
            n == tests@.len(),
            out@.len() == i,
            forall|k: int|
                0 <= k < i ==> {
                    &&& (#[trigger] out@[k]).dir@ == fixture_dir_spec(root@, tests@[k].safe_label@)
                    &&& out@[k].input.path@ == fixture_dir_spec(root@, tests@[k].safe_label@)
                        + "/input.txt"@
                    &&& out@[k].input.contents == tests@[k].input_text
                    &&& out@[k].output.path@ == fixture_dir_spec(root@, tests@[k].safe_label@)
                        + "/output.txt"@
                    &&& out@[k].output.contents == tests@[k].output_text
                },
        decreases n - i,
    {
        let mut dir = root.to_owned();
        dir.append("/tests/data/");
        dir.append(tests[i].safe_label.as_str());
        let mut input_path = dir.clone();
        input_path.append("/input.txt");
        let mut output_path = dir.clone();
        output_path.append("/output.txt");
        out.push(
            FixtureSpec {
                dir,
                input: FileSpec { path: input_path, contents: tests[i].input_text.clone() },
                output: FileSpec { path: output_path, contents: tests[i].output_text.clone() },
            },
        );
        i = i + 1;
    }
    out
}

/// Decide a generation run before anything touches the disk: if the
/// target directory already exists the run fails, with nothing to
/// create; otherwise the plan names the project directory, the
/// configuration file and every fixture file, in original test order.
pub fn generation_plan(game_data: &GameData, language: Language, target_exists: bool) -> (r:
    Result<GenerationPlan, CodingGameError>)
    ensures
        r is Err <==> target_exists,
        r is Err ==> (r->Err_0 matches CodingGameError::PuzzleAlreadyExists(n) && n@
            == game_data.safe_name@),
        r is Ok ==> ({
            let plan = r->Ok_0;
            &&& plan.project_dir == game_data.safe_name
            &&& plan.config.path@ == game_data.safe_name@ + "/"@ + "CodingGame.toml"@
            &&& plan.config.contents@ == config_contents_spec(game_data.safe_name@, language)
            &&& plan.fixtures@.len() == game_data.tests@.len()
            &&& forall|i: int|
                0 <= i < plan.fixtures@.len() ==> {
                    &&& (#[trigger] plan.fixtures@[i]).dir@ == fixture_dir_spec(
                        game_data.safe_name@,
                        game_data.tests@[i].safe_label@,
                    )
                    &&& plan.fixtures@[i].input.path@ == fixture_dir_spec(
                        game_data.safe_name@,
                        game_data.tests@[i].safe_label@,
                    ) + "/input.txt"@
                    &&& plan.fixtures@[i].input.contents == game_data.tests@[i].input_text
                    &&& plan.fixtures@[i].output.path@ == fixture_dir_spec(
                        game_data.safe_name@,
                        game_data.tests@[i].safe_label@,
                    ) + "/output.txt"@
                    &&& plan.fixtures@[i].output.contents == game_data.tests@[i].output_text
                }
        }),
{
    if target_exists {
        return Err(CodingGameError::PuzzleAlreadyExists(game_data.safe_name.clone()));
    }
    let root = game_data.safe_name.clone();
    let name_file = config_file_name();
    let config_path = rendered_path(root.as_str(), name_file.as_str());
    let contents = config_file_contents(root.as_str(), language);
    let fixtures = fixture_plan(root.as_str(), &game_data.tests);
    Ok(
        GenerationPlan {
            project_dir: root,
            config: FileSpec { path: config_path, contents },
            fixtures,
        },
    )
}

} // verus!
