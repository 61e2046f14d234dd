//! Installing the core programs and the analysis scripts.
//!
//! The server installs what it runs under its own home, in versions that it
//! was made for, so that it does not depend on what else is installed on the
//! machine. This module says which commands do that; the caller runs them
//! one after another and stops at the first that fails.
use crate::error::ExitOutcome;
use crate::job::{CommandLine, Config};
use crate::script::{python3, python3_path};
use crate::sorting::texts;
use crate::text::{join_path, joined};
use vstd::prelude::*;
use vstd::string::*;

verus! {

/// The package of the core programs, with the versions that the server
/// works with.
pub open spec fn core_package() -> Seq<char> {
    "alpha-g-analysis@^0.5.4"@
}

/// The versions of the analysis scripts that the server works with.
pub open spec fn scripts_requirement() -> Seq<char> {
    "^0.1.1"@
}

/// Where the analysis scripts are kept.
pub open spec fn scripts_source() -> Seq<char> {
    "https://github.com/ALPHA-g-Experiment/analysis-scripts.git"@
}

/// The directory of the checked-out analysis scripts under `project_home`.
pub open spec fn scripts_home(project_home: Seq<char>) -> Seq<char> {
    joined(project_home, "analysis-scripts"@)
}

/// The command that installs the core programs under the project's home.
pub fn install_core_binaries(config: &Config) -> (r: CommandLine)
    ensures
        r.program@ == "cargo"@,
        texts(r.args@) == seq![
            "install"@,
            "--quiet"@,
            "--locked"@,
            "--root"@,
            joined(config.project_home@, "rust"@),
            core_package(),
        ],
{
    let mut args: Vec<String> = Vec::new();
    args.push(String::from_str("install"));
    args.push(String::from_str("--quiet"));
    args.push(String::from_str("--locked"));
    args.push(String::from_str("--root"));
    args.push(join_path(config.project_home.as_str(), "rust"));
    args.push(String::from_str("alpha-g-analysis@^0.5.4"));
    assert(texts(args@) =~= seq![
        "install"@,
        "--quiet"@,
        "--locked"@,
        "--root"@,
        joined(config.project_home@, "rust"@),
        core_package(),
    ]);
    CommandLine { program: String::from_str("cargo"), args }
}

/// Whether `semver` reads `requirement` as a version requirement and
/// `version` as a version, and the version meets the requirement.
pub uninterp spec fn meets(requirement: Seq<char>, version: Seq<char>) -> bool;

/// `semver::VersionReq::matches`, on what `semver::VersionReq::parse` makes
/// of `requirement` and `semver::Version::parse` of `version`; `false` where
/// one of the two cannot be read.
#[verifier::external_body]
fn version_meets(requirement: &str, version: &str) -> (r: bool)
    ensures
        r == meets(requirement@, version@),
{
    match (semver::VersionReq::parse(requirement), semver::Version::parse(version)) {
        (Ok(requirement), Ok(version)) => requirement.matches(&version),
        _ => false,
    }
}

/// Whether `tag` names a version of the scripts that the server works with:
/// one character, `v` by custom, and then a version that meets the
/// requirement.
pub open spec fn is_supported(tag: Seq<char>) -> bool {
    tag.len() > 0 && meets(scripts_requirement(), tag.subrange(1, tag.len() as int))
}

/// The place of the first `true` in `marks` from `from` on, or the number of
/// `marks` where there is none.
pub open spec fn first_marked(marks: Seq<bool>, from: int) -> int
    decreases marks.len() - from,
{
    if from < 0 || from >= marks.len() {
        marks.len() as int
    } else if marks[from] {
        from
    } else {
        first_marked(marks, from + 1)
    }
}

/// Nothing before the first mark is marked, and the first mark is.
pub proof fn lemma_first_marked(marks: Seq<bool>, from: int)
    requires
        0 <= from <= marks.len(),
    ensures
        from <= first_marked(marks, from) <= marks.len(),
        forall|j: int| from <= j < first_marked(marks, from) ==> !marks[j],
        first_marked(marks, from) < marks.len() ==> marks[first_marked(marks, from)],
    decreases marks.len() - from,
{
    if from < marks.len() && !marks[from] {
        lemma_first_marked(marks, from + 1);
    }
}

/// The first of `tags` that is marked as supported: `supported` holds, for
/// each tag in turn, whether it names a supported version. A tag without a
/// mark counts as not supported.
pub fn first_supported(tags: &Vec<String>, supported: &Vec<bool>) -> (r: Option<String>)
    ensures
        match r {
            Some(tag) => first_marked(supported@, 0) < tags@.len() && first_marked(supported@, 0)
                < supported@.len() && tag == tags@[first_marked(supported@, 0)],
            None => first_marked(supported@, 0) >= tags@.len() || first_marked(supported@, 0)
                >= supported@.len(),
        },
{
    let mut i: usize = 0;
    while i < supported.len()
        invariant
            i <= supported@.len(),
            first_marked(supported@, 0) == first_marked(supported@, i as int),
        decreases supported@.len() - i,
    {
        if supported[i] {
            if i < tags.len() {
                return Some(tags[i].clone());
            }
            return None;
        }
        i = i + 1;
    }
    None
}

/// The first of `tags` that names a supported version of the scripts. With
/// the tags listed from the newest version down, this is the newest version
/// that the server works with.
pub fn select_tag(tags: &Vec<String>) -> (r: Option<String>)
    ensures
        match r {
            Some(tag) => exists|i: int|
                0 <= i < tags@.len() && tag == #[trigger] tags@[i] && is_supported(tag@) && forall|
                    j: int,
                |
                    0 <= j < i ==> !is_supported(#[trigger] tags@[j]@),
            None => forall|j: int| 0 <= j < tags@.len() ==> !is_supported(#[trigger] tags@[j]@),
        },
{
    let mut supported: Vec<bool> = Vec::new();
    let mut i: usize = 0;
    while i < tags.len()
        invariant
            i <= tags@.len(),
            supported@.len() == i,
            forall|j: int| 0 <= j < i ==> supported@[j] == is_supported(#[trigger] tags@[j]@),
        decreases tags@.len() - i,
    {
        let tag = &tags[i];
        let len = tag.as_str().unicode_len();
        let answer = len > 0 && version_meets("^0.1.1", tag.as_str().substring_char(1, len));
        supported.push(answer);
        i = i + 1;
    }
    proof {
        lemma_first_marked(supported@, 0);
    }
    first_supported(tags, &supported)
}

/// The steps that set up the analysis scripts, in their order.
#[derive(Debug)]
pub enum SetupStep {
    /// Fetch the scripts.
    Clone,
    /// List the versions of the scripts, newest first.
    ListTags,
    /// Take the version with this tag.
    Checkout(String),
    /// Make the scripts an interpreter of their own.
    MakeVenv,
    /// Bring the installer of that interpreter up to date.
    UpgradePip,
    /// Install what the scripts need.
    InstallRequirements,
}

/// A command, and the directory in which it is run if that matters.
#[derive(Debug)]
pub struct SetupCommand {
    pub line: CommandLine,
    pub dir: Option<String>,
}

impl SetupStep {
    /// The program of the step.
    pub open spec fn program(self, project_home: Seq<char>) -> Seq<char> {
        match self {
            SetupStep::Clone => "git"@,
            SetupStep::ListTags => "git"@,
            SetupStep::Checkout(tag) => "git"@,
            SetupStep::MakeVenv => "python3"@,
            SetupStep::UpgradePip => python3_path(project_home),
            SetupStep::InstallRequirements => python3_path(project_home),
        }
    }

    /// The arguments of the step.
    pub open spec fn arguments(self) -> Seq<Seq<char>> {
        match self {
            SetupStep::Clone => seq!["clone"@, scripts_source()],
            SetupStep::ListTags => seq!["tag"@, "--list"@, "--sort=-v:refname"@, "v*"@],
            SetupStep::Checkout(tag) => seq!["checkout"@, tag@],
            SetupStep::MakeVenv => seq!["-m"@, "venv"@, ".venv"@],
            SetupStep::UpgradePip => seq!["-m"@, "pip"@, "install"@, "--upgrade"@, "pip"@],
            SetupStep::InstallRequirements => seq![
                "-m"@,
                "pip"@,
                "install"@,
                "-r"@,
                "requirements.txt"@,
            ],
        }
    }

    /// The directory in which the step is run, if that matters.
    pub open spec fn directory(self, project_home: Seq<char>) -> Option<Seq<char>> {
        match self {
            SetupStep::Clone => Some(project_home),
            SetupStep::UpgradePip => None,
            _ => Some(scripts_home(project_home)),
        }
    }

    /// What is said when the step fails.
    pub open spec fn complaint(self) -> Seq<char> {
        match self {
            SetupStep::Clone => "`git clone` failed"@,
            SetupStep::ListTags => "`git tag --list` failed"@,
            SetupStep::Checkout(tag) => "`git checkout` failed"@,
            SetupStep::MakeVenv => "`python3 -m venv .venv` failed"@,
            SetupStep::UpgradePip => "`pip upgrade` failed"@,
            SetupStep::InstallRequirements => "`install requirements.txt` failed"@,
        }
    }

    /// The command of the step.
    pub fn command(&self, config: &Config) -> (r: SetupCommand)
        ensures
            r.line.program@ == self.program(config.project_home@),
            texts(r.line.args@) == self.arguments(),
            match r.dir {
                Some(dir) => self.directory(config.project_home@) == Some(dir@),
                None => self.directory(config.project_home@).is_none(),
            },
    {
        let mut args: Vec<String> = Vec::new();
        let home = join_path(config.project_home.as_str(), "analysis-scripts");
        match self {
            SetupStep::Clone => {
                args.push(String::from_str("clone"));
                args.push(
                    String::from_str("https://github.com/ALPHA-g-Experiment/analysis-scripts.git"),
                );
                assert(texts(args@) =~= self.arguments());
                SetupCommand {
                    line: CommandLine { program: String::from_str("git"), args },
                    dir: Some(config.project_home.clone()),
                }
            },
            SetupStep::ListTags => {
                args.push(String::from_str("tag"));
                args.push(String::from_str("--list"));
                args.push(String::from_str("--sort=-v:refname"));
                args.push(String::from_str("v*"));
                assert(texts(args@) =~= self.arguments());
                SetupCommand {
                    line: CommandLine { program: String::from_str("git"), args },
                    dir: Some(home),
                }
            },
            SetupStep::Checkout(tag) => {
                args.push(String::from_str("checkout"));
                args.push(tag.clone());
                assert(texts(args@) =~= self.arguments());
                SetupCommand {
                    line: CommandLine { program: String::from_str("git"), args },
                    dir: Some(home),
                }
            },
            SetupStep::MakeVenv => {
                args.push(String::from_str("-m"));
                args.push(String::from_str("venv"));
                args.push(String::from_str(".venv"));
                assert(texts(args@) =~= self.arguments());
                SetupCommand {
                    line: CommandLine { program: String::from_str("python3"), args },
                    dir: Some(home),
                }
            },
            SetupStep::UpgradePip => {
                args.push(String::from_str("-m"));
                args.push(String::from_str("pip"));
                args.push(String::from_str("install"));
                args.push(String::from_str("--upgrade"));
                args.push(String::from_str("pip"));
                assert(texts(args@) =~= self.arguments());
                SetupCommand { line: CommandLine { program: python3(config), args }, dir: None }
            },
            SetupStep::InstallRequirements => {
                args.push(String::from_str("-m"));
                args.push(String::from_str("pip"));
                args.push(String::from_str("install"));
                args.push(String::from_str("-r"));
                args.push(String::from_str("requirements.txt"));
                assert(texts(args@) =~= self.arguments());
                SetupCommand {
                    line: CommandLine { program: python3(config), args },
                    dir: Some(home),
                }
            },
        }
    }

    /// Judges the step by how its process ended: it is done exactly when the
    /// process ended with exit code 0; otherwise the result says what
    /// failed.
    pub fn check(&self, outcome: ExitOutcome) -> (r: Result<(), String>)
        ensures
            match r {
                Ok(_) => outcome.succeeded(),
                Err(why) => !outcome.succeeded() && why@ == self.complaint(),
            },
    {
        if outcome.success() {
            return Ok(());
        }
        Err(
            String::from_str(
                match self {
                    SetupStep::Clone => "`git clone` failed",
                    SetupStep::ListTags => "`git tag --list` failed",
                    SetupStep::Checkout(tag) => "`git checkout` failed",
                    SetupStep::MakeVenv => "`python3 -m venv .venv` failed",
                    SetupStep::UpgradePip => "`pip upgrade` failed",
                    SetupStep::InstallRequirements => "`install requirements.txt` failed",
                },
            ),
        )
    }
}

} // verus!
