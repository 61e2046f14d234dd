//! Jobs: which program produces an artifact, from which input files, and
//! where the artifact is kept.
//!
//! A job is one run of a core analysis program on the input files of a run
//! number. The program writes a single file whose name and place follow from
//! the job alone, so the file doubles as the record that the job was done.
use crate::error::JobError;
use crate::sorting::{lemma_texts_push, sort_names, sorted_names, texts};
use crate::text::{
    decimal, has_prefix, is_digit, lemma_decimal, lemma_decimal_injective, join_path, joined, padded_decimal, push_decimal, push_padded_decimal,
};
use vstd::prelude::*;
use vstd::string::*;

verus! {

/// The kinds of job, one for each artifact that a core program produces.
#[derive(Clone, Copy, Debug, Hash, PartialEq, Eq, Structural)]
pub enum CoreBin {
    ChronoboxTimestamps,
    InitialOdb,
    FinalOdb,
    Sequencer,
    TrgScalers,
    Vertices,
}

/// A job: a kind and the run number it works on. It names both the artifact
/// and the process that is producing it.
#[derive(Clone, Copy, Debug, Hash, PartialEq, Eq, Structural)]
pub struct CoreCmd {
    pub bin: CoreBin,
    pub run_number: u32,
}

/// Which of a run's input files, sorted by name, a program is given.
#[derive(Clone, Copy, Debug, PartialEq, Eq, Structural)]
pub enum InputRule {
    /// Only the earliest file.
    First,
    /// Only the latest file.
    Last,
    /// Every file, earliest first.
    All,
}

/// How one kind of job is run: the program, whether it is told to read the
/// end of the run, which input files it takes, and the ending of the name of
/// the file it writes.
#[derive(Clone, Copy, Debug)]
pub struct CoreCommand {
    pub program: &'static str,
    pub final_flag: bool,
    pub rule: InputRule,
    pub suffix: &'static str,
}

/// The directories that the server works in.
pub struct Config {
    /// Where the core programs and the analysis scripts are installed.
    pub project_home: String,
    /// Where the input files of all runs are.
    pub data_dir: String,
    /// The root of the cache; each run number has a directory of its own in it.
    pub cache_dir: String,
}

/// A program and its arguments, ready to be started.
#[derive(Debug)]
pub struct CommandLine {
    pub program: String,
    pub args: Vec<String>,
}

impl CoreBin {
    /// The name of the program that does jobs of this kind.
    pub open spec fn program(self) -> Seq<char> {
        match self {
            CoreBin::ChronoboxTimestamps => "alpha-g-chronobox-timestamps"@,
            CoreBin::InitialOdb => "alpha-g-odb"@,
            CoreBin::FinalOdb => "alpha-g-odb"@,
            CoreBin::Sequencer => "alpha-g-sequencer"@,
            CoreBin::TrgScalers => "alpha-g-trg-scalers"@,
            CoreBin::Vertices => "alpha-g-vertices"@,
        }
    }

    /// Which input files jobs of this kind take.
    pub open spec fn rule(self) -> InputRule {
        match self {
            CoreBin::InitialOdb => InputRule::First,
            CoreBin::FinalOdb => InputRule::Last,
            _ => InputRule::All,
        }
    }

    /// What follows the run number in the name of the artifact.
    pub open spec fn suffix(self) -> Seq<char> {
        match self {
            CoreBin::ChronoboxTimestamps => "_chronobox_timestamps.csv"@,
            CoreBin::InitialOdb => "_initial_odb.json"@,
            CoreBin::FinalOdb => "_final_odb.json"@,
            CoreBin::Sequencer => "_sequencer.csv"@,
            CoreBin::TrgScalers => "_trg_scalers.csv"@,
            CoreBin::Vertices => "_vertices.csv"@,
        }
    }

    /// The name of this kind, as it is shown to clients.
    pub open spec fn label(self) -> Seq<char> {
        match self {
            CoreBin::ChronoboxTimestamps => "ChronoboxTimestamps"@,
            CoreBin::InitialOdb => "InitialOdb"@,
            CoreBin::FinalOdb => "FinalOdb"@,
            CoreBin::Sequencer => "Sequencer"@,
            CoreBin::TrgScalers => "TrgScalers"@,
            CoreBin::Vertices => "Vertices"@,
        }
    }

    /// How jobs of this kind are run.
    pub fn command(self) -> (r: CoreCommand)
        ensures
            r.program@ == self.program(),
            r.final_flag == (self == CoreBin::FinalOdb),
            r.rule == self.rule(),
            r.suffix@ == self.suffix(),
    {
        match self {
            CoreBin::ChronoboxTimestamps => CoreCommand {
                program: "alpha-g-chronobox-timestamps",
                final_flag: false,
                rule: InputRule::All,
                suffix: "_chronobox_timestamps.csv",
            },
            CoreBin::InitialOdb => CoreCommand {
                program: "alpha-g-odb",
                final_flag: false,
                rule: InputRule::First,
                suffix: "_initial_odb.json",
            },
            CoreBin::FinalOdb => CoreCommand {
                program: "alpha-g-odb",
                final_flag: true,
                rule: InputRule::Last,
                suffix: "_final_odb.json",
            },
            CoreBin::Sequencer => CoreCommand {
                program: "alpha-g-sequencer",
                final_flag: false,
                rule: InputRule::All,
                suffix: "_sequencer.csv",
            },
            CoreBin::TrgScalers => CoreCommand {
                program: "alpha-g-trg-scalers",
                final_flag: false,
                rule: InputRule::All,
                suffix: "_trg_scalers.csv",
            },
            CoreBin::Vertices => CoreCommand {
                program: "alpha-g-vertices",
                final_flag: false,
                rule: InputRule::All,
                suffix: "_vertices.csv",
            },
        }
    }

    /// The name of this kind, as it is shown to clients.
    pub fn name(self) -> (r: &'static str)
        ensures
            r@ == self.label(),
    {
        match self {
            CoreBin::ChronoboxTimestamps => "ChronoboxTimestamps",
            CoreBin::InitialOdb => "InitialOdb",
            CoreBin::FinalOdb => "FinalOdb",
            CoreBin::Sequencer => "Sequencer",
            CoreBin::TrgScalers => "TrgScalers",
            CoreBin::Vertices => "Vertices",
        }
    }
}

/// The name of the artifact of run `run_number` whose name ends in `suffix`.
pub open spec fn artifact_name(suffix: Seq<char>, run_number: u32) -> Seq<char> {
    "R"@ + decimal(run_number as nat) + suffix
}

impl CoreCommand {
    /// The name of the file that the program writes for run `run_number`.
    pub fn output(&self, run_number: u32) -> (r: String)
        ensures
            r@ == artifact_name(self.suffix@, run_number),
    {
        let mut r = String::from_str("R");
        push_decimal(&mut r, run_number);
        r.append(self.suffix);
        r
    }
}

/// The files that `rule` picks from `sorted`.
pub open spec fn chosen(rule: InputRule, sorted: Seq<Seq<char>>) -> Seq<Seq<char>> {
    if sorted.len() == 0 {
        sorted
    } else {
        match rule {
            InputRule::First => seq![sorted.first()],
            InputRule::Last => seq![sorted.last()],
            InputRule::All => sorted,
        }
    }
}

/// Picks from the sorted names of a run's input files those that a program
/// with input rule `rule` is given, in the order in which it is given them.
pub fn select_inputs(rule: InputRule, sorted: &Vec<String>) -> (r: Vec<String>)
    ensures
        texts(r@) == chosen(rule, texts(sorted@)),
{
    let n = sorted.len();
    let mut r: Vec<String> = Vec::new();
    if n == 0 {
        assert(texts(r@) =~= texts(sorted@));
        return r;
    }
    match rule {
        InputRule::First => {
            r.push(sorted[0].clone());
            assert(texts(r@) =~= seq![texts(sorted@).first()]);
        },
        InputRule::Last => {
            r.push(sorted[n - 1].clone());
            assert(texts(r@) =~= seq![texts(sorted@).last()]);
        },
        InputRule::All => {
            let mut i: usize = 0;
            while i < n
                invariant
                    i <= n,
                    n == sorted@.len(),
                    texts(r@) == texts(sorted@).subrange(0, i as int),
                decreases n - i,
            {
                proof {
                    lemma_texts_push(r@, sorted@[i as int]);
                }
                r.push(sorted[i].clone());
                i = i + 1;
                assert(texts(r@) =~= texts(sorted@).subrange(0, i as int));
            }
            assert(texts(r@) =~= texts(sorted@));
        },
    }
    r
}

/// What the names of the input files of run `run_number` begin with.
pub open spec fn input_prefix(run_number: u32) -> Seq<char> {
    "run"@ + padded_decimal(run_number as nat, 5) + "sub"@
}

/// The entries of a directory that are input files with the given prefix,
/// each as its path in `dir`, in the order of the listing. An entry is `None`
/// where the name of the file is not valid text; such a file is no input.
pub open spec fn matching(entries: Seq<Option<String>>, prefix: Seq<char>, dir: Seq<char>) -> Seq<
    Seq<char>,
>
    decreases entries.len(),
{
    if entries.len() == 0 {
        Seq::empty()
    } else {
        let rest = matching(entries.drop_last(), prefix, dir);
        match entries.last() {
            Some(name) => if prefix.is_prefix_of(name@) {
                rest.push(joined(dir, name@))
            } else {
                rest
            },
            None => rest,
        }
    }
}

/// The input files of run `run_number` among the entries of the directory
/// `dir`, unsorted. `listing` is what listing the directory gave: the names of
/// its entries, or why it could not be read.
pub fn midas_files(dir: &str, run_number: u32, listing: Result<Vec<Option<String>>, String>) -> (r:
    Result<Vec<String>, JobError>)
    ensures
        match listing {
            Err(why) => r matches Err(JobError::DirectoryUnreadable { dir: d, why: text }) && d@
                == dir@ && text@ == why@,
            Ok(entries) => {
                let files = matching(entries@, input_prefix(run_number), dir@);
                if files.len() == 0 {
                    r matches Err(JobError::NoInputFiles { run_number: n, dir: d }) && n
                        == run_number && d@ == dir@
                } else {
                    r matches Ok(found) && texts(found@) == files
                }
            },
        },
{
    let entries = match listing {
        Err(why) => {
            return Err(JobError::DirectoryUnreadable { dir: String::from_str(dir), why });
        },
        Ok(entries) => entries,
    };
    let mut prefix = String::from_str("run");
    push_padded_decimal(&mut prefix, run_number, 5);
    prefix.append("sub");
    let mut files: Vec<String> = Vec::new();
    let mut i: usize = 0;
    assert(entries@.subrange(0, 0) =~= Seq::empty());
    assert(texts(files@) =~= Seq::empty());
    while i < entries.len()
        invariant
            i <= entries.len(),
            prefix@ == input_prefix(run_number),
            texts(files@) == matching(entries@.subrange(0, i as int), prefix@, dir@),
        decreases entries.len() - i,
    {
        let ghost before = files@;
        let ghost done = entries@.subrange(0, i as int);
        assert(entries@.subrange(0, i + 1).drop_last() =~= done);
        match &entries[i] {
            Some(name) => {
                if has_prefix(name.as_str(), prefix.as_str()) {
                    files.push(join_path(dir, name.as_str()));
                    assert(texts(files@) =~= texts(before).push(joined(dir@, name@)));
                }
            },
            None => {},
        }
        i = i + 1;
    }
    assert(entries@.subrange(0, i as int) =~= entries@);
    if files.len() == 0 {
        return Err(JobError::NoInputFiles { run_number, dir: String::from_str(dir) });
    }
    Ok(files)
}

impl CoreCmd {
    /// The name of the artifact of this job.
    pub open spec fn artifact_file(self) -> Seq<char> {
        artifact_name(self.bin.suffix(), self.run_number)
    }

    /// The cache directory of the run of this job, under the root `cache_dir`.
    pub open spec fn artifact_dir(self, cache_dir: Seq<char>) -> Seq<char> {
        joined(cache_dir, decimal(self.run_number as nat))
    }

    /// The path of the artifact of this job, under the root `cache_dir`.
    pub open spec fn artifact_path(self, cache_dir: Seq<char>) -> Seq<char> {
        joined(self.artifact_dir(cache_dir), self.artifact_file())
    }

    /// The path of the program of this job, installed under `project_home`.
    pub open spec fn program_path(self, project_home: Seq<char>) -> Seq<char> {
        joined(joined(joined(project_home, "rust"@), "bin"@), self.bin.program())
    }

    /// The arguments of the program of this job, given the paths of the
    /// input files of its run in any order.
    pub open spec fn arguments(self, cache_dir: Seq<char>, files: Seq<Seq<char>>) -> Seq<
        Seq<char>,
    > {
        let flags = if self.bin == CoreBin::FinalOdb {
            seq!["--final"@]
        } else {
            Seq::empty()
        };
        flags + chosen(self.bin.rule(), sorted_names(files)) + seq![
            "--output"@,
            self.artifact_path(cache_dir),
        ]
    }

    /// The directory in which the artifact is kept: one per run number.
    pub fn output_dir(self, config: &Config) -> (r: String)
        ensures
            r@ == self.artifact_dir(config.cache_dir@),
    {
        let mut run = String::new();
        push_decimal(&mut run, self.run_number);
        assert(run@ =~= decimal(self.run_number as nat));
        join_path(config.cache_dir.as_str(), run.as_str())
    }

    /// The name of the artifact: `R`, the run number and an ending that
    /// tells the kind.
    pub fn filename(self) -> (r: String)
        ensures
            r@ == self.artifact_file(),
    {
        self.bin.command().output(self.run_number)
    }

    /// The full path of the artifact.
    pub fn output(self, config: &Config) -> (r: String)
        ensures
            r@ == self.artifact_path(config.cache_dir@),
    {
        let dir = self.output_dir(config);
        let name = self.filename();
        join_path(dir.as_str(), name.as_str())
    }

    /// The command line that does this job. `listing` is what listing the
    /// directory of input files gave. The input files of the run are sorted by
    /// name; the program gets the first, the last or all of them, as its kind
    /// asks, and is told to write to the path of the artifact.
    pub fn to_command(self, config: &Config, listing: Result<Vec<Option<String>>, String>) -> (r:
        Result<CommandLine, JobError>)
        ensures
            match listing {
                Err(why) => r matches Err(JobError::DirectoryUnreadable { dir: d, why: text }) && d@
                == config.data_dir@ && text@ == why@,
                Ok(entries) => {
                    let files = matching(
                        entries@,
                        input_prefix(self.run_number),
                        config.data_dir@,
                    );
                    if files.len() == 0 {
                        r matches Err(JobError::NoInputFiles { run_number: n, dir: d }) && n
                            == self.run_number && d@ == config.data_dir@
                    } else {
                        r matches Ok(line) && line.program@ == self.program_path(
                            config.project_home@,
                        ) && texts(line.args@) == self.arguments(config.cache_dir@, files)
                    }
                },
            },
    {
        let files = match midas_files(config.data_dir.as_str(), self.run_number, listing) {
            Err(e) => {
                return Err(e);
            },
            Ok(files) => files,
        };
        let how = self.bin.command();
        let home = join_path(config.project_home.as_str(), "rust");
        let bin_dir = join_path(home.as_str(), "bin");
        let program = join_path(bin_dir.as_str(), how.program);
        let mut args: Vec<String> = Vec::new();
        if how.final_flag {
            args.push(String::from_str("--final"));
        }
        let ghost flags = texts(args@);
        assert(flags =~= if self.bin == CoreBin::FinalOdb {
            seq!["--final"@]
        } else {
            Seq::empty()
        });
        let sorted = sort_names(&files);
        let inputs = select_inputs(how.rule, &sorted);
        let mut i: usize = 0;
        while i < inputs.len()
            invariant
                i <= inputs.len(),
                texts(args@) == flags + texts(inputs@).subrange(0, i as int),
            decreases inputs.len() - i,
        {
            let ghost before = args@;
            args.push(inputs[i].clone());
            assert(texts(args@) =~= texts(before).push(inputs@[i as int]@));
            i = i + 1;
            assert(texts(args@) =~= flags + texts(inputs@).subrange(0, i as int));
        }
        assert(texts(inputs@).subrange(0, i as int) =~= texts(inputs@));
        let ghost before = args@;
        let output = self.output(config);
        args.push(String::from_str("--output"));
        args.push(output);
        assert(texts(args@) =~= texts(before) + seq![
            "--output"@,
            self.artifact_path(config.cache_dir@),
        ]);
        Ok(CommandLine { program, args })
    }
}

/// Jobs of different kinds write files with different endings.
proof fn lemma_suffixes_differ(a: CoreBin, b: CoreBin)
    requires
        a.suffix() == b.suffix(),
    ensures
        a == b,
{
    reveal_strlit("_chronobox_timestamps.csv");
    reveal_strlit("_initial_odb.json");
    reveal_strlit("_final_odb.json");
    reveal_strlit("_sequencer.csv");
    reveal_strlit("_trg_scalers.csv");
    reveal_strlit("_vertices.csv");
    assert("_chronobox_timestamps.csv"@.len() == 25);
    assert("_initial_odb.json"@.len() == 17);
    assert("_final_odb.json"@.len() == 15);
    assert("_sequencer.csv"@.len() == 14);
    assert("_trg_scalers.csv"@.len() == 16);
    assert("_vertices.csv"@.len() == 13);
    assert(a.suffix().len() == b.suffix().len());
}

/// Two texts that begin with the digits of a number, followed by something
/// that is no digit, begin with the same digits if they are the same text.
proof fn lemma_same_digits(a: nat, rest_a: Seq<char>, b: nat, rest_b: Seq<char>)
    requires
        decimal(a) + rest_a == decimal(b) + rest_b,
        rest_a.len() > 0 && !is_digit(rest_a[0]),
        rest_b.len() > 0 && !is_digit(rest_b[0]),
    ensures
        a == b,
        rest_a == rest_b,
{
    lemma_decimal(a);
    lemma_decimal(b);
    let da = decimal(a);
    let db = decimal(b);
    let left = da + rest_a;
    let right = db + rest_b;
    if da.len() < db.len() {
        assert(left[da.len() as int] == rest_a[0]);
        assert(right[da.len() as int] == db[da.len() as int]);
        assert(false);
    }
    if db.len() < da.len() {
        assert(right[db.len() as int] == rest_b[0]);
        assert(left[db.len() as int] == da[db.len() as int]);
        assert(false);
    }
    assert(da =~= db) by {
        assert forall|i: int| 0 <= i < da.len() implies da[i] == db[i] by {
            assert(left[i] == da[i]);
            assert(right[i] == db[i]);
        }
    }
    assert(rest_a =~= rest_b) by {
        assert(rest_a.len() == rest_b.len()) by {
            assert(left.len() == right.len());
        }
        assert forall|i: int| 0 <= i < rest_a.len() implies rest_a[i] == rest_b[i] by {
            assert(left[da.len() + i] == rest_a[i]);
            assert(right[db.len() + i] == rest_b[i]);
        }
    }
    lemma_decimal_injective(a, b);
}

/// What stands before the run number in the path of every artifact under
/// the root `cache_dir`.
pub open spec fn cache_prefix(cache_dir: Seq<char>) -> Seq<char> {
    if cache_dir.len() > 0 && cache_dir.last() != '/' {
        cache_dir + seq!['/']
    } else {
        cache_dir
    }
}

/// The path of an artifact spelled out: the root of the cache, the run
/// number as the name of a directory, and in it the name of the artifact.
pub proof fn lemma_artifact_path(cmd: CoreCmd, cache_dir: Seq<char>)
    ensures
        cmd.artifact_path(cache_dir) == cache_prefix(cache_dir) + (decimal(cmd.run_number as nat)
            + (seq!['/', 'R'] + decimal(cmd.run_number as nat) + cmd.bin.suffix())),
{
    reveal_strlit("R");
    let digits = decimal(cmd.run_number as nat);
    lemma_decimal(cmd.run_number as nat);
    assert(is_digit(digits[0]));
    assert(is_digit(digits.last()));
    let dir = cmd.artifact_dir(cache_dir);
    assert(dir =~= cache_prefix(cache_dir) + digits);
    assert(dir.last() == digits.last());
    let file = cmd.artifact_file();
    assert(file[0] == 'R');
    assert(cmd.artifact_path(cache_dir) =~= cache_prefix(cache_dir) + (digits + (seq!['/', 'R']
        + digits + cmd.bin.suffix())));
}

/// Different jobs keep their artifacts at different paths: no job ever
/// takes the artifact of another for its own.
pub proof fn lemma_artifacts_differ(a: CoreCmd, b: CoreCmd, cache_dir: Seq<char>)
    requires
        a.artifact_path(cache_dir) == b.artifact_path(cache_dir),
    ensures
        a == b,
{
    lemma_artifact_path(a, cache_dir);
    lemma_artifact_path(b, cache_dir);
    let prefix = cache_prefix(cache_dir);
    let da = decimal(a.run_number as nat);
    let db = decimal(b.run_number as nat);
    let rest_a = seq!['/', 'R'] + da + a.bin.suffix();
    let rest_b = seq!['/', 'R'] + db + b.bin.suffix();
    assert(da + rest_a =~= db + rest_b) by {
        let left = prefix + (da + rest_a);
        let right = prefix + (db + rest_b);
        assert(left == right);
        assert(left.subrange(prefix.len() as int, left.len() as int) =~= da + rest_a);
        assert(right.subrange(prefix.len() as int, right.len() as int) =~= db + rest_b);
    }
    assert(rest_a[0] == '/' && rest_b[0] == '/');
    lemma_same_digits(a.run_number as nat, rest_a, b.run_number as nat, rest_b);
    assert(a.bin.suffix() =~= b.bin.suffix()) by {
        let head = seq!['/', 'R'] + da;
        assert(rest_a =~= head + a.bin.suffix());
        assert(rest_b =~= head + b.bin.suffix());
        assert(rest_a.subrange(head.len() as int, rest_a.len() as int) =~= a.bin.suffix());
        assert(rest_b.subrange(head.len() as int, rest_b.len() as int) =~= b.bin.suffix());
    }
    lemma_suffixes_differ(a.bin, b.bin);
}

} // verus!
