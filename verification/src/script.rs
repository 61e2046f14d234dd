//! Analysis scripts: what they are given on their command line.
//!
//! A script works on artifacts that jobs have produced and writes one file.
//! Its result is never kept for later requests: each run writes into a
//! directory of its own, so the file can carry a readable name.
//!
//! Bounds of a plot are numbers with a fractional part. They are only handed
//! on to the script, so they are held here as the text that the script is to
//! read.
use crate::error::ExitOutcome;
use crate::job::{CommandLine, Config};
use crate::sorting::{lemma_texts_push, texts};
use crate::text::{decimal, join_path, joined, push_decimal};
use vstd::prelude::*;
use vstd::string::*;

verus! {

/// The path of the interpreter that runs the scripts, installed under
/// `project_home`.
pub open spec fn python3_path(project_home: Seq<char>) -> Seq<char> {
    joined(joined(joined(joined(project_home, "analysis-scripts"@), ".venv"@), "bin"@), "python3"@)
}

/// The path of the directory of the scripts, installed under `project_home`.
pub open spec fn scripts_path(project_home: Seq<char>) -> Seq<char> {
    joined(joined(project_home, "analysis-scripts"@), "bin"@)
}

/// The interpreter that runs the scripts.
pub fn python3(config: &Config) -> (r: String)
    ensures
        r@ == python3_path(config.project_home@),
{
    let scripts = join_path(config.project_home.as_str(), "analysis-scripts");
    let venv = join_path(scripts.as_str(), ".venv");
    let bin = join_path(venv.as_str(), "bin");
    join_path(bin.as_str(), "python3")
}

/// The directory of the scripts.
pub fn analysis_scripts_dir(config: &Config) -> (r: String)
    ensures
        r@ == scripts_path(config.project_home@),
{
    let scripts = join_path(config.project_home.as_str(), "analysis-scripts");
    join_path(scripts.as_str(), "bin")
}

/// An option with a text: its name and the text, or nothing.
pub open spec fn with_text(name: Seq<char>, value: Option<String>) -> Seq<Seq<char>> {
    match value {
        Some(text) => seq![name, text@],
        None => Seq::empty(),
    }
}

/// An option with a whole number: its name and the number, or nothing.
pub open spec fn with_number(name: Seq<char>, value: Option<u32>) -> Seq<Seq<char>> {
    match value {
        Some(n) => seq![name, decimal(n as nat)],
        None => Seq::empty(),
    }
}

/// A switch: its name where it is on, or nothing.
pub open spec fn switch(name: Seq<char>, on: bool) -> Seq<Seq<char>> {
    if on {
        seq![name]
    } else {
        Seq::empty()
    }
}

fn push_arg(
    args: &mut Vec<String>,
    text: &str,
    Ghost(base): Ghost<Seq<Seq<char>>>,
    Ghost(sofar): Ghost<Seq<Seq<char>>>,
)
    requires
        texts(old(args)@) == base + sofar,
    ensures
        texts(final(args)@) == base + sofar.push(text@),
{
    let arg = String::from_str(text);
    proof {
        lemma_texts_push(args@, arg);
    }
    args.push(arg);
    assert(texts(final(args)@) =~= base + sofar.push(text@));
}

fn push_with_text(
    args: &mut Vec<String>,
    name: &str,
    value: &Option<String>,
    Ghost(base): Ghost<Seq<Seq<char>>>,
    Ghost(sofar): Ghost<Seq<Seq<char>>>,
)
    requires
        texts(old(args)@) == base + sofar,
    ensures
        texts(final(args)@) == base + (sofar + with_text(name@, *value)),
{
    match value {
        Some(text) => {
            push_arg(args, name, Ghost(base), Ghost(sofar));
            push_arg(args, text.as_str(), Ghost(base), Ghost(sofar.push(name@)));
            assert(sofar.push(name@).push(text@) =~= sofar + with_text(name@, *value));
        },
        None => {
            assert(sofar =~= sofar + with_text(name@, *value));
        },
    }
}

fn push_with_number(
    args: &mut Vec<String>,
    name: &str,
    value: Option<u32>,
    Ghost(base): Ghost<Seq<Seq<char>>>,
    Ghost(sofar): Ghost<Seq<Seq<char>>>,
)
    requires
        texts(old(args)@) == base + sofar,
    ensures
        texts(final(args)@) == base + (sofar + with_number(name@, value)),
{
    match value {
        Some(n) => {
            let mut digits = String::new();
            push_decimal(&mut digits, n);
            assert(digits@ =~= decimal(n as nat));
            push_arg(args, name, Ghost(base), Ghost(sofar));
            push_arg(args, digits.as_str(), Ghost(base), Ghost(sofar.push(name@)));
            assert(sofar.push(name@).push(digits@) =~= sofar + with_number(name@, value));
        },
        None => {
            assert(sofar =~= sofar + with_number(name@, value));
        },
    }
}

fn push_switch(
    args: &mut Vec<String>,
    name: &str,
    on: bool,
    Ghost(base): Ghost<Seq<Seq<char>>>,
    Ghost(sofar): Ghost<Seq<Seq<char>>>,
)
    requires
        texts(old(args)@) == base + sofar,
    ensures
        texts(final(args)@) == base + (sofar + switch(name@, on)),
{
    if on {
        push_arg(args, name, Ghost(base), Ghost(sofar));
        assert(sofar.push(name@) =~= sofar + switch(name@, on));
    } else {
        assert(sofar =~= sofar + switch(name@, on));
    }
}

/// A script that can be run on artifacts.
pub trait SecondaryScript {
    /// The name of the file of the script.
    spec fn file_name(&self) -> Seq<char>;

    /// What the script is given after its own path, where it is to write to
    /// `output`.
    spec fn arguments(&self, output: Seq<char>) -> Seq<Seq<char>>;

    /// The name of the file of the script.
    fn name(&self) -> (r: String)
        ensures
            r@ == self.file_name(),
    ;

    /// Appends to `args` what the script is given after its own path.
    fn push_arguments(&self, args: &mut Vec<String>, output: &str)
        ensures
            texts(final(args)@) == texts(old(args)@) + self.arguments(output@),
    ;
}

/// The command line that runs `script` with the interpreter and the scripts
/// installed under the project's home, writing to `output`.
pub fn script_command<S: SecondaryScript>(script: &S, config: &Config, output: &str) -> (r:
    CommandLine)
    ensures
        r.program@ == python3_path(config.project_home@),
        texts(r.args@) == seq![joined(scripts_path(config.project_home@), script.file_name())]
            + script.arguments(output@),
{
    let program = python3(config);
    let dir = analysis_scripts_dir(config);
    let name = script.name();
    let mut args: Vec<String> = Vec::new();
    args.push(join_path(dir.as_str(), name.as_str()));
    assert(texts(args@) =~= seq![joined(scripts_path(config.project_home@), script.file_name())]);
    script.push_arguments(&mut args, output);
    CommandLine { program, args }
}

/// Why a script gave no file.
#[derive(Debug)]
pub enum ScriptError {
    /// The directory for the file could not be made.
    NoDirectory(String),
    /// The script could not be run.
    NotRun { script: String, why: String },
    /// The script did not end with exit code 0.
    Failed { script: String, outcome: ExitOutcome },
}

impl ScriptError {
    /// The error in words.
    pub open spec fn text(self) -> Seq<char> {
        match self {
            ScriptError::NoDirectory(why) => "failed to create temporary directory: "@ + why@,
            ScriptError::NotRun { script, why } => "failed to run `"@ + script@ + "`: "@ + why@,
            ScriptError::Failed { script, outcome } => "`"@ + script@ + "` failed with `"@
                + outcome.description() + "`"@,
        }
    }

    /// The error in words.
    pub fn message(&self) -> (r: String)
        ensures
            r@ == self.text(),
    {
        match self {
            ScriptError::NoDirectory(why) => {
                let mut r = String::from_str("failed to create temporary directory: ");
                r.append(why.as_str());
                r
            },
            ScriptError::NotRun { script, why } => {
                let mut r = String::from_str("failed to run `");
                r.append(script.as_str());
                r.append("`: ");
                r.append(why.as_str());
                r
            },
            ScriptError::Failed { script, outcome } => {
                let mut r = String::from_str("`");
                r.append(script.as_str());
                r.append("` failed with `");
                r.append(outcome.describe().as_str());
                r.append("`");
                r
            },
        }
    }
}

/// What a run of `script` that was to write to `output` gave, `observed`
/// being what waiting for it gave: `r` is the path of the file exactly when
/// the script ended with exit code 0.
pub open spec fn script_outcome(
    script: Seq<char>,
    output: Seq<char>,
    observed: Result<ExitOutcome, String>,
    r: Result<String, ScriptError>,
) -> bool {
    match observed {
        Err(why) => r matches Err(ScriptError::NotRun { script: s, why: w }) && s@ == script && w@
            == why@,
        Ok(exit) => if exit.succeeded() {
            r matches Ok(path) && path@ == output
        } else {
            r matches Err(ScriptError::Failed { script: s, outcome: o }) && s@ == script && o
                == exit
        },
    }
}

/// Judges a run of `script` that was to write to `output`.
pub fn finish_script<S: SecondaryScript>(
    script: &S,
    output: String,
    observed: Result<ExitOutcome, String>,
) -> (r: Result<String, ScriptError>)
    ensures
        script_outcome(script.file_name(), output@, observed, r),
{
    match observed {
        Err(why) => Err(ScriptError::NotRun { script: script.name(), why }),
        Ok(exit) => {
            if exit.success() {
                Ok(output)
            } else {
                Err(ScriptError::Failed { script: script.name(), outcome: exit })
            }
        },
    }
}

/// The script that puts the events of the sequencer in time.
pub struct Sequencer {
    pub sequencer_csv: String,
    pub initial_odb_json: String,
    pub chronobox_csv: String,
}

impl SecondaryScript for Sequencer {
    open spec fn file_name(&self) -> Seq<char> {
        "sequencer.py"@
    }

    open spec fn arguments(&self, output: Seq<char>) -> Seq<Seq<char>> {
        seq![
            self.sequencer_csv@,
            "--odb-json"@,
            self.initial_odb_json@,
            "--chronobox-csv"@,
            self.chronobox_csv@,
            "--output"@,
            output,
        ]
    }

    fn name(&self) -> (r: String) {
        String::from_str("sequencer.py")
    }

    fn push_arguments(&self, args: &mut Vec<String>, output: &str) {
        let ghost base = texts(args@);
        let ghost mut sofar: Seq<Seq<char>> = Seq::empty();
        assert(texts(args@) =~= base + sofar);
        push_arg(args, self.sequencer_csv.as_str(), Ghost(base), Ghost(sofar));
        proof {
            sofar = sofar.push(self.sequencer_csv@);
        }
        push_arg(args, "--odb-json", Ghost(base), Ghost(sofar));
        proof {
            sofar = sofar.push("--odb-json"@);
        }
        push_arg(args, self.initial_odb_json.as_str(), Ghost(base), Ghost(sofar));
        proof {
            sofar = sofar.push(self.initial_odb_json@);
        }
        push_arg(args, "--chronobox-csv", Ghost(base), Ghost(sofar));
        proof {
            sofar = sofar.push("--chronobox-csv"@);
        }
        push_arg(args, self.chronobox_csv.as_str(), Ghost(base), Ghost(sofar));
        proof {
            sofar = sofar.push(self.chronobox_csv@);
        }
        push_arg(args, "--output", Ghost(base), Ghost(sofar));
        proof {
            sofar = sofar.push("--output"@);
        }
        push_arg(args, output, Ghost(base), Ghost(sofar));
        proof {
            sofar = sofar.push(output@);
        }
        assert(sofar =~= self.arguments(output@));
    }
}

/// The script that writes the log of spills.
pub struct SpillLog {
    pub sequencer_events_csv: String,
    pub initial_odb_json: String,
    pub chronobox_csv: String,
    pub trg_scalers_csv: String,
}

impl SecondaryScript for SpillLog {
    open spec fn file_name(&self) -> Seq<char> {
        "spill_log.py"@
    }

    open spec fn arguments(&self, output: Seq<char>) -> Seq<Seq<char>> {
        seq![
            self.sequencer_events_csv@,
            self.initial_odb_json@,
            self.chronobox_csv@,
            self.trg_scalers_csv@,
            "--output"@,
            output,
        ]
    }

    fn name(&self) -> (r: String) {
        String::from_str("spill_log.py")
    }

    fn push_arguments(&self, args: &mut Vec<String>, output: &str) {
        let ghost base = texts(args@);
        let ghost mut sofar: Seq<Seq<char>> = Seq::empty();
        assert(texts(args@) =~= base + sofar);
        push_arg(args, self.sequencer_events_csv.as_str(), Ghost(base), Ghost(sofar));
        proof {
            sofar = sofar.push(self.sequencer_events_csv@);
        }
        push_arg(args, self.initial_odb_json.as_str(), Ghost(base), Ghost(sofar));
        proof {
            sofar = sofar.push(self.initial_odb_json@);
        }
        push_arg(args, self.chronobox_csv.as_str(), Ghost(base), Ghost(sofar));
        proof {
            sofar = sofar.push(self.chronobox_csv@);
        }
        push_arg(args, self.trg_scalers_csv.as_str(), Ghost(base), Ghost(sofar));
        proof {
            sofar = sofar.push(self.trg_scalers_csv@);
        }
        push_arg(args, "--output", Ghost(base), Ghost(sofar));
        proof {
            sofar = sofar.push("--output"@);
        }
        push_arg(args, output, Ghost(base), Ghost(sofar));
        proof {
            sofar = sofar.push(output@);
        }
        assert(sofar =~= self.arguments(output@));
    }
}

/// What the plot of the timestamps of a chronobox channel shows.
#[derive(Clone, Debug)]
pub struct ChronoboxTimestampsArgs {
    pub board_name: String,
    pub channel_number: u8,
    pub t_bins: Option<u32>,
    pub t_max: Option<String>,
    pub t_min: Option<String>,
}

/// The script that plots the timestamps of a chronobox channel.
pub struct ChronoboxTimestamps {
    pub csv: String,
    pub args: ChronoboxTimestampsArgs,
}

impl SecondaryScript for ChronoboxTimestamps {
    open spec fn file_name(&self) -> Seq<char> {
        "chronobox_timestamps.py"@
    }

    open spec fn arguments(&self, output: Seq<char>) -> Seq<Seq<char>> {
        seq![
            self.csv@,
            self.args.board_name@,
            decimal(self.args.channel_number as nat),
            "--output"@,
            output,
        ] + with_number("--t-bins"@, self.args.t_bins) + with_text("--t-max"@, self.args.t_max)
            + with_text("--t-min"@, self.args.t_min)
    }

    fn name(&self) -> (r: String) {
        String::from_str("chronobox_timestamps.py")
    }

    fn push_arguments(&self, args: &mut Vec<String>, output: &str) {
        let ghost base = texts(args@);
        let ghost mut sofar: Seq<Seq<char>> = Seq::empty();
        assert(texts(args@) =~= base + sofar);
        let mut channel = String::new();
        push_decimal(&mut channel, self.args.channel_number as u32);
        push_arg(args, self.csv.as_str(), Ghost(base), Ghost(sofar));
        proof {
            sofar = sofar.push(self.csv@);
        }
        push_arg(args, self.args.board_name.as_str(), Ghost(base), Ghost(sofar));
        proof {
            sofar = sofar.push(self.args.board_name@);
        }
        push_arg(args, channel.as_str(), Ghost(base), Ghost(sofar));
        proof {
            sofar = sofar.push(channel@);
        }
        push_arg(args, "--output", Ghost(base), Ghost(sofar));
        proof {
            sofar = sofar.push("--output"@);
        }
        push_arg(args, output, Ghost(base), Ghost(sofar));
        proof {
            sofar = sofar.push(output@);
        }
        push_with_number(args, "--t-bins", self.args.t_bins, Ghost(base), Ghost(sofar));
        proof {
            sofar = sofar + with_number("--t-bins"@, self.args.t_bins);
        }
        push_with_text(args, "--t-max", &self.args.t_max, Ghost(base), Ghost(sofar));
        proof {
            sofar = sofar + with_text("--t-max"@, self.args.t_max);
        }
        push_with_text(args, "--t-min", &self.args.t_min, Ghost(base), Ghost(sofar));
        proof {
            sofar = sofar + with_text("--t-min"@, self.args.t_min);
        }
        assert(sofar =~= self.arguments(output@));
    }
}

/// What the plot of the trigger scalers shows.
#[derive(Clone, Debug)]
pub struct TrgScalersArgs {
    pub t_bins: Option<u32>,
    pub t_max: Option<String>,
    pub t_min: Option<String>,
    pub include_drift_veto: bool,
    pub include_pulser: bool,
    pub include_scaledown: bool,
    pub remove_input: bool,
    pub remove_output: bool,
}

/// The script that plots the trigger scalers.
pub struct TrgScalers {
    pub csv: String,
    pub args: TrgScalersArgs,
}

impl SecondaryScript for TrgScalers {
    open spec fn file_name(&self) -> Seq<char> {
        "trg_scalers.py"@
    }

    open spec fn arguments(&self, output: Seq<char>) -> Seq<Seq<char>> {
        seq![self.csv@, "--output"@, output] + with_number("--t-bins"@, self.args.t_bins)
            + with_text("--t-max"@, self.args.t_max) + with_text("--t-min"@, self.args.t_min)
            + switch("--include-drift-veto-counter"@, self.args.include_drift_veto) + switch(
            "--include-pulser-counter"@,
            self.args.include_pulser,
        ) + switch("--include-scaledown-counter"@, self.args.include_scaledown) + switch(
            "--remove-input-counter"@,
            self.args.remove_input,
        ) + switch("--remove-output-counter"@, self.args.remove_output)
    }

    fn name(&self) -> (r: String) {
        String::from_str("trg_scalers.py")
    }

    fn push_arguments(&self, args: &mut Vec<String>, output: &str) {
        let ghost base = texts(args@);
        let ghost mut sofar: Seq<Seq<char>> = Seq::empty();
        assert(texts(args@) =~= base + sofar);
        push_arg(args, self.csv.as_str(), Ghost(base), Ghost(sofar));
        proof {
            sofar = sofar.push(self.csv@);
        }
        push_arg(args, "--output", Ghost(base), Ghost(sofar));
        proof {
            sofar = sofar.push("--output"@);
        }
        push_arg(args, output, Ghost(base), Ghost(sofar));
        proof {
            sofar = sofar.push(output@);
        }
        push_with_number(args, "--t-bins", self.args.t_bins, Ghost(base), Ghost(sofar));
        proof {
            sofar = sofar + with_number("--t-bins"@, self.args.t_bins);
        }
        push_with_text(args, "--t-max", &self.args.t_max, Ghost(base), Ghost(sofar));
        proof {
            sofar = sofar + with_text("--t-max"@, self.args.t_max);
        }
        push_with_text(args, "--t-min", &self.args.t_min, Ghost(base), Ghost(sofar));
        proof {
            sofar = sofar + with_text("--t-min"@, self.args.t_min);
        }
        push_switch(args, "--include-drift-veto-counter", self.args.include_drift_veto, Ghost(base), Ghost(sofar));
        proof {
            sofar = sofar + switch("--include-drift-veto-counter"@, self.args.include_drift_veto);
        }
        push_switch(args, "--include-pulser-counter", self.args.include_pulser, Ghost(base), Ghost(sofar));
        proof {
            sofar = sofar + switch("--include-pulser-counter"@, self.args.include_pulser);
        }
        push_switch(args, "--include-scaledown-counter", self.args.include_scaledown, Ghost(base), Ghost(sofar));
        proof {
            sofar = sofar + switch("--include-scaledown-counter"@, self.args.include_scaledown);
        }
        push_switch(args, "--remove-input-counter", self.args.remove_input, Ghost(base), Ghost(sofar));
        proof {
            sofar = sofar + switch("--remove-input-counter"@, self.args.remove_input);
        }
        push_switch(args, "--remove-output-counter", self.args.remove_output, Ghost(base), Ghost(sofar));
        proof {
            sofar = sofar + switch("--remove-output-counter"@, self.args.remove_output);
        }
        assert(sofar =~= self.arguments(output@));
    }
}

/// What the plot of the vertices shows.
#[derive(Clone, Debug)]
pub struct VerticesArgs {
    pub phi_bins: Option<u32>,
    pub phi_max: Option<String>,
    pub phi_min: Option<String>,
    pub r_bins: Option<u32>,
    pub r_max: Option<String>,
    pub r_min: Option<String>,
    pub t_bins: Option<u32>,
    pub t_max: Option<String>,
    pub t_min: Option<String>,
    pub z_bins: Option<u32>,
    pub z_max: Option<String>,
    pub z_min: Option<String>,
}

/// The script that plots the vertices.
pub struct Vertices {
    pub csv: String,
    pub args: VerticesArgs,
}

impl SecondaryScript for Vertices {
    open spec fn file_name(&self) -> Seq<char> {
        "vertices.py"@
    }

    open spec fn arguments(&self, output: Seq<char>) -> Seq<Seq<char>> {
        seq![self.csv@, "--output"@, output] + with_number("--phi-bins"@, self.args.phi_bins)
            + with_text("--phi-max"@, self.args.phi_max) + with_text(
            "--phi-min"@,
            self.args.phi_min,
        ) + with_number("--r-bins"@, self.args.r_bins) + with_text("--r-max"@, self.args.r_max)
            + with_text("--r-min"@, self.args.r_min) + with_number("--t-bins"@, self.args.t_bins)
            + with_text("--t-max"@, self.args.t_max) + with_text("--t-min"@, self.args.t_min)
            + with_number("--z-bins"@, self.args.z_bins) + with_text("--z-max"@, self.args.z_max)
            + with_text("--z-min"@, self.args.z_min)
    }

    fn name(&self) -> (r: String) {
        String::from_str("vertices.py")
    }

    fn push_arguments(&self, args: &mut Vec<String>, output: &str) {
        let ghost base = texts(args@);
        let ghost mut sofar: Seq<Seq<char>> = Seq::empty();
        assert(texts(args@) =~= base + sofar);
        push_arg(args, self.csv.as_str(), Ghost(base), Ghost(sofar));
        proof {
            sofar = sofar.push(self.csv@);
        }
        push_arg(args, "--output", Ghost(base), Ghost(sofar));
        proof {
            sofar = sofar.push("--output"@);
        }
        push_arg(args, output, Ghost(base), Ghost(sofar));
        proof {
            sofar = sofar.push(output@);
        }
        push_with_number(args, "--phi-bins", self.args.phi_bins, Ghost(base), Ghost(sofar));
        proof {
            sofar = sofar + with_number("--phi-bins"@, self.args.phi_bins);
        }
        push_with_text(args, "--phi-max", &self.args.phi_max, Ghost(base), Ghost(sofar));
        proof {
            sofar = sofar + with_text("--phi-max"@, self.args.phi_max);
        }
        push_with_text(args, "--phi-min", &self.args.phi_min, Ghost(base), Ghost(sofar));
        proof {
            sofar = sofar + with_text("--phi-min"@, self.args.phi_min);
        }
        push_with_number(args, "--r-bins", self.args.r_bins, Ghost(base), Ghost(sofar));
        proof {
            sofar = sofar + with_number("--r-bins"@, self.args.r_bins);
        }
        push_with_text(args, "--r-max", &self.args.r_max, Ghost(base), Ghost(sofar));
        proof {
            sofar = sofar + with_text("--r-max"@, self.args.r_max);
        }
        push_with_text(args, "--r-min", &self.args.r_min, Ghost(base), Ghost(sofar));
        proof {
            sofar = sofar + with_text("--r-min"@, self.args.r_min);
        }
        push_with_number(args, "--t-bins", self.args.t_bins, Ghost(base), Ghost(sofar));
        proof {
            sofar = sofar + with_number("--t-bins"@, self.args.t_bins);
        }
        push_with_text(args, "--t-max", &self.args.t_max, Ghost(base), Ghost(sofar));
        proof {
            sofar = sofar + with_text("--t-max"@, self.args.t_max);
        }
        push_with_text(args, "--t-min", &self.args.t_min, Ghost(base), Ghost(sofar));
        proof {
            sofar = sofar + with_text("--t-min"@, self.args.t_min);
        }
        push_with_number(args, "--z-bins", self.args.z_bins, Ghost(base), Ghost(sofar));
        proof {
            sofar = sofar + with_number("--z-bins"@, self.args.z_bins);
        }
        push_with_text(args, "--z-max", &self.args.z_max, Ghost(base), Ghost(sofar));
        proof {
            sofar = sofar + with_text("--z-max"@, self.args.z_max);
        }
        push_with_text(args, "--z-min", &self.args.z_min, Ghost(base), Ghost(sofar));
        proof {
            sofar = sofar + with_text("--z-min"@, self.args.z_min);
        }
        assert(sofar =~= self.arguments(output@));
    }
}

fn copy_text(value: &Option<String>) -> (r: Option<String>)
    ensures
        r == *value,
{
    match value {
        Some(text) => Some(text.clone()),
        None => None,
    }
}

impl TrgScalersArgs {
    /// A copy of these arguments.
    pub fn duplicate(&self) -> (r: Self)
        ensures
            r == *self,
    {
        TrgScalersArgs {
            t_bins: self.t_bins,
            t_max: copy_text(&self.t_max),
            t_min: copy_text(&self.t_min),
            include_drift_veto: self.include_drift_veto,
            include_pulser: self.include_pulser,
            include_scaledown: self.include_scaledown,
            remove_input: self.remove_input,
            remove_output: self.remove_output,
        }
    }
}

impl VerticesArgs {
    /// A copy of these arguments.
    pub fn duplicate(&self) -> (r: Self)
        ensures
            r == *self,
    {
        VerticesArgs {
            phi_bins: self.phi_bins,
            phi_max: copy_text(&self.phi_max),
            phi_min: copy_text(&self.phi_min),
            r_bins: self.r_bins,
            r_max: copy_text(&self.r_max),
            r_min: copy_text(&self.r_min),
            t_bins: self.t_bins,
            t_max: copy_text(&self.t_max),
            t_min: copy_text(&self.t_min),
            z_bins: self.z_bins,
            z_max: copy_text(&self.z_max),
            z_min: copy_text(&self.z_min),
        }
    }
}

/// The scripts that a request can end with.
pub enum Script {
    Sequencer(Sequencer),
    TrgScalers(TrgScalers),
    Vertices(Vertices),
}

impl SecondaryScript for Script {
    open spec fn file_name(&self) -> Seq<char> {
        match self {
            Script::Sequencer(script) => script.file_name(),
            Script::TrgScalers(script) => script.file_name(),
            Script::Vertices(script) => script.file_name(),
        }
    }

    open spec fn arguments(&self, output: Seq<char>) -> Seq<Seq<char>> {
        match self {
            Script::Sequencer(script) => script.arguments(output),
            Script::TrgScalers(script) => script.arguments(output),
            Script::Vertices(script) => script.arguments(output),
        }
    }

    fn name(&self) -> (r: String) {
        match self {
            Script::Sequencer(script) => script.name(),
            Script::TrgScalers(script) => script.name(),
            Script::Vertices(script) => script.name(),
        }
    }

    fn push_arguments(&self, args: &mut Vec<String>, output: &str) {
        match self {
            Script::Sequencer(script) => script.push_arguments(args, output),
            Script::TrgScalers(script) => script.push_arguments(args, output),
            Script::Vertices(script) => script.push_arguments(args, output),
        }
    }
}

/// Whether `c` is an ASCII letter or digit.
pub open spec fn is_alphanumeric(c: char) -> bool {
    ('0' <= c && c <= '9') || ('A' <= c && c <= 'Z') || ('a' <= c && c <= 'z')
}

/// Whether `name` can be the random part of the name of a directory: eight
/// ASCII letters or digits.
pub open spec fn is_random_name(name: Seq<char>) -> bool {
    &&& name.len() == 8
    &&& forall|i: int| 0 <= i < name.len() ==> is_alphanumeric(#[trigger] name[i])
}

/// `rand::distributions::DistString::append_string` of
/// `rand::distributions::Alphanumeric`, drawing from `rand::thread_rng()`:
/// what `out` held stays, and `len` characters are appended to it, each an
/// ASCII letter or digit. Which ones is left to chance.
#[verifier::external_body]
fn append_alphanumeric(out: &mut String, len: usize)
    ensures
        final(out)@.len() == old(out)@.len() + len,
        final(out)@.subrange(0, old(out)@.len() as int) == old(out)@,
        forall|i: int|
            old(out)@.len() <= i < final(out)@.len() ==> is_alphanumeric(#[trigger] final(out)@[i]),
{
    rand::distributions::DistString::append_string(
        &rand::distributions::Alphanumeric,
        &mut rand::thread_rng(),
        out,
        len,
    );
}

/// The place of the directory with the random name `name` under the
/// system's directory for temporary files.
pub open spec fn temp_dir_path(system_temp: Seq<char>, name: Seq<char>) -> Seq<char> {
    joined(system_temp, "alpha-g-data-handler/"@ + name)
}

/// A directory for the file of one run of a script, under the system's
/// directory for temporary files `system_temp`. Its name is drawn at random,
/// so that runs do not write over each other's files; the caller makes the
/// directory, and asks again should it be there already.
pub fn temp_dir(system_temp: &str) -> (r: String)
    ensures
        exists|name: Seq<char>|
            is_random_name(name) && r@ == #[trigger] temp_dir_path(system_temp@, name),
{
    let mut dir = String::from_str("alpha-g-data-handler/");
    let ghost prefix = dir@;
    append_alphanumeric(&mut dir, 8);
    let ghost name = dir@.subrange(prefix.len() as int, dir@.len() as int);
    assert(dir@ =~= prefix + name);
    assert(is_random_name(name));
    let r = join_path(system_temp, dir.as_str());
    assert(r@ == temp_dir_path(system_temp@, name));
    r
}

} // verus!
