use alpha_g_data_handler::error::ExitOutcome;
use alpha_g_data_handler::job::Config;
use alpha_g_data_handler::script::{
    analysis_scripts_dir, finish_script, python3, script_command, temp_dir, ChronoboxTimestamps,
    ChronoboxTimestampsArgs, Script, ScriptError, SecondaryScript, Sequencer, SpillLog,
    TrgScalers, TrgScalersArgs, Vertices, VerticesArgs,
};

fn home() -> Config {
    Config {
        project_home: String::from("/home/user/.alpha-g-data-handler"),
        data_dir: String::from("/data"),
        cache_dir: String::from("/cache"),
    }
}

fn words(list: &[&str]) -> Vec<String> {
    list.iter().map(|s| s.to_string()).collect()
}

fn text(value: &str) -> Option<String> {
    Some(String::from(value))
}

#[test]
fn where_the_scripts_are() {
    assert_eq!(python3(&home()), "/home/user/.alpha-g-data-handler/analysis-scripts/.venv/bin/python3");
    assert_eq!(analysis_scripts_dir(&home()), "/home/user/.alpha-g-data-handler/analysis-scripts/bin");
}

#[test]
fn sequencer_command_line() {
    let script = Sequencer {
        sequencer_csv: String::from("/cache/42/R42_sequencer.csv"),
        initial_odb_json: String::from("/cache/42/R42_initial_odb.json"),
        chronobox_csv: String::from("/cache/42/R42_chronobox_timestamps.csv"),
    };
    assert_eq!(script.name(), "sequencer.py");
    let line = script_command(&script, &home(), "/tmp/x/R42_sequencer_events.csv");
    assert_eq!(line.program, "/home/user/.alpha-g-data-handler/analysis-scripts/.venv/bin/python3");
    assert_eq!(
        line.args,
        words(&[
            "/home/user/.alpha-g-data-handler/analysis-scripts/bin/sequencer.py",
            "/cache/42/R42_sequencer.csv",
            "--odb-json",
            "/cache/42/R42_initial_odb.json",
            "--chronobox-csv",
            "/cache/42/R42_chronobox_timestamps.csv",
            "--output",
            "/tmp/x/R42_sequencer_events.csv",
        ])
    );
}

#[test]
fn spill_log_command_line() {
    let script = SpillLog {
        sequencer_events_csv: String::from("events.csv"),
        initial_odb_json: String::from("odb.json"),
        chronobox_csv: String::from("cb.csv"),
        trg_scalers_csv: String::from("trg.csv"),
    };
    assert_eq!(script.name(), "spill_log.py");
    let mut args = words(&["first"]);
    script.push_arguments(&mut args, "out.csv");
    assert_eq!(
        args,
        words(&["first", "events.csv", "odb.json", "cb.csv", "trg.csv", "--output", "out.csv"])
    );
}

#[test]
fn chronobox_timestamps_command_line() {
    let script = ChronoboxTimestamps {
        csv: String::from("cb.csv"),
        args: ChronoboxTimestampsArgs {
            board_name: String::from("cb02"),
            channel_number: 255,
            t_bins: Some(100),
            t_max: None,
            t_min: text("-0.5"),
        },
    };
    assert_eq!(script.name(), "chronobox_timestamps.py");
    let mut args = Vec::new();
    script.push_arguments(&mut args, "out.pdf");
    assert_eq!(
        args,
        words(&["cb.csv", "cb02", "255", "--output", "out.pdf", "--t-bins", "100", "--t-min", "-0.5"])
    );
}

#[test]
fn trg_scalers_command_line() {
    let none = TrgScalersArgs {
        t_bins: None,
        t_max: None,
        t_min: None,
        include_drift_veto: false,
        include_pulser: false,
        include_scaledown: false,
        remove_input: false,
        remove_output: false,
    };
    let script = TrgScalers { csv: String::from("trg.csv"), args: none };
    assert_eq!(script.name(), "trg_scalers.py");
    let mut args = Vec::new();
    script.push_arguments(&mut args, "out.pdf");
    assert_eq!(args, words(&["trg.csv", "--output", "out.pdf"]));

    let all = TrgScalersArgs {
        t_bins: Some(0),
        t_max: text("10"),
        t_min: text("1.5"),
        include_drift_veto: true,
        include_pulser: true,
        include_scaledown: true,
        remove_input: true,
        remove_output: true,
    };
    let copy = all.duplicate();
    let script = TrgScalers { csv: String::from("trg.csv"), args: all };
    let mut args = Vec::new();
    script.push_arguments(&mut args, "out.pdf");
    let expected = words(&[
        "trg.csv",
        "--output",
        "out.pdf",
        "--t-bins",
        "0",
        "--t-max",
        "10",
        "--t-min",
        "1.5",
        "--include-drift-veto-counter",
        "--include-pulser-counter",
        "--include-scaledown-counter",
        "--remove-input-counter",
        "--remove-output-counter",
    ]);
    assert_eq!(args, expected);
    let script = Script::TrgScalers(TrgScalers { csv: String::from("trg.csv"), args: copy });
    assert_eq!(script.name(), "trg_scalers.py");
    let mut args = Vec::new();
    script.push_arguments(&mut args, "out.pdf");
    assert_eq!(args, expected);
}

#[test]
fn switches_stand_alone() {
    let only = TrgScalersArgs {
        t_bins: None,
        t_max: None,
        t_min: None,
        include_drift_veto: false,
        include_pulser: true,
        include_scaledown: false,
        remove_input: false,
        remove_output: true,
    };
    let script = TrgScalers { csv: String::from("trg.csv"), args: only };
    let mut args = Vec::new();
    script.push_arguments(&mut args, "out.pdf");
    assert_eq!(
        args,
        words(&["trg.csv", "--output", "out.pdf", "--include-pulser-counter", "--remove-output-counter"])
    );
}

#[test]
fn vertices_command_line() {
    let args = VerticesArgs {
        phi_bins: Some(1),
        phi_max: text("3.14"),
        phi_min: text("-3.14"),
        r_bins: Some(2),
        r_max: text("0.2"),
        r_min: text("0"),
        t_bins: Some(3),
        t_max: text("100"),
        t_min: text("5"),
        z_bins: Some(4),
        z_max: text("1"),
        z_min: text("-1"),
    };
    let copy = args.duplicate();
    let script = Vertices { csv: String::from("v.csv"), args };
    assert_eq!(script.name(), "vertices.py");
    let mut list = Vec::new();
    script.push_arguments(&mut list, "out.pdf");
    let expected = words(&[
        "v.csv", "--output", "out.pdf", "--phi-bins", "1", "--phi-max", "3.14", "--phi-min", "-3.14",
        "--r-bins", "2", "--r-max", "0.2", "--r-min", "0", "--t-bins", "3", "--t-max", "100",
        "--t-min", "5", "--z-bins", "4", "--z-max", "1", "--z-min", "-1",
    ]);
    assert_eq!(list, expected);
    let script = Script::Vertices(Vertices { csv: String::from("v.csv"), args: copy });
    let mut list = Vec::new();
    script.push_arguments(&mut list, "out.pdf");
    assert_eq!(list, expected);

    let few = VerticesArgs {
        phi_bins: None,
        phi_max: None,
        phi_min: None,
        r_bins: None,
        r_max: text("0.2"),
        r_min: None,
        t_bins: None,
        t_max: None,
        t_min: None,
        z_bins: Some(50),
        z_max: None,
        z_min: None,
    };
    let script = Vertices { csv: String::from("v.csv"), args: few };
    let mut list = Vec::new();
    script.push_arguments(&mut list, "out.pdf");
    assert_eq!(list, words(&["v.csv", "--output", "out.pdf", "--r-max", "0.2", "--z-bins", "50"]));
}

#[test]
fn a_script_gives_its_file_only_on_exit_code_zero() {
    let script = Sequencer {
        sequencer_csv: String::new(),
        initial_odb_json: String::new(),
        chronobox_csv: String::new(),
    };
    let done = finish_script(&script, String::from("/tmp/x/out.csv"), Ok(ExitOutcome { code: Some(0) }));
    assert_eq!(done.unwrap(), "/tmp/x/out.csv");

    let failed = finish_script(&script, String::from("/tmp/x/out.csv"), Ok(ExitOutcome { code: Some(1) }));
    match failed {
        Err(ScriptError::Failed { script, outcome }) => {
            assert_eq!(script, "sequencer.py");
            assert_eq!(outcome, ExitOutcome { code: Some(1) });
            assert_eq!(
                ScriptError::Failed { script, outcome }.message(),
                "`sequencer.py` failed with `exit status: 1`"
            );
        }
        other => panic!("{other:?}"),
    }
    let killed = finish_script(&script, String::from("out"), Ok(ExitOutcome { code: None }));
    assert_eq!(killed.unwrap_err().message(), "`sequencer.py` failed with `no exit status`");

    let not_run = finish_script(&script, String::from("/tmp/x/out.csv"), Err(String::from("no python")));
    match not_run {
        Err(ScriptError::NotRun { script, why }) => {
            assert_eq!(
                ScriptError::NotRun { script, why }.message(),
                "failed to run `sequencer.py`: no python"
            );
        }
        other => panic!("{other:?}"),
    }
    assert_eq!(
        ScriptError::NoDirectory(String::from("read-only")).message(),
        "failed to create temporary directory: read-only"
    );
}

#[test]
fn temporary_directories_have_random_names() {
    let mut seen = Vec::new();
    for _ in 0..20 {
        let dir = temp_dir("/tmp");
        let name = dir.strip_prefix("/tmp/alpha-g-data-handler/").unwrap().to_string();
        assert_eq!(name.len(), 8);
        assert!(name.chars().all(|c| c.is_ascii_alphanumeric()));
        seen.push(name);
    }
    seen.sort();
    seen.dedup();
    assert!(seen.len() > 1);
    assert!(temp_dir("/var/tmp/").starts_with("/var/tmp/alpha-g-data-handler/"));
}
