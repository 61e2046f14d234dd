use alpha_g_data_handler::error::JobError;
use alpha_g_data_handler::job::{CoreBin, CoreCmd};
use alpha_g_data_handler::message::{ClientMessage, ClientRequest, ServerMessage, ServerResponse};
use alpha_g_data_handler::registry::SpawnStep;
use alpha_g_data_handler::request::{
    handle_client_message, next_action, Action, Event, Phase, Step,
};
use alpha_g_data_handler::script::{
    Script, ScriptError, SecondaryScript, TrgScalersArgs, VerticesArgs,
};
use alpha_g_data_handler::ticket::send_download_jwt;

fn ask(request: ClientRequest) -> ClientMessage {
    ClientMessage { service: String::from("ui"), context: String::from("r1"), request }
}

fn replies(step: &Step) -> Vec<String> {
    let mut list = Vec::new();
    for message in &step.messages {
        assert_eq!(message.service, "ui");
        assert_eq!(message.context, "r1");
        list.push(match &message.response {
            ServerResponse::Text(text) => format!("Text({text})"),
            ServerResponse::Error(text) => format!("Error({text})"),
            ServerResponse::DownloadJWT(token) => format!("DownloadJWT({token})"),
        });
    }
    list
}

fn is_nothing(action: &Action) -> bool {
    matches!(action, Action::Nothing)
}

fn no_trg_args() -> TrgScalersArgs {
    TrgScalersArgs {
        t_bins: Some(10),
        t_max: None,
        t_min: None,
        include_drift_veto: false,
        include_pulser: true,
        include_scaledown: false,
        remove_input: false,
        remove_output: false,
    }
}

#[test]
fn the_jobs_of_each_request() {
    let run_number = 42;
    let job = |bin| CoreCmd { bin, run_number };
    assert_eq!(ClientRequest::ChronoboxCsv { run_number }.jobs(), vec![job(CoreBin::ChronoboxTimestamps)]);
    assert_eq!(ClientRequest::InitialOdb { run_number }.jobs(), vec![job(CoreBin::InitialOdb)]);
    assert_eq!(
        ClientRequest::SequencerEvents { run_number }.jobs(),
        vec![job(CoreBin::Sequencer), job(CoreBin::InitialOdb), job(CoreBin::ChronoboxTimestamps)]
    );
    assert_eq!(ClientRequest::TrgScalersCsv { run_number }.jobs(), vec![job(CoreBin::TrgScalers)]);
    assert_eq!(
        ClientRequest::TrgScalersPlot { run_number, args: no_trg_args() }.jobs(),
        vec![job(CoreBin::TrgScalers)]
    );
    assert_eq!(ClientRequest::VerticesCsv { run_number }.jobs(), vec![job(CoreBin::Vertices)]);
    assert_eq!(ClientRequest::VerticesCsv { run_number }.run_number(), 42);
}

#[test]
fn the_files_of_the_scripts() {
    let run_number = 1905;
    assert_eq!(
        ClientRequest::SequencerEvents { run_number }.script_output().unwrap(),
        "R1905_sequencer_events.csv"
    );
    assert_eq!(
        ClientRequest::TrgScalersPlot { run_number, args: no_trg_args() }.script_output().unwrap(),
        "R1905_trg_scalers_plot.pdf"
    );
    assert!(ClientRequest::TrgScalersCsv { run_number }.script_output().is_none());
    assert!(ClientRequest::ChronoboxCsv { run_number }.script_output().is_none());
    assert!(ClientRequest::InitialOdb { run_number }.script_output().is_none());
    assert!(ClientRequest::VerticesCsv { run_number }.script_output().is_none());
}

#[test]
fn messages_carry_the_marks_of_the_request() {
    let message = ServerMessage::spawned("service", "context", "Vertices");
    assert_eq!(message.service, "service");
    assert_eq!(message.context, "context");
    assert!(matches!(message.response, ServerResponse::Text(text) if text == "Spawned `Vertices`"));
    let message = ServerMessage::finished("", "", "vertices.py");
    assert!(matches!(message.response, ServerResponse::Text(text) if text == "Finished running `vertices.py`"));
    let message = ServerMessage::error("a", "b", "no");
    assert_eq!(message.service, "a");
    assert_eq!(message.context, "b");
    assert!(matches!(message.response, ServerResponse::Error(text) if text == "Error: no"));
}

#[test]
fn fresh_request_then_cached_request() {
    let path = "/cache/42/R42_chronobox_timestamps.csv";

    let mut state = handle_client_message(ask(ClientRequest::ChronoboxCsv { run_number: 42 }));
    assert_eq!(state.jobs(), vec![CoreCmd { bin: CoreBin::ChronoboxTimestamps, run_number: 42 }]);
    assert_eq!(state.phase(), Phase::Upstream);
    let mut sent = Vec::new();
    let step = state.step(Event::Spawned { stage: 0, result: Ok(SpawnStep::Spawn) });
    sent.extend(replies(&step));
    assert!(matches!(step.action, Action::Wait(cmd) if cmd.bin == CoreBin::ChronoboxTimestamps));
    let step = state.step(Event::Waited { stage: 0, result: Ok(String::from(path)) });
    sent.extend(replies(&step));
    let delivered = match step.action {
        Action::Deliver(path) => path,
        _ => panic!("the file is ready"),
    };
    assert_eq!(delivered, path);
    assert!(state.is_closed());
    let ticket = send_download_jwt("ui", "r1", &delivered, Some("secret"));
    let first_token = match &ticket.response {
        ServerResponse::DownloadJWT(token) => token.clone(),
        other => panic!("{other:?}"),
    };
    assert_eq!(
        sent,
        vec!["Text(Spawned `ChronoboxTimestamps`)", "Text(Finished running `ChronoboxTimestamps`)"]
    );
    assert_eq!(ticket.service, "ui");
    assert_eq!(ticket.context, "r1");

    let mut state = handle_client_message(ask(ClientRequest::ChronoboxCsv { run_number: 42 }));
    let step = state.step(Event::Spawned { stage: 0, result: Ok(SpawnStep::Satisfied) });
    assert!(step.messages.is_empty());
    assert!(matches!(step.action, Action::Wait(_)));
    let step = state.step(Event::Waited { stage: 0, result: Ok(String::from(path)) });
    assert!(step.messages.is_empty());
    let delivered = match step.action {
        Action::Deliver(path) => path,
        _ => panic!("the file is ready"),
    };
    assert_eq!(delivered, path);
    let ticket = send_download_jwt("ui", "r1", &delivered, Some("secret"));
    match &ticket.response {
        ServerResponse::DownloadJWT(token) => {
            let first =
                alpha_g_data_handler::ticket::authorize_download(&first_token, Some("secret"));
            let second = alpha_g_data_handler::ticket::authorize_download(token, Some("secret"));
            assert_eq!(first.unwrap(), path);
            assert_eq!(second.unwrap(), path);
        }
        other => panic!("{other:?}"),
    }
}

#[test]
fn attaching_to_a_running_job_is_announced() {
    let mut state = handle_client_message(ask(ClientRequest::VerticesCsv { run_number: 7 }));
    let step = state.step(Event::Spawned { stage: 0, result: Ok(SpawnStep::Attach) });
    assert_eq!(replies(&step), vec!["Text(Spawned `Vertices`)"]);
    let step = state.step(Event::Waited { stage: 0, result: Ok(String::from("v.csv")) });
    assert_eq!(replies(&step), vec!["Text(Finished running `Vertices`)"]);
    assert!(matches!(step.action, Action::Deliver(path) if path == "v.csv"));
}

#[test]
fn fail_fast_pipeline() {
    let mut state = handle_client_message(ask(ClientRequest::SequencerEvents { run_number: 42 }));
    assert_eq!(state.jobs().len(), 3);
    let mut sent = Vec::new();
    for stage in 0..3 {
        let step = state.step(Event::Spawned { stage, result: Ok(SpawnStep::Spawn) });
        sent.extend(replies(&step));
        assert!(matches!(step.action, Action::Wait(_)));
    }
    let step = state.step(Event::Waited { stage: 2, result: Ok(String::from("cb.csv")) });
    sent.extend(replies(&step));
    assert!(is_nothing(&step.action));
    let failure = JobError::ProcessFailed(alpha_g_data_handler::error::ExitOutcome { code: Some(1) });
    let step = state.step(Event::Waited { stage: 1, result: Err(failure) });
    sent.extend(replies(&step));
    assert!(is_nothing(&step.action));
    assert!(state.is_closed());
    assert_eq!(
        sent,
        vec![
            "Text(Spawned `Sequencer`)",
            "Text(Spawned `InitialOdb`)",
            "Text(Spawned `ChronoboxTimestamps`)",
            "Text(Finished running `ChronoboxTimestamps`)",
            "Error(Error: core command failed with `exit status: 1`)",
        ]
    );
    let later = vec![
        Event::Waited { stage: 0, result: Ok(String::from("seq.csv")) },
        Event::Waited { stage: 1, result: Ok(String::from("odb.json")) },
        Event::Spawned { stage: 0, result: Ok(SpawnStep::Spawn) },
        Event::ScriptEnded { result: Ok(String::from("out.csv")) },
        Event::Waited { stage: 0, result: Err(JobError::WaitFailed(String::from("x"))) },
    ];
    for event in later {
        let step = state.step(event);
        assert!(step.messages.is_empty());
        assert!(is_nothing(&step.action));
        assert!(state.is_closed());
    }
}

#[test]
fn a_failed_spawn_ends_the_request() {
    let mut state = handle_client_message(ask(ClientRequest::SequencerEvents { run_number: 42 }));
    let step = state.step(Event::Spawned { stage: 0, result: Ok(SpawnStep::Spawn) });
    assert_eq!(replies(&step), vec!["Text(Spawned `Sequencer`)"]);
    let error = JobError::NoInputFiles { run_number: 42, dir: String::from("/data") };
    let step = state.step(Event::Spawned { stage: 1, result: Err(error) });
    assert_eq!(
        replies(&step),
        vec!["Error(Error: no MIDAS files found for run number `42` in `/data`)"]
    );
    assert!(is_nothing(&step.action));
    assert!(state.is_closed());
    let step = state.step(Event::Spawned { stage: 2, result: Ok(SpawnStep::Spawn) });
    assert!(step.messages.is_empty());
    assert!(is_nothing(&step.action));
}

#[test]
fn the_script_runs_once_every_job_is_done() {
    let mut state = handle_client_message(ask(ClientRequest::SequencerEvents { run_number: 42 }));
    for (stage, how) in [(1, SpawnStep::Satisfied), (0, SpawnStep::Spawn), (2, SpawnStep::Attach)] {
        let step = state.step(Event::Spawned { stage, result: Ok(how) });
        assert_eq!(step.messages.len(), if how == SpawnStep::Satisfied { 0 } else { 1 });
    }
    let step = state.step(Event::Waited { stage: 1, result: Ok(String::from("odb.json")) });
    assert!(step.messages.is_empty());
    assert!(is_nothing(&step.action));
    let step = state.step(Event::Waited { stage: 0, result: Ok(String::from("seq.csv")) });
    assert_eq!(replies(&step), vec!["Text(Finished running `Sequencer`)"]);
    assert!(is_nothing(&step.action));
    assert_eq!(state.phase(), Phase::Upstream);
    let step = state.step(Event::Waited { stage: 2, result: Ok(String::from("cb.csv")) });
    assert_eq!(
        replies(&step),
        vec!["Text(Finished running `ChronoboxTimestamps`)", "Text(Spawned `sequencer.py`)"]
    );
    assert_eq!(state.phase(), Phase::Script);
    match step.action {
        Action::RunScript { script, output } => {
            assert_eq!(output, "R42_sequencer_events.csv");
            assert_eq!(script.name(), "sequencer.py");
            match script {
                Script::Sequencer(script) => {
                    assert_eq!(script.sequencer_csv, "seq.csv");
                    assert_eq!(script.initial_odb_json, "odb.json");
                    assert_eq!(script.chronobox_csv, "cb.csv");
                }
                _ => panic!("the request ends with the sequencer script"),
            }
        }
        _ => panic!("the script is due"),
    }
    let step = state.step(Event::ScriptEnded { result: Ok(String::from("/tmp/x/out.csv")) });
    assert_eq!(replies(&step), vec!["Text(Finished running `sequencer.py`)"]);
    assert!(matches!(step.action, Action::Deliver(path) if path == "/tmp/x/out.csv"));
    assert!(state.is_closed());
}

#[test]
fn a_failed_script_ends_the_request() {
    let args = VerticesArgs {
        phi_bins: None,
        phi_max: None,
        phi_min: None,
        r_bins: None,
        r_max: None,
        r_min: None,
        t_bins: None,
        t_max: Some(String::from("2.5")),
        t_min: None,
        z_bins: None,
        z_max: None,
        z_min: None,
    };
    let mut state = handle_client_message(ask(ClientRequest::VerticesPlot { run_number: 9, args }));
    let step = state.step(Event::ScriptEnded { result: Ok(String::from("early")) });
    assert!(step.messages.is_empty() && is_nothing(&step.action));
    state.step(Event::Spawned { stage: 0, result: Ok(SpawnStep::Spawn) });
    let step = state.step(Event::Waited { stage: 0, result: Ok(String::from("v.csv")) });
    assert_eq!(
        replies(&step),
        vec!["Text(Finished running `Vertices`)", "Text(Spawned `vertices.py`)"]
    );
    match step.action {
        Action::RunScript { script, output } => {
            assert_eq!(output, "R9_vertices_plot.pdf");
            let mut list = Vec::new();
            script.push_arguments(&mut list, "out.pdf");
            assert_eq!(list, vec!["v.csv", "--output", "out.pdf", "--t-max", "2.5"]);
        }
        _ => panic!("the script is due"),
    }
    let error = ScriptError::NotRun { script: String::from("vertices.py"), why: String::from("gone") };
    let step = state.step(Event::ScriptEnded { result: Err(error) });
    assert_eq!(replies(&step), vec!["Error(Error: failed to run `vertices.py`: gone)"]);
    assert!(is_nothing(&step.action));
    assert!(state.is_closed());
}

#[test]
fn reports_that_do_not_fit_are_passed_over() {
    let mut state = handle_client_message(ask(ClientRequest::TrgScalersPlot {
        run_number: 3,
        args: no_trg_args(),
    }));
    let odd = vec![
        Event::Spawned { stage: 1, result: Ok(SpawnStep::Spawn) },
        Event::Waited { stage: 0, result: Ok(String::from("early")) },
        Event::Waited { stage: 5, result: Ok(String::from("far")) },
        Event::ScriptEnded { result: Ok(String::from("early")) },
    ];
    for event in odd {
        let step = state.step(event);
        assert!(step.messages.is_empty());
        assert!(is_nothing(&step.action));
        assert_eq!(state.phase(), Phase::Upstream);
    }
    let step = state.step(Event::Spawned { stage: 0, result: Ok(SpawnStep::Spawn) });
    assert_eq!(replies(&step), vec!["Text(Spawned `TrgScalers`)"]);
    let step = state.step(Event::Spawned { stage: 0, result: Ok(SpawnStep::Spawn) });
    assert!(step.messages.is_empty());
    let step = state.step(Event::Waited { stage: 0, result: Ok(String::from("trg.csv")) });
    assert_eq!(
        replies(&step),
        vec!["Text(Finished running `TrgScalers`)", "Text(Spawned `trg_scalers.py`)"]
    );
    match step.action {
        Action::RunScript { script, output } => {
            assert_eq!(output, "R3_trg_scalers_plot.pdf");
            let mut list = Vec::new();
            script.push_arguments(&mut list, "o");
            assert_eq!(
                list,
                vec!["trg.csv", "--output", "o", "--t-bins", "10", "--include-pulser-counter"]
            );
        }
        _ => panic!("the script is due"),
    }
}

#[test]
fn the_last_action_that_asks_for_something_comes_next() {
    assert!(is_nothing(&next_action(Vec::new())));
    assert!(is_nothing(&next_action(vec![Action::Nothing, Action::Nothing])));
    let next = next_action(vec![
        Action::Nothing,
        Action::Deliver(String::from("first")),
        Action::Nothing,
    ]);
    assert!(matches!(next, Action::Deliver(path) if path == "first"));
    let next = next_action(vec![
        Action::Deliver(String::from("first")),
        Action::Wait(CoreCmd { bin: CoreBin::Vertices, run_number: 2 }),
        Action::Nothing,
    ]);
    assert!(matches!(next, Action::Wait(cmd) if cmd.run_number == 2));
}

#[test]
fn the_request_ends_with_a_ticket_when_the_server_has_a_secret() {
    let mut state = handle_client_message(ask(ClientRequest::SequencerEvents { run_number: 42 }));
    let mut actions = Vec::new();
    for stage in 0..3 {
        state.step(Event::Spawned { stage, result: Ok(SpawnStep::Spawn) });
    }
    for (stage, path) in [(2, "cb.csv"), (0, "seq.csv"), (1, "odb.json")] {
        actions.push(state.step(Event::Waited { stage, result: Ok(String::from(path)) }).action);
    }
    assert!(matches!(next_action(actions), Action::RunScript { .. }));
    let step = state.step(Event::ScriptEnded { result: Ok(String::from("/tmp/x/out.csv")) });
    let Action::Deliver(path) = step.action else {
        panic!("the file is ready");
    };
    let message = send_download_jwt("ui", "r1", &path, Some("secret"));
    let ServerResponse::DownloadJWT(token) = message.response else {
        panic!("a ticket is owed");
    };
    assert_eq!(
        alpha_g_data_handler::ticket::authorize_download(&token, Some("secret")).unwrap(),
        "/tmp/x/out.csv"
    );
}
