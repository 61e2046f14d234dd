use alpha_g_data_handler::error::ExitOutcome;
use alpha_g_data_handler::job::Config;
use alpha_g_data_handler::run_info::{
    board, json_start, order_by_key, parse_hex, place, read_binary_time, BinaryTime,
    ChronoboxChannel, KeyedChannel, Odb, OdbError, RunInfoTemplate, BOARDS,
};
use alpha_g_data_handler::setup::{first_supported, install_core_binaries, select_tag, SetupStep};

fn named(list: &[&str]) -> Option<Vec<Option<String>>> {
    Some(list.iter().map(|s| Some(s.to_string())).collect())
}

fn settings() -> Odb {
    Odb {
        run_number: Some(9567),
        start_time: Some(String::from("0x65a1c0de")),
        stop_time: Some(String::from("0x65a1c4c6")),
        comment: Some(String::from("cosmics")),
        channels: vec![
            named(&["laser", "Empty", "trigger"]),
            named(&["empty", "Pulser"]),
            named(&[]),
            named(&["adc", "EMPTY"]),
        ],
    }
}

fn channel(board: &str, number: u8, description: &str) -> ChronoboxChannel {
    ChronoboxChannel {
        board: String::from(board),
        number,
        description: String::from(description),
    }
}

fn page(list: Vec<ChronoboxChannel>) -> RunInfoTemplate {
    RunInfoTemplate {
        run_number: 1,
        start_time: String::new(),
        stop_time: String::new(),
        operator_comment: String::new(),
        cb_channels: list,
    }
}

fn home() -> Config {
    Config {
        project_home: String::from("/home/user/.alpha-g-data-handler"),
        data_dir: String::from("/data"),
        cache_dir: String::from("/cache"),
    }
}

fn words(list: &[&str]) -> Vec<String> {
    list.iter().map(|s| s.to_string()).collect()
}

#[test]
fn the_settings_begin_at_the_first_brace() {
    assert_eq!(json_start(b"# comment\n{\"a\": {}}"), Some(10));
    assert_eq!(json_start(b"{}"), Some(0));
    assert_eq!(json_start(b"no settings"), None);
    assert_eq!(json_start(b""), None);
}

#[test]
fn labels_of_channels() {
    let page = page(vec![
        channel("cb01", 0, "laser"),
        channel("cb01", 1, "Empty"),
        channel("cb02", 0, "empty"),
        channel("cb02", 1, "Pulser"),
    ]);
    assert_eq!(page.cb_label_at(&0), Some(String::from("laser")));
    assert_eq!(page.cb_label_at(&1), None);
    assert_eq!(page.cb_label_at(&2), None);
    assert_eq!(page.cb_label_at(&3), Some(String::from("Pulser")));
    assert_eq!(page.cb_label_at(&4), None);
    assert_eq!(page.cb_label_at(&usize::MAX), None);
}

#[test]
fn binary_times() {
    assert!(matches!(read_binary_time(&Some(String::from("0x10"))), BinaryTime::At(16)));
    assert!(matches!(read_binary_time(&Some(String::from("0xfF"))), BinaryTime::At(255)));
    assert!(matches!(read_binary_time(&Some(String::from("0x-1"))), BinaryTime::At(-1)));
    assert!(matches!(
        read_binary_time(&Some(String::from("0x7fffffffffffffff"))),
        BinaryTime::At(i64::MAX)
    ));
    assert!(matches!(
        read_binary_time(&Some(String::from("0x8000000000000000"))),
        BinaryTime::Unreadable
    ));
    assert!(matches!(read_binary_time(&Some(String::from("0x"))), BinaryTime::Unreadable));
    assert!(matches!(read_binary_time(&Some(String::from("0xg"))), BinaryTime::Unreadable));
    assert!(matches!(read_binary_time(&Some(String::from("10"))), BinaryTime::Missing));
    assert!(matches!(read_binary_time(&Some(String::from("0X10"))), BinaryTime::Missing));
    assert!(matches!(read_binary_time(&Some(String::new())), BinaryTime::Missing));
    assert!(matches!(read_binary_time(&None), BinaryTime::Missing));
}

#[test]
fn a_page_from_settings() {
    let page = RunInfoTemplate::try_from_odb(&settings()).unwrap();
    assert_eq!(page.run_number, 9567);
    assert_eq!(page.start_time, "Fri, 12 Jan 2024 22:44:46 +0000");
    assert_eq!(page.stop_time, "Fri, 12 Jan 2024 23:01:26 +0000");
    assert_eq!(page.operator_comment, "cosmics");
    let listed: Vec<(String, u8, String)> = page
        .cb_channels
        .iter()
        .map(|c| (c.board.clone(), c.number, c.description.clone()))
        .collect();
    let expected = [
        ("cb04", 0, "adc"),
        ("cb01", 1, "Empty"),
        ("cb02", 0, "empty"),
        ("cb04", 1, "EMPTY"),
        ("cb01", 0, "laser"),
        ("cb02", 1, "Pulser"),
        ("cb01", 2, "trigger"),
    ];
    assert_eq!(listed.len(), expected.len());
    for (got, want) in listed.iter().zip(expected) {
        assert_eq!((got.0.as_str(), got.1, got.2.as_str()), want);
    }
    assert_eq!(page.cb_label_at(&0), Some(String::from("adc")));
    assert_eq!(page.cb_label_at(&1), None);
    assert_eq!(page.cb_label_at(&4), Some(String::from("laser")));
}

#[test]
fn the_list_is_ordered_as_a_stable_sort_orders_it() {
    let names = ["b", "A", "a", "C", "É", "é", "B", "", "a", "Z", "z", "10", "9"];
    let mut odb = settings();
    odb.channels = vec![named(&names), named(&["b", "Ω", "ω"]), named(&[]), named(&[])];
    let page = RunInfoTemplate::try_from_odb(&odb).unwrap();
    let mut expected: Vec<(String, u8, String)> = names
        .iter()
        .enumerate()
        .map(|(i, name)| (String::from("cb01"), i as u8, name.to_string()))
        .collect();
    expected.push((String::from("cb02"), 0, String::from("b")));
    expected.push((String::from("cb02"), 1, String::from("Ω")));
    expected.push((String::from("cb02"), 2, String::from("ω")));
    expected.sort_by(|a, b| a.2.to_lowercase().cmp(&b.2.to_lowercase()));
    let listed: Vec<(String, u8, String)> = page
        .cb_channels
        .iter()
        .map(|c| (c.board.clone(), c.number, c.description.clone()))
        .collect();
    assert_eq!(listed, expected);
}

#[test]
fn what_can_be_wrong_with_settings() {
    let broken = |change: fn(&mut Odb)| {
        let mut odb = settings();
        change(&mut odb);
        RunInfoTemplate::try_from_odb(&odb).unwrap_err()
    };
    assert_eq!(broken(|odb| odb.run_number = None), OdbError::NoRunNumber);
    assert_eq!(broken(|odb| odb.run_number = Some(4294967296)), OdbError::RunNumberTooLarge);
    assert_eq!(broken(|odb| odb.start_time = None), OdbError::NoStartTime);
    assert_eq!(broken(|odb| odb.start_time = Some(String::from("1"))), OdbError::NoStartTime);
    assert_eq!(broken(|odb| odb.start_time = Some(String::from("0xzz"))), OdbError::BadStartTime);
    assert_eq!(broken(|odb| odb.stop_time = None), OdbError::NoStopTime);
    assert_eq!(broken(|odb| odb.stop_time = Some(String::from("0x"))), OdbError::BadStopTime);
    assert_eq!(
        broken(|odb| odb.stop_time = Some(String::from("0x65a1c0de"))),
        OdbError::StartAfterStop
    );
    assert_eq!(broken(|odb| odb.stop_time = Some(String::from("0x1"))), OdbError::StartAfterStop);
    assert_eq!(broken(|odb| odb.comment = None), OdbError::NoComment);
    assert_eq!(
        broken(|odb| odb.start_time = Some(String::from("0x-ffffffffffff"))),
        OdbError::StartTimeNotFormatted
    );
    assert_eq!(
        broken(|odb| odb.stop_time = Some(String::from("0xffffffffffff"))),
        OdbError::StopTimeNotFormatted
    );
    assert_eq!(broken(|odb| odb.channels[2] = None), OdbError::NoChannels { board: 2 });
    assert_eq!(broken(|odb| odb.channels.truncate(3)), OdbError::NoChannels { board: 3 });
    assert_eq!(broken(|odb| odb.channels.clear()), OdbError::NoChannels { board: 0 });
    assert_eq!(
        broken(|odb| odb.channels[1] = Some(vec![Some(String::from("a")), None])),
        OdbError::NoChannelName { board: 1, index: 1 }
    );
    assert_eq!(
        broken(|odb| odb.channels[3] = Some(vec![Some(String::from("x")); 257])),
        OdbError::ChannelNumberTooLarge { board: 3, index: 256 }
    );
    assert_eq!(
        broken(|odb| {
            odb.run_number = None;
            odb.comment = None;
            odb.channels.clear();
        }),
        OdbError::NoRunNumber
    );
    assert_eq!(
        broken(|odb| {
            odb.channels[0] = Some(vec![None]);
            odb.channels[1] = None;
        }),
        OdbError::NoChannelName { board: 0, index: 0 }
    );
    let mut full = settings();
    full.run_number = Some(4294967295);
    full.channels[0] = Some(vec![Some(String::from("x")); 256]);
    let page = RunInfoTemplate::try_from_odb(&full).unwrap();
    assert_eq!(page.run_number, u32::MAX);
    assert_eq!(page.cb_channels.len(), 260);
}

#[test]
fn errors_of_settings_in_words() {
    assert_eq!(OdbError::NoRunNumber.message(), "failed to get run number");
    assert_eq!(OdbError::RunNumberTooLarge.message(), "failed to convert run number to u32");
    assert_eq!(OdbError::NoStartTime.message(), "failed to get binary start time");
    assert_eq!(OdbError::BadStartTime.message(), "failed to parse start time as u64");
    assert_eq!(OdbError::NoStopTime.message(), "failed to get binary stop time");
    assert_eq!(OdbError::BadStopTime.message(), "failed to parse stop time as u64");
    assert_eq!(OdbError::StartAfterStop.message(), "start time after stop time");
    assert_eq!(OdbError::NoComment.message(), "failed to get comment");
    assert_eq!(OdbError::StartTimeNotFormatted.message(), "failed to format start time");
    assert_eq!(OdbError::StopTimeNotFormatted.message(), "failed to format stop time");
    assert_eq!(
        OdbError::NoChannels { board: 0 }.message(),
        "failed to get channels array for `cb01`"
    );
    assert_eq!(
        OdbError::ChannelNumberTooLarge { board: 1, index: 256 }.message(),
        "failed to convert channel number `256` to u8 for `cb02`"
    );
    assert_eq!(
        OdbError::NoChannelName { board: 3, index: 12 }.message(),
        "failed to get channel name for `cb04` at `12`"
    );
    assert_eq!(BOARDS, 4);
    assert_eq!(board(2), "cb03");
}

#[test]
fn the_newest_supported_tag_is_taken() {
    assert_eq!(
        select_tag(&words(&["v1.0.0", "v0.2.0", "v0.1.5", "v0.1.1", "v0.1.0"])),
        Some(String::from("v0.1.5"))
    );
    assert_eq!(select_tag(&words(&["v0.1.0", "v0.1.1"])), Some(String::from("v0.1.1")));
    assert_eq!(select_tag(&words(&["", "v", "vx", "0.1.1", "x0.1.2"])), Some(String::from("x0.1.2")));
    assert_eq!(select_tag(&words(&["v0.2.0", "v0.1.0", "v0.1.2-rc1", "latest"])), None);
    assert_eq!(select_tag(&Vec::new()), None);
    assert_eq!(select_tag(&words(&["é0.1.3"])), Some(String::from("é0.1.3")));
}

#[test]
fn the_commands_of_the_setup() {
    let line = install_core_binaries(&home());
    assert_eq!(line.program, "cargo");
    assert_eq!(
        line.args,
        words(&[
            "install",
            "--quiet",
            "--locked",
            "--root",
            "/home/user/.alpha-g-data-handler/rust",
            "alpha-g-analysis@^0.5.4",
        ])
    );
    let scripts = "/home/user/.alpha-g-data-handler/analysis-scripts";
    let python = format!("{scripts}/.venv/bin/python3");

    let step = SetupStep::Clone.command(&home());
    assert_eq!(step.line.program, "git");
    assert_eq!(
        step.line.args,
        words(&["clone", "https://github.com/ALPHA-g-Experiment/analysis-scripts.git"])
    );
    assert_eq!(step.dir.unwrap(), "/home/user/.alpha-g-data-handler");

    let step = SetupStep::ListTags.command(&home());
    assert_eq!(step.line.program, "git");
    assert_eq!(step.line.args, words(&["tag", "--list", "--sort=-v:refname", "v*"]));
    assert_eq!(step.dir.unwrap(), scripts);

    let step = SetupStep::Checkout(String::from("v0.1.5")).command(&home());
    assert_eq!(step.line.program, "git");
    assert_eq!(step.line.args, words(&["checkout", "v0.1.5"]));
    assert_eq!(step.dir.unwrap(), scripts);

    let step = SetupStep::MakeVenv.command(&home());
    assert_eq!(step.line.program, "python3");
    assert_eq!(step.line.args, words(&["-m", "venv", ".venv"]));
    assert_eq!(step.dir.unwrap(), scripts);

    let step = SetupStep::UpgradePip.command(&home());
    assert_eq!(step.line.program, python);
    assert_eq!(step.line.args, words(&["-m", "pip", "install", "--upgrade", "pip"]));
    assert!(step.dir.is_none());

    let step = SetupStep::InstallRequirements.command(&home());
    assert_eq!(step.line.program, python);
    assert_eq!(step.line.args, words(&["-m", "pip", "install", "-r", "requirements.txt"]));
    assert_eq!(step.dir.unwrap(), scripts);
}

#[test]
fn a_step_is_done_on_exit_code_zero() {
    let failed = ExitOutcome { code: Some(1) };
    assert_eq!(SetupStep::Clone.check(ExitOutcome { code: Some(0) }), Ok(()));
    assert_eq!(SetupStep::Clone.check(failed), Err(String::from("`git clone` failed")));
    assert_eq!(SetupStep::ListTags.check(failed), Err(String::from("`git tag --list` failed")));
    assert_eq!(
        SetupStep::Checkout(String::from("v1")).check(ExitOutcome { code: None }),
        Err(String::from("`git checkout` failed"))
    );
    assert_eq!(
        SetupStep::MakeVenv.check(failed),
        Err(String::from("`python3 -m venv .venv` failed"))
    );
    assert_eq!(SetupStep::UpgradePip.check(failed), Err(String::from("`pip upgrade` failed")));
    assert_eq!(
        SetupStep::InstallRequirements.check(failed),
        Err(String::from("`install requirements.txt` failed"))
    );
}

#[test]
fn numbers_in_base_sixteen() {
    assert_eq!(parse_hex("0"), Some(0));
    assert_eq!(parse_hex("65a1c0de"), Some(1705099486));
    assert_eq!(parse_hex("-ff"), Some(-255));
    assert_eq!(parse_hex("+Ff"), Some(255));
    assert_eq!(parse_hex("7fffffffffffffff"), Some(i64::MAX));
    assert_eq!(parse_hex("-8000000000000000"), Some(i64::MIN));
    assert_eq!(parse_hex("8000000000000000"), None);
    assert_eq!(parse_hex("-8000000000000001"), None);
    assert_eq!(parse_hex(""), None);
    assert_eq!(parse_hex("-"), None);
    assert_eq!(parse_hex("+"), None);
    let texts = [
        "", "0", "00", "000000000000000000000001", "1", "a", "A", "g", "G", "f", "F", "10", "fF",
        "-", "+", "-0", "+0", "-1", "+1", "--1", "+-1", "-+1", "1-", "1+", " 1", "1 ", "_1", "1_0",
        "0x10", "7fffffffffffffff", "8000000000000000", "-7fffffffffffffff", "-8000000000000000",
        "-8000000000000001", "ffffffffffffffff", "10000000000000000", "-10000000000000000",
        "123456789abcdef", "é", "1é", "/", ":", "@", "`", "9", "deadBEEF", "-deadbeef",
        "fffffffffffffffffffffffffffffffff", "80000000000000000000000z",
    ];
    for text in texts {
        assert_eq!(parse_hex(text), i64::from_str_radix(text, 16).ok(), "{text}");
    }
}

fn keyed(key: &str, description: &str, number: u8) -> KeyedChannel {
    KeyedChannel { key: String::from(key), channel: channel("cb01", number, description) }
}

fn descriptions(list: &[ChronoboxChannel]) -> Vec<(String, u8)> {
    list.iter().map(|c| (c.description.clone(), c.number)).collect()
}

#[test]
fn channels_follow_the_keys_they_come_with() {
    let items = vec![keyed("b", "B", 0), keyed("a", "a", 1)];
    assert_eq!(
        descriptions(&order_by_key(&items)),
        vec![(String::from("a"), 1), (String::from("B"), 0)]
    );
    let items = vec![keyed("B", "B", 0), keyed("a", "a", 1)];
    assert_eq!(
        descriptions(&order_by_key(&items)),
        vec![(String::from("B"), 0), (String::from("a"), 1)]
    );
    let items = vec![
        keyed("x", "third", 0),
        keyed("m", "first", 1),
        keyed("x", "fourth", 2),
        keyed("m", "second", 3),
        keyed("", "zeroth", 4),
    ];
    assert_eq!(
        descriptions(&order_by_key(&items)),
        vec![
            (String::from("zeroth"), 4),
            (String::from("first"), 1),
            (String::from("second"), 3),
            (String::from("third"), 0),
            (String::from("fourth"), 2),
        ]
    );
    assert!(order_by_key(&Vec::new()).is_empty());
}

#[test]
fn a_channel_goes_behind_the_last_that_is_not_after_it() {
    let mut sorted = vec![keyed("a", "1", 0), keyed("c", "2", 1), keyed("c", "3", 2), keyed("e", "4", 3)];
    place(&mut sorted, keyed("c", "new", 9));
    let order: Vec<&str> = sorted.iter().map(|k| k.channel.description.as_str()).collect();
    assert_eq!(order, vec!["1", "2", "3", "new", "4"]);
    place(&mut sorted, keyed("", "front", 9));
    place(&mut sorted, keyed("z", "back", 9));
    let order: Vec<&str> = sorted.iter().map(|k| k.channel.description.as_str()).collect();
    assert_eq!(order, vec!["front", "1", "2", "3", "new", "4", "back"]);
    let mut empty = Vec::new();
    place(&mut empty, keyed("k", "only", 1));
    assert_eq!(empty.len(), 1);
    assert_eq!(empty[0].key, "k");
}

#[test]
fn the_first_marked_tag_is_taken() {
    let tags = words(&["v1.0.0", "v0.1.5", "v0.1.1"]);
    assert_eq!(first_supported(&tags, &vec![false, true, true]), Some(String::from("v0.1.5")));
    assert_eq!(first_supported(&tags, &vec![true, true, true]), Some(String::from("v1.0.0")));
    assert_eq!(first_supported(&tags, &vec![false, false, true]), Some(String::from("v0.1.1")));
    assert_eq!(first_supported(&tags, &vec![false, false, false]), None);
    assert_eq!(first_supported(&tags, &vec![false]), None);
    assert_eq!(first_supported(&tags, &Vec::new()), None);
    assert_eq!(first_supported(&tags, &vec![false, false, false, true]), None);
    assert_eq!(first_supported(&tags, &vec![false, true]), Some(String::from("v0.1.5")));
    assert_eq!(first_supported(&Vec::new(), &vec![true]), None);
}
