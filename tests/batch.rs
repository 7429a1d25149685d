use refresh_rate::batch::{
    dd_to_u32_pcstr_hashmap, exit_code, get_active_display_devices, BatchRun, OperationOutcome,
    Step,
};
use refresh_rate::display_args::{parse_display_args, DisplayArgs, NewDisplayConfig};
use refresh_rate::display_change::{
    disp_change_to_enum, ChangeBug, ChangeFailure, DisplayChangeErr, DisplayChangeOk,
};
use refresh_rate::set_cli::validate_set_cli;

fn args(index: u32, refresh_rate: u32) -> DisplayArgs {
    DisplayArgs(index, NewDisplayConfig { refresh_rate })
}

fn roster(entries: &[(u32, &str)]) -> refresh_rate::batch::DeviceRoster {
    let devices: Vec<(u32, String)> = entries.iter().map(|(i, n)| (*i, n.to_string())).collect();
    dd_to_u32_pcstr_hashmap(&devices)
}

#[test]
fn test_set_cli_validation() {
    let parsed = vec![parse_display_args("1:300").unwrap(), parse_display_args("1:300").unwrap()];
    let r = validate_set_cli(parsed);
    let vec = match r {
        Err(vec) => vec,
        Ok(_) => panic!("a batch naming display 1 twice was accepted"),
    };
    assert_eq!(vec[0].0, 1);
    assert_eq!(vec[0].1.refresh_rate, 300);
}

#[test]
fn duplicates_listed_after_the_first() {
    let r = validate_set_cli(vec![args(1, 300), args(1, 300)]);
    assert_eq!(r.err().unwrap(), vec![args(1, 300)]);
    let r = validate_set_cli(vec![args(2, 60), args(1, 75), args(2, 144), args(1, 60), args(2, 30)]);
    assert_eq!(r.err().unwrap(), vec![args(2, 144), args(1, 60), args(2, 30)]);
}

#[test]
fn distinct_indices_accepted() {
    let cli = validate_set_cli(vec![args(2, 60), args(1, 75)]).ok().unwrap();
    assert_eq!(cli.display_settings.len(), 2);
    assert_eq!(cli.display_settings.get(&2).unwrap().refresh_rate, 60);
    assert_eq!(cli.display_settings.get(&1).unwrap().refresh_rate, 75);
    let empty = validate_set_cli(vec![]).ok().unwrap();
    assert!(empty.display_settings.is_empty());
}

#[test]
fn unknown_index_fails_the_run() {
    let cli = validate_set_cli(vec![args(1, 300)]).ok().unwrap();
    let devices = roster(&[(2, "\\\\.\\DISPLAY2")]);
    let mut run = BatchRun::new(&cli);
    match run.next_step(&devices) {
        Step::Unknown { index } => assert_eq!(index, 1),
        other => panic!("unexpected step {:?}", other),
    }
    match run.next_step(&devices) {
        Step::Done { success } => {
            assert!(!success);
            assert_eq!(exit_code(success), 1);
        }
        other => panic!("unexpected step {:?}", other),
    }
}

#[test]
fn applied_change_succeeds() {
    let cli = validate_set_cli(vec![args(1, 300)]).ok().unwrap();
    let devices = roster(&[(1, "\\\\.\\DISPLAY1")]);
    let mut run = BatchRun::new(&cli);
    match run.next_step(&devices) {
        Step::Apply { index, device_name, refresh_rate } => {
            assert_eq!(index, 1);
            assert_eq!(device_name, "\\\\.\\DISPLAY1");
            assert_eq!(refresh_rate, 300);
        }
        other => panic!("unexpected step {:?}", other),
    }
    assert_eq!(run.record(Ok(DisplayChangeOk::Applied)), OperationOutcome::Applied);
    match run.next_step(&devices) {
        Step::Done { success } => {
            assert!(success);
            assert_eq!(exit_code(success), 0);
        }
        other => panic!("unexpected step {:?}", other),
    }
}

#[test]
fn every_target_attempted_after_a_failure() {
    let cli = validate_set_cli(vec![args(1, 60), args(2, 75), args(3, 144)]).ok().unwrap();
    let devices = roster(&[(1, "A"), (3, "C")]);
    let mut run = BatchRun::new(&cli);
    let mut seen = Vec::new();
    let success = loop {
        match run.next_step(&devices) {
            Step::Apply { index, .. } => {
                seen.push(index);
                let answer = if index == 1 {
                    Err(DisplayChangeErr::Refused(ChangeFailure::BadMode))
                } else {
                    Ok(DisplayChangeOk::NeedRestart)
                };
                run.record(answer);
            }
            Step::Unknown { index } => seen.push(index),
            Step::Done { success } => break success,
        }
    };
    seen.sort();
    assert_eq!(seen, vec![1, 2, 3]);
    assert!(!success);
}

#[test]
fn restart_counts_as_success() {
    let cli = validate_set_cli(vec![args(4, 60)]).ok().unwrap();
    let devices = roster(&[(4, "D")]);
    let mut run = BatchRun::new(&cli);
    assert!(matches!(run.next_step(&devices), Step::Apply { .. }));
    assert_eq!(
        run.record(Ok(DisplayChangeOk::NeedRestart)),
        OperationOutcome::AppliedNeedsRestart
    );
    assert!(matches!(run.next_step(&devices), Step::Done { success: true }));
}

#[test]
fn empty_batch_succeeds() {
    let cli = validate_set_cli(vec![]).ok().unwrap();
    let mut run = BatchRun::new(&cli);
    assert!(matches!(run.next_step(&roster(&[])), Step::Done { success: true }));
}

#[test]
fn change_codes() {
    assert_eq!(disp_change_to_enum(0), Ok(DisplayChangeOk::Applied));
    assert_eq!(disp_change_to_enum(1), Ok(DisplayChangeOk::NeedRestart));
    assert_eq!(disp_change_to_enum(-1), Err(DisplayChangeErr::Refused(ChangeFailure::DriverFailed)));
    assert_eq!(disp_change_to_enum(-2), Err(DisplayChangeErr::Refused(ChangeFailure::BadMode)));
    assert_eq!(disp_change_to_enum(-3), Err(DisplayChangeErr::Refused(ChangeFailure::NotUpdated)));
    assert_eq!(disp_change_to_enum(-4), Err(DisplayChangeErr::Bug(ChangeBug::BadFlags)));
    assert_eq!(disp_change_to_enum(-5), Err(DisplayChangeErr::Bug(ChangeBug::BadParam)));
    assert_eq!(disp_change_to_enum(-6), Err(DisplayChangeErr::Refused(ChangeFailure::BadDualView)));
    assert_eq!(
        DisplayChangeErr::Bug(ChangeBug::BadFlags).message(),
        "An invalid set of flags was passed in. This is likely to be a bug !"
    );
}

#[test]
fn active_devices_numbered_from_one() {
    let all = vec![
        (1u32, "A".to_string()),
        (0u32, "B".to_string()),
        (5u32, "C".to_string()),
        (4u32, "D".to_string()),
    ];
    let active = get_active_display_devices(&all);
    assert_eq!(active, vec![(1, "A".to_string()), (3, "C".to_string())]);
}

#[test]
fn roster_lookup() {
    let devices = roster(&[(1, "A"), (2, "B"), (1, "C")]);
    assert_eq!(devices.devices.len(), 2);
    assert_eq!(devices.devices.get(&1).unwrap(), "C");
}
