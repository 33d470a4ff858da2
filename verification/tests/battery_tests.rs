use battery_threshold::battery::{Battery, ThresholdFile};
use battery_threshold::decimal::{gstring_to_u8, parse_u8, u8_to_decimal, U8ParseError};
use battery_threshold::update::UpdateStep;

fn listing() -> &'static str {
    "AC\nBAT0\nBAT1\nhidpp_battery_0\nucsi-source-psy-USBC000:001\n"
}

#[test]
fn new_keeps_lines_with_bat_and_chooses_first() {
    let b = Battery::new(listing());
    assert_eq!(b.bat_list, vec!["BAT0".to_string(), "BAT1".to_string()]);
    assert_eq!(b.bat_name, "BAT0");
    assert_eq!(b.bat_start_thrs, 0);
    assert_eq!(b.bat_end_thrs, 0);
    assert_eq!(b.bat_start_thrs_init, 0);
    assert_eq!(b.bat_end_thrs_init, 0);
    assert_eq!(b.bat_status, "");
    assert_eq!(b.bat_capacity, "");
}

#[test]
fn new_without_batteries_has_no_name() {
    let b = Battery::new("AC\nADP1\n");
    assert!(b.bat_list.is_empty());
    assert_eq!(b.bat_name, "");
    let e = Battery::new("");
    assert!(e.bat_list.is_empty());
    assert_eq!(e.bat_name, "");
}

#[test]
fn bat_list_follows_str_lines() {
    let inputs = [
        "BAT0",
        "BAT0\r\nBAT1\r\n",
        "xBATy\n\nBAT\nBA\nT\n",
        "\n\n",
        "BAT0\rBAT1",
        "AC\nBAT2\r",
        "BATTERY\n  BAT1  \n",
        "é\nBATé\n",
    ];
    for input in inputs {
        let expected: Vec<String> =
            input.lines().filter(|l| l.contains("BAT")).map(String::from).collect();
        let mut list = vec!["stale".to_string()];
        Battery::get_bat_list(&mut list, input);
        assert_eq!(list, expected, "input {:?}", input);
    }
}

#[test]
fn bat_list_strips_carriage_return_only_before_line_feed() {
    let mut list = Vec::new();
    Battery::get_bat_list(&mut list, "BAT0\r\nBAT1\r");
    assert_eq!(list, vec!["BAT0".to_string(), "BAT1\r".to_string()]);
}

#[test]
fn name_strings_match_list() {
    let b = Battery::new(listing());
    assert_eq!(b.get_bat_name_strings(), vec!["BAT0", "BAT1"]);
}

#[test]
fn change_bat_name_only_changes_name() {
    let mut b = Battery::new(listing());
    b.bat_start_thrs = 40;
    b.change_bat_name("BAT1".to_string());
    assert_eq!(b.bat_name, "BAT1");
    assert_eq!(b.bat_start_thrs, 40);
    assert_eq!(b.bat_list.len(), 2);
}

#[test]
fn parse_matches_std_on_examples() {
    let inputs = [
        "", "0", "7", "42", "007", "255", "256", "+5", "+", "-", "-5", "-0", " 5", "5 ", "25x",
        "260x", "2560", "99999999999", "x", "1_0", "٣", "+-1", "++1",
    ];
    for input in inputs {
        let ours = parse_u8(input);
        let theirs = input.parse::<u8>();
        match (ours, theirs) {
            (Ok(a), Ok(b)) => assert_eq!(a, b, "input {:?}", input),
            (Err(e), Err(f)) => {
                let kind = match f.kind() {
                    std::num::IntErrorKind::Empty => U8ParseError::Empty,
                    std::num::IntErrorKind::InvalidDigit => U8ParseError::InvalidDigit,
                    std::num::IntErrorKind::PosOverflow => U8ParseError::PosOverflow,
                    other => panic!("unexpected kind {:?}", other),
                };
                assert_eq!(e, kind, "input {:?}", input);
                assert_eq!(e.message(), f.to_string());
            }
            (a, b) => panic!("input {:?}: {:?} vs {:?}", input, a, b),
        }
    }
}

#[test]
fn parse_error_kinds() {
    assert_eq!(parse_u8(""), Err(U8ParseError::Empty));
    assert_eq!(parse_u8("+"), Err(U8ParseError::InvalidDigit));
    assert_eq!(parse_u8("300"), Err(U8ParseError::PosOverflow));
    assert_eq!(parse_u8("8O"), Err(U8ParseError::InvalidDigit));
    assert_eq!(parse_u8("+80"), Ok(80));
}

#[test]
fn decimal_matches_to_string_and_parses_back() {
    for n in 0..=255u8 {
        let text = u8_to_decimal(n);
        assert_eq!(text, n.to_string());
        assert_eq!(parse_u8(&text), Ok(n));
    }
}

#[test]
fn gstring_to_u8_reports_text() {
    assert_eq!(gstring_to_u8("60"), Ok(60));
    assert_eq!(gstring_to_u8("6o"), Err("Failed to convert '6o' to u8".to_string()));
    assert_eq!(gstring_to_u8(""), Err("Failed to convert '' to u8".to_string()));
    assert_eq!(gstring_to_u8("1000"), Err("Failed to convert '1000' to u8".to_string()));
}

#[test]
fn reading_thresholds_from_files() {
    let mut b = Battery::new(listing());
    assert_eq!(b.get_bat_start_threshold("75\n"), Ok(75));
    assert_eq!(b.get_bat_end_threshold("80\n"), Ok(80));
    assert_eq!((b.bat_start_thrs, b.bat_start_thrs_init), (75, 75));
    assert_eq!((b.bat_end_thrs, b.bat_end_thrs_init), (80, 80));
    assert_eq!(b.get_bat_end_threshold("eighty\n"), Err(U8ParseError::InvalidDigit));
    assert_eq!((b.bat_end_thrs, b.bat_end_thrs_init), (80, 80));
    assert_eq!(b.get_bat_start_threshold("\n"), Err(U8ParseError::Empty));
    assert_eq!((b.bat_start_thrs, b.bat_start_thrs_init), (75, 75));
    // Only a trailing line feed is dropped.
    assert_eq!(b.get_bat_start_threshold("60"), Ok(60));
    assert_eq!(b.get_bat_end_threshold("80"), Ok(80));
    assert_eq!(b.get_bat_start_threshold("605"), Err(U8ParseError::PosOverflow));
    assert_eq!((b.bat_start_thrs, b.bat_start_thrs_init), (60, 60));
    assert_eq!(b.get_bat_end_threshold("90\r\n"), Err(U8ParseError::InvalidDigit));
}

#[test]
fn paths_and_commands() {
    let b = Battery::new(listing());
    assert_eq!(b.property_path("uevent"), "/sys/class/power_supply/BAT0/uevent");
    assert_eq!(
        b.threshold_file_path(ThresholdFile::End),
        "/sys/class/power_supply/BAT0/charge_control_end_threshold"
    );
    assert_eq!(
        b.bat_property_command(&"capacity".to_string(), &"50".to_string()),
        "echo 50 | sudo tee /sys/class/power_supply/BAT0/capacity"
    );
    assert_eq!(ThresholdFile::Start.property_name(), "charge_control_start_threshold");
}

fn battery_with(start_init: u8, end_init: u8, start: u8, end: u8) -> Battery {
    let mut b = Battery::new("BAT1\n");
    b.bat_start_thrs_init = start_init;
    b.bat_end_thrs_init = end_init;
    b.bat_start_thrs = start;
    b.bat_end_thrs = end;
    b
}

#[test]
fn end_written_first_when_raising() {
    let b = battery_with(40, 80, 60, 90);
    assert_eq!(b.threshold_write_order(), (ThresholdFile::End, ThresholdFile::Start));
    let (first, last) = b.threshold_commands();
    assert_eq!(first, "echo 90 | sudo tee /sys/class/power_supply/BAT1/charge_control_end_threshold");
    assert_eq!(last, "echo 60 | sudo tee /sys/class/power_supply/BAT1/charge_control_start_threshold");
}

#[test]
fn start_written_first_when_end_drops_below_old_start() {
    let b = battery_with(70, 90, 20, 50);
    assert_eq!(b.threshold_write_order(), (ThresholdFile::Start, ThresholdFile::End));
    let (first, last) = b.threshold_commands();
    assert_eq!(first, "echo 20 | sudo tee /sys/class/power_supply/BAT1/charge_control_start_threshold");
    assert_eq!(last, "echo 50 | sudo tee /sys/class/power_supply/BAT1/charge_control_end_threshold");
}

#[test]
fn write_order_never_puts_start_above_end() {
    // Concrete instance of the write-order law: simulate the kernel's values.
    for (s0, e0, s, e) in [(40u8, 80u8, 60u8, 90u8), (70, 90, 20, 50), (40, 80, 20, 40), (0, 100, 100, 100)] {
        let b = battery_with(s0, e0, s, e);
        let (first, last) = b.threshold_write_order();
        let apply = |state: (u8, u8), f: ThresholdFile| match f {
            ThresholdFile::Start => (s, state.1),
            ThresholdFile::End => (state.0, e),
        };
        let mid = apply((s0, e0), first);
        assert!(mid.0 <= mid.1);
        assert_eq!(apply(mid, last), (s, e));
    }
}

#[test]
fn update_steps() {
    let b = battery_with(70, 90, 20, 50);
    let step = UpdateStep::start();
    assert_eq!(step, UpdateStep::AskPassword);
    assert_eq!(b.update_command(step), None);
    assert_eq!(step.next(false), UpdateStep::PasswordFailed);
    let step = step.next(true);
    assert_eq!(step, UpdateStep::WriteFirst);
    assert_eq!(b.update_command(step), Some(b.threshold_commands().0));
    assert_eq!(step.next(false), UpdateStep::FirstWriteFailed);
    let step = step.next(true);
    assert_eq!(step, UpdateStep::WriteLast);
    assert_eq!(b.update_command(step), Some(b.threshold_commands().1));
    assert_eq!(step.next(false), UpdateStep::Done);
    assert!(step.next(true).finished());
    assert!(!step.finished());
    assert_eq!(UpdateStep::Done.next(true), UpdateStep::Done);
}

#[test]
fn end_threshold_file_without_line_feed() {
    let mut b = Battery::new("BAT0\n");
    assert_eq!(b.get_bat_end_threshold("80"), Ok(80));
    assert_eq!((b.bat_end_thrs, b.bat_end_thrs_init), (80, 80));
    assert_eq!(b.get_bat_start_threshold("75"), Ok(75));
    assert_eq!((b.bat_start_thrs, b.bat_start_thrs_init), (75, 75));
    assert_eq!(b.get_bat_start_threshold("75\n\n"), Err(U8ParseError::InvalidDigit));
}

#[test]
fn set_wanted_threshold_from_entry_text() {
    let mut b = Battery::new("BAT0\n");
    b.bat_start_thrs_init = 40;
    assert_eq!(b.set_wanted_threshold(ThresholdFile::Start, "55"), Ok(55));
    assert_eq!(b.set_wanted_threshold(ThresholdFile::End, "85"), Ok(85));
    assert_eq!((b.bat_start_thrs, b.bat_end_thrs, b.bat_start_thrs_init), (55, 85, 40));
    assert_eq!(
        b.set_wanted_threshold(ThresholdFile::End, "8x"),
        Err("Failed to convert '8x' to u8".to_string())
    );
    assert_eq!(b.bat_end_thrs, 85);
}

#[test]
fn canonical_text_parses_to_its_own_decimal() {
    for text in ["0", "7", "42", "100", "255"] {
        let v = parse_u8(text).unwrap();
        assert_eq!(u8_to_decimal(v), text);
    }
}
