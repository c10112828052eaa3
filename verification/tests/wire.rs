use screencap::command::ControlCommand;
use screencap::wire::{
    decode_all, decode_command, encode_command, encode_number, parse_number, parse_or_zero,
    split_at_sign,
};
use screencap::worker::CaptureWorker;

#[test]
fn parse_number_reads_signed_decimals() {
    assert_eq!(parse_number("0"), Some(0));
    assert_eq!(parse_number("42"), Some(42));
    assert_eq!(parse_number("+42"), Some(42));
    assert_eq!(parse_number("-42"), Some(-42));
    assert_eq!(parse_number("007"), Some(7));
    assert_eq!(parse_number("-0"), Some(0));
    assert_eq!(parse_number("2147483647"), Some(i32::MAX));
    assert_eq!(parse_number("-2147483648"), Some(i32::MIN));
}

#[test]
fn parse_number_refuses_what_is_no_number() {
    assert_eq!(parse_number(""), None);
    assert_eq!(parse_number("-"), None);
    assert_eq!(parse_number("+"), None);
    assert_eq!(parse_number("12a"), None);
    assert_eq!(parse_number(" 12"), None);
    assert_eq!(parse_number("1.5"), None);
    assert_eq!(parse_number("--1"), None);
    assert_eq!(parse_number("2147483648"), None);
    assert_eq!(parse_number("-2147483649"), None);
    assert_eq!(parse_number("99999999999999999999999999"), None);
    assert_eq!(parse_number("٣"), None);
}

#[test]
fn parse_number_agrees_with_std() {
    for text in ["", "1", "-1", "+1", "+-1", "0000", "2147483648", "-2147483648", "x", "1 ", "5@6"] {
        assert_eq!(parse_number(text), text.parse::<i32>().ok(), "{}", text);
    }
}

#[test]
fn malformed_number_counts_as_zero() {
    assert_eq!(parse_or_zero("fast"), 0);
    assert_eq!(parse_or_zero(""), 0);
    assert_eq!(parse_or_zero("31"), 31);
}

#[test]
fn split_at_sign_takes_the_first() {
    assert_eq!(split_at_sign("640@360"), ("640", "360"));
    assert_eq!(split_at_sign("640"), ("640", ""));
    assert_eq!(split_at_sign("@"), ("", ""));
    assert_eq!(split_at_sign("a@b@c"), ("a", "b@c"));
    assert_eq!(split_at_sign(""), ("", ""));
    assert_eq!(split_at_sign("é@ü"), ("é", "ü"));
}

#[test]
fn decode_known_commands() {
    assert_eq!(decode_command("setFrameRate", "30"), Some(ControlCommand::SetFrameRate(30)));
    assert_eq!(decode_command("setResolution", "640@360"), Some(ControlCommand::SetResolution(640, 360)));
    assert_eq!(decode_command("setWidth", "-5"), Some(ControlCommand::SetWidth(-5)));
    assert_eq!(decode_command("setHeight", "480"), Some(ControlCommand::SetHeight(480)));
    assert_eq!(decode_command("stop", ""), Some(ControlCommand::Stop));
    assert_eq!(decode_command("stop", "now"), Some(ControlCommand::Stop));
}

#[test]
fn decode_malformed_values_as_zero() {
    assert_eq!(decode_command("setFrameRate", "many"), Some(ControlCommand::SetFrameRate(0)));
    assert_eq!(decode_command("setResolution", "640"), Some(ControlCommand::SetResolution(640, 0)));
    assert_eq!(decode_command("setResolution", "x@360"), Some(ControlCommand::SetResolution(0, 360)));
    assert_eq!(decode_command("setResolution", "1@2@3"), Some(ControlCommand::SetResolution(1, 2)));
    assert_eq!(decode_command("setResolution", ""), Some(ControlCommand::SetResolution(0, 0)));
    assert_eq!(decode_command("setWidth", ""), Some(ControlCommand::SetWidth(0)));
}

#[test]
fn decode_unknown_names_as_nothing() {
    assert_eq!(decode_command("", "1"), None);
    assert_eq!(decode_command("setwidth", "1"), None);
    assert_eq!(decode_command("setWidthh", "1"), None);
    assert_eq!(decode_command("closed", ""), None);
}

#[test]
fn last_write_wins_among_noise() {
    let pair = |a: &str, b: &str| (a.to_string(), b.to_string());
    let messages = vec![
        pair("setWidth", "100"),
        pair("noop", "7"),
        pair("setFrameRate", "60"),
        pair("setWidth", "wide"),
        pair("setResolution", "320@240"),
        pair("", ""),
        pair("setFrameRate", "15"),
        pair("setHeight", "200"),
    ];
    let commands = decode_all(&messages);
    assert_eq!(
        commands,
        vec![
            ControlCommand::SetWidth(100),
            ControlCommand::SetFrameRate(60),
            ControlCommand::SetWidth(0),
            ControlCommand::SetResolution(320, 240),
            ControlCommand::SetFrameRate(15),
            ControlCommand::SetHeight(200),
        ]
    );
    let mut worker = CaptureWorker::new(None, None, None);
    assert!(!worker.drain(&commands));
    assert_eq!((worker.width, worker.height, worker.frame_rate), (320, 200, 15));
}

#[test]
fn encode_number_writes_decimals() {
    assert_eq!(encode_number(0), "0");
    assert_eq!(encode_number(7), "7");
    assert_eq!(encode_number(10), "10");
    assert_eq!(encode_number(-10), "-10");
    assert_eq!(encode_number(1_234_567_890), "1234567890");
    assert_eq!(encode_number(i32::MAX), "2147483647");
    assert_eq!(encode_number(i32::MIN), "-2147483648");
}

#[test]
fn encode_command_writes_name_and_value() {
    let pair = |a: &str, b: &str| (a.to_string(), b.to_string());
    assert_eq!(encode_command(ControlCommand::SetFrameRate(30)), pair("setFrameRate", "30"));
    assert_eq!(encode_command(ControlCommand::SetResolution(640, -1)), pair("setResolution", "640@-1"));
    assert_eq!(encode_command(ControlCommand::SetWidth(0)), pair("setWidth", "0"));
    assert_eq!(encode_command(ControlCommand::SetHeight(480)), pair("setHeight", "480"));
    assert_eq!(encode_command(ControlCommand::Stop), pair("stop", ""));
}

#[test]
fn every_command_decodes_from_its_encoding() {
    let values = [i32::MIN, -1_000_000, -1, 0, 1, 9, 10, 99, 100, 65_535, i32::MAX];
    for &a in values.iter() {
        for &b in values.iter() {
            for cmd in [
                ControlCommand::SetFrameRate(a),
                ControlCommand::SetResolution(a, b),
                ControlCommand::SetWidth(a),
                ControlCommand::SetHeight(b),
                ControlCommand::Stop,
            ] {
                let (name, value) = encode_command(cmd);
                assert_eq!(decode_command(&name, &value), Some(cmd));
            }
        }
    }
}
