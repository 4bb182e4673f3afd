use uflowmeter::calibration::{
    blank_after, identity_reply, measurement_reply, num, number, parameters_reply, parse,
    reading_reply, respond, Command, Console, Response,
};
use uflowmeter::legal::params::{self, Params, SEALED};
use uflowmeter::legal::totals::Totals;
use uflowmeter::meter::Capture;

#[test]
fn number_reads_decimals() {
    assert_eq!(number(b"W 3 -42", 1), Some((3, 3)));
    assert_eq!(number(b"W 3 -42", 3), Some((-42, 7)));
    assert_eq!(number(b"W   17x", 1), Some((17, 6)));
    assert_eq!(number(b"W 2147483647", 1), Some((i32::MAX, 12)));
}

#[test]
fn number_refuses_nonsense() {
    assert_eq!(number(b"W", 1), None);
    assert_eq!(number(b"W  ", 1), None);
    assert_eq!(number(b"W -", 1), None);
    assert_eq!(number(b"W x", 1), None);
    assert_eq!(number(b"W 2147483648", 1), None);
    assert_eq!(number(b"W -2147483648", 1), None);
    assert_eq!(number(b"W 99999999999", 1), None);
    assert_eq!(number(b"W", 5), None);
}

#[test]
fn set_assigns_by_index() {
    let mut p = Params::default();
    assert!(uflowmeter::calibration::set(&mut p, 0, 4242));
    assert_eq!(p.serial, 4242);
    assert!(uflowmeter::calibration::set(&mut p, 4, -4000));
    assert_eq!(p.calibration_ppm, -4000);
    assert!(uflowmeter::calibration::set(&mut p, 5, 17));
    assert_eq!(p.zero_offset_ps, 17);
    assert!(uflowmeter::calibration::set(&mut p, 7, 70_000));
    assert_eq!(p.burst_threshold, 70_000i32 as i16);
    assert!(uflowmeter::calibration::set(&mut p, 1, -1));
    assert_eq!(p.path_um, u32::MAX);
    let before = p;
    assert!(!uflowmeter::calibration::set(&mut p, 8, 1));
    assert!(!uflowmeter::calibration::set(&mut p, -1, 1));
    assert_eq!(p, before);
}

#[test]
fn num_formats_signed_decimals() {
    assert_eq!(num(0), b"0 ".to_vec());
    assert_eq!(num(7), b"7 ".to_vec());
    assert_eq!(num(-42), b"-42 ".to_vec());
    assert_eq!(num(1_000_000), b"1000000 ".to_vec());
    assert_eq!(num(i32::MAX), b"2147483647 ".to_vec());
    assert_eq!(num(i32::MIN), b"-2147483648 ".to_vec());
}

#[test]
fn parse_commands() {
    assert_eq!(parse(b"I"), Command::Identify);
    assert_eq!(parse(b"P"), Command::Parameters);
    assert_eq!(parse(b"W 4 -4000"), Command::Write(4, -4000));
    assert_eq!(parse(b"W 4"), Command::Malformed);
    assert_eq!(parse(b"W"), Command::Malformed);
    assert_eq!(parse(b"S"), Command::Seal);
    assert_eq!(parse(b"T"), Command::Reading);
    assert_eq!(parse(b"M"), Command::Measure);
    assert_eq!(parse(b"X"), Command::Unknown);
    assert_eq!(parse(b"w 1 5"), Command::Unknown);
}

#[test]
fn write_must_parse_exactly() {
    // A write that cannot be parsed exactly is refused rather than half-applied.
    assert_eq!(parse(b"W 1 60000x"), Command::Malformed);
    assert_eq!(parse(b"W 1 60000 2"), Command::Malformed);
    assert_eq!(parse(b"W 9 5"), Command::Write(9, 5));
    assert_eq!(parse(b"W x"), Command::Malformed);
    assert_eq!(parse(b"W 1"), Command::Malformed);
    assert_eq!(parse(b"W 1x 5"), Command::Malformed);
    assert_eq!(parse(b"W 1 60000   "), Command::Write(1, 60000));
    assert_eq!(parse(b"W1 -5"), Command::Write(1, -5));
}

#[test]
fn blank_after_sees_only_spaces() {
    assert!(blank_after(b"W 1 5", 5));
    assert!(blank_after(b"W 1 5  ", 5));
    assert!(!blank_after(b"W 1 5 x", 5));
    assert!(blank_after(b"W", 9));
}

#[test]
fn malformed_writes_are_answered_err() {
    let live = Params::default();
    let stored = Params::default();
    for line in [&b"W 9 5"[..], b"W x", b"W 1", b"W 1 60000x"] {
        let command = parse(line);
        let answer = respond(&command, &live, &stored, &Totals::default());
        assert!(matches!(answer, Response::Reply(r) if r == b"ERR".to_vec()));
    }
}

#[test]
fn console_assembles_lines() {
    let mut c = Console::new();
    assert_eq!(c.accept(b'\r'), None);
    for &b in b"W 1 5" {
        assert_eq!(c.accept(b), None);
    }
    assert_eq!(c.accept(b'\n'), Some(Command::Write(1, 5)));
    assert_eq!(c.accept(b'\n'), None);
    assert_eq!(c.accept(b'P'), None);
    assert_eq!(c.accept(b'\r'), Some(Command::Parameters));
}

#[test]
fn console_cuts_long_lines() {
    let mut c = Console::new();
    for _ in 0..40 {
        assert_eq!(c.accept(b'I'), None);
    }
    assert_eq!(c.accept(b'\n'), Some(Command::Identify));
}

#[test]
fn replies_format() {
    let p = Params::default();
    assert_eq!(
        parameters_reply(&p),
        b"0 50000 35400 31400 0 0 1000000 400 0 ".to_vec()
    );
    assert_eq!(
        identity_reply(b"1.0", 0x1234_abcd, 14_140),
        b"1.0 4660 43981 14140 ".to_vec()
    );
}

#[test]
fn respond_write_stores_counted_record() {
    let live = Params::default();
    let stored = Params::default();
    match respond(&Command::Write(0, 77), &live, &stored, &Totals::default()) {
        Response::Store { record, reply } => {
            assert_eq!(reply, b"OK".to_vec());
            assert_eq!(record.serial, 77);
            assert_eq!(record.writes, 1);
            assert!(params::valid(&record));
        }
        _ => panic!("expected a store"),
    }
}

#[test]
fn respond_refusals() {
    let live = Params::default();
    let stored = Params::default();
    assert!(matches!(respond(&Command::Write(9, 1), &live, &stored, &Totals::default()), Response::Reply(r) if r == b"ERR".to_vec()));
    assert!(matches!(respond(&Command::Malformed, &live, &stored, &Totals::default()), Response::Reply(r) if r == b"ERR".to_vec()));
    assert!(matches!(respond(&Command::Unknown, &live, &stored, &Totals::default()), Response::Reply(r) if r == b"?".to_vec()));
    assert!(matches!(respond(&Command::Identify, &live, &stored, &Totals::default()), Response::Identify));
    assert!(matches!(respond(&Command::Measure, &live, &stored, &Totals::default()), Response::Measure));
    let sealed = Params { seal: SEALED, ..stored };
    assert!(matches!(respond(&Command::Write(0, 1), &live, &sealed, &Totals::default()), Response::Reply(r) if r == b"SEALED".to_vec()));
    assert!(matches!(respond(&Command::Seal, &live, &sealed, &Totals::default()), Response::Reply(r) if r == b"ERR".to_vec()));
    let worn = Params { writes: u16::MAX, ..stored };
    assert!(matches!(respond(&Command::Write(0, 1), &live, &worn, &Totals::default()), Response::Reply(r) if r == b"EXHAUSTED".to_vec()));
}

#[test]
fn respond_seal() {
    let live = Params { serial: 3, ..Params::default() };
    match respond(&Command::Seal, &live, &Params::default(), &Totals::default()) {
        Response::Sealed { record } => {
            assert!(record.is_calibrated());
            assert_eq!(record.serial, 3);
            assert_eq!(record.writes, 1);
        }
        _ => panic!("expected sealing"),
    }
}

#[test]
fn respond_parameters() {
    let live = Params { writes: 3, ..Params::default() };
    assert!(matches!(respond(&Command::Parameters, &live, &live, &Totals::default()), Response::Reply(r) if r == b"0 50000 35400 31400 0 0 1000000 400 3 ".to_vec()));
}

#[test]
fn respond_reading() {
    let live = Params { writes: 2, ..Params::default() };
    let totals = Totals { litres: 1234, microlitres: 56_789, ..Totals::default() };
    assert!(matches!(respond(&Command::Reading, &live, &live, &totals), Response::Reply(r) if r == b"1234 56789 2 ".to_vec()));
    assert_eq!(reading_reply(&Totals::default(), &Params::default()), b"0 0 0 ".to_vec());
}

#[test]
fn measurement_reports_raw_picoseconds() {
    let echo = Capture::Echo { delta_t_ps: -1234, t_up_ns: 33_000, t_down_ns: 33_000 };
    assert_eq!(measurement_reply(&echo), b"-1234 ".to_vec());
    let zero = Capture::Echo { delta_t_ps: 0, t_up_ns: 0, t_down_ns: 0 };
    assert_eq!(measurement_reply(&zero), b"0 ".to_vec());
    assert_eq!(measurement_reply(&Capture::NoEcho), b"ERR".to_vec());
    assert_eq!(measurement_reply(&Capture::CaptureFailed), b"ERR".to_vec());
    assert_eq!(measurement_reply(&Capture::RestartFailed), b"ERR".to_vec());
}
