use heartbeats_simple::logfmt::{
    fmt_rate, fmt_u64, parse_rate, parse_u64, parse_record, render_header, render_record,
    split_line,
};
use heartbeats_simple::record::{Capabilities, Rate};
use heartbeats_simple::simple::{HeartbeatSimple, NoCallback};

fn nl_count(s: &[u8]) -> usize {
    s.iter().filter(|b| **b == 10).count()
}

fn columns(line: &[u8]) -> usize {
    assert_eq!(*line.last().unwrap(), 10);
    split_line(&line[..line.len() - 1]).len()
}

#[test]
fn fmt_and_parse_u64() {
    assert_eq!(fmt_u64(0), b"0".to_vec());
    assert_eq!(fmt_u64(10), b"10".to_vec());
    assert_eq!(fmt_u64(18446744073709551615), b"18446744073709551615".to_vec());
    assert_eq!(parse_u64(b"0"), Some(0));
    assert_eq!(parse_u64(b"907"), Some(907));
    assert_eq!(parse_u64(b"18446744073709551615"), Some(u64::MAX));
    assert_eq!(parse_u64(b""), None);
    assert_eq!(parse_u64(b"007"), None);
    assert_eq!(parse_u64(b"12a"), None);
    assert_eq!(parse_u64(b"18446744073709551616"), None);
}

#[test]
fn fmt_and_parse_rate() {
    assert_eq!(fmt_rate(&Rate { amount: 3, time: 2 }), b"3/2".to_vec());
    assert_eq!(parse_rate(b"3/2"), Some(Rate { amount: 3, time: 2 }));
    assert_eq!(parse_rate(b"5/0"), Some(Rate { amount: 5, time: 0 }));
    assert_eq!(parse_rate(b"32"), None);
    assert_eq!(parse_rate(b"3/2/1"), None);
    assert_eq!(parse_rate(b"/2"), None);
}

// One base-capability record renders to exactly the expected line.
#[test]
fn exact_record_line() {
    let mut hb: HeartbeatSimple<NoCallback> =
        HeartbeatSimple::new(3, Capabilities::base(), None).unwrap();
    hb.heartbeat(7, 3, 10, 12);
    let rec = hb.hb.last_record();
    let line = render_record(&rec, &Capabilities::base());
    assert_eq!(line, b"0 7 3 10 12 3/2 3/2 3/2\n".to_vec());
}

// The header of each capability set names one field per record column.
#[test]
fn header_matches_columns() {
    let all = [
        Capabilities::base(),
        Capabilities::with_accuracy(),
        Capabilities::with_power(),
        Capabilities::with_power_and_accuracy(),
    ];
    let expected = [8usize, 12, 13, 17];
    for (caps, cols) in all.iter().zip(expected.iter()) {
        let header = render_header(caps);
        assert_eq!(nl_count(&header), 1);
        assert_eq!(columns(&header), *cols);
        let mut hb: HeartbeatSimple<NoCallback> = HeartbeatSimple::new(2, *caps, None).unwrap();
        hb.heartbeat(1, 2, 3, 4);
        let line = render_record(&hb.hb.last_record(), caps);
        assert_eq!(columns(&line), *cols);
    }
}

#[test]
fn exact_header_line() {
    let header = render_header(&Capabilities::with_power());
    assert_eq!(
        header,
        b"HB Tag Work Start_Time End_Time Global_Perf Window_Perf Instant_Perf \
          Start_Energy End_Energy Global_Pwr Window_Pwr Instant_Pwr\n"
            .to_vec()
    );
}

// Round trip: a written record line parses back to the record, bit for
// bit with both capabilities, and to the rendered fields otherwise.
#[test]
fn record_round_trip() {
    let caps = Capabilities::with_power_and_accuracy();
    let mut hb: HeartbeatSimple<NoCallback> = HeartbeatSimple::new(4, caps, None).unwrap();
    hb.heartbeat_acc_pow(11, 5, 100, 107, 9, 40, 46);
    hb.heartbeat_acc_pow(12, 6, 107, 115, 8, 46, 53);
    let rec = hb.hb.last_record();
    let line = render_record(&rec, &caps);
    assert_eq!(parse_record(&line, &caps), Some(rec));

    let base = Capabilities::base();
    let bline = render_record(&rec, &base);
    let back = parse_record(&bline, &base).unwrap();
    assert_eq!(back.id, rec.id);
    assert_eq!(back.user_tag, rec.user_tag);
    assert_eq!(back.work, rec.work);
    assert_eq!(back.start_time, rec.start_time);
    assert_eq!(back.end_time, rec.end_time);
    assert_eq!(back.perf, rec.perf);
    assert_eq!(back.start_energy, 0);
    assert_eq!(back.accuracy, 0);
}

#[test]
fn parse_record_rejects() {
    let caps = Capabilities::base();
    let mut hb: HeartbeatSimple<NoCallback> = HeartbeatSimple::new(2, caps, None).unwrap();
    hb.heartbeat(1, 2, 3, 4);
    let line = render_record(&hb.hb.last_record(), &caps);
    // wrong capability set: column count differs
    assert_eq!(parse_record(&line, &Capabilities::with_power()), None);
    // missing terminator
    assert_eq!(parse_record(&line[..line.len() - 1], &caps), None);
    assert_eq!(parse_record(b"", &caps), None);
    assert_eq!(parse_record(b"junk\n", &caps), None);
}

// The window log holds one line per valid record, plus one for the
// header when asked for; after a wrap the window is empty again.
#[test]
fn window_log_line_count() {
    let caps = Capabilities::base();
    let mut hb: HeartbeatSimple<NoCallback> = HeartbeatSimple::new(4, caps, None).unwrap();
    hb.heartbeat(0, 1, 0, 1);
    hb.heartbeat(1, 1, 1, 2);
    hb.heartbeat(2, 1, 2, 3);
    let log = hb.log_window_buffer(true);
    assert_eq!(nl_count(&log), 4);
    let bare = hb.log_window_buffer(false);
    assert_eq!(nl_count(&bare), 3);
    hb.heartbeat(3, 1, 3, 4);
    assert_eq!(nl_count(&hb.log_window_buffer(true)), 1);
    // every data line parses back to a record with the right id
    let text = hb.log_window_buffer(false);
    assert_eq!(text.len(), 0);
}

// Each data line of a multi-record window parses back to its record.
#[test]
fn window_lines_parse() {
    let caps = Capabilities::with_power();
    let mut hb: HeartbeatSimple<NoCallback> = HeartbeatSimple::new(8, caps, None).unwrap();
    for k in 0..5u64 {
        hb.heartbeat_pow(k, k + 1, 10 * k, 10 * (k + 1), 2 * k, 2 * (k + 1));
    }
    let text = hb.log_window_buffer(false);
    let lines: Vec<&[u8]> = text.split_inclusive(|b| *b == 10).collect();
    assert_eq!(lines.len(), 5);
    for (k, line) in lines.iter().enumerate() {
        let rec = parse_record(line, &caps).unwrap();
        assert_eq!(rec.id, k as u64);
        assert_eq!(rec.work, k as u64 + 1);
    }
}
