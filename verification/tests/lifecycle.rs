use network_analyzer::aggregator::SendError;
use network_analyzer::analyzer::{Analyzer, ReportWriter};
use network_analyzer::flow_table::FlowRecord;
use network_analyzer::packet::{FlowKey, ParsedPacket, Protocol};

fn packet(size: u64, ts: i64) -> ParsedPacket {
    ParsedPacket {
        timestamp: ts,
        source_ip: "10.0.0.1".to_string(),
        destination_ip: "10.0.0.2".to_string(),
        source_port: Some(1000),
        destination_port: Some(53),
        protocol: Protocol::Udp,
        size,
    }
}

fn the_key() -> FlowKey {
    FlowKey {
        source_ip: "10.0.0.1".to_string(),
        destination_ip: "10.0.0.2".to_string(),
        source_port: Some(1000),
        destination_port: Some(53),
        protocol: Protocol::Udp,
    }
}

#[test]
fn pause_twice_equals_pause_once() {
    let mut w1 = ReportWriter::new("r".to_string(), 5);
    w1.pause();
    let empty: Vec<(FlowKey, FlowRecord)> = Vec::new();
    let once = w1.on_tick(&empty);
    let mut w2 = ReportWriter::new("r".to_string(), 5);
    w2.pause();
    w2.pause();
    let twice = w2.on_tick(&empty);
    assert!(once.is_none());
    assert!(twice.is_none());
}

#[test]
fn resume_twice_equals_resume_once() {
    let empty: Vec<(FlowKey, FlowRecord)> = Vec::new();
    let mut w1 = ReportWriter::new("r".to_string(), 5);
    w1.pause();
    w1.resume();
    let mut w2 = ReportWriter::new("r".to_string(), 5);
    w2.pause();
    w2.resume();
    w2.resume();
    let once = w1.on_tick(&empty);
    let twice = w2.on_tick(&empty);
    assert_eq!(once.is_some(), true);
    assert_eq!(twice.is_some(), true);
    assert_eq!(once.unwrap(), twice.unwrap());
}

#[test]
fn exit_is_terminal_for_pause_and_resume() {
    let empty: Vec<(FlowKey, FlowRecord)> = Vec::new();
    let mut w = ReportWriter::new("r".to_string(), 5);
    w.exit();
    assert!(w.on_tick(&empty).is_none());
    w.pause();
    assert!(w.on_tick(&empty).is_none());
    w.resume();
    assert!(w.on_tick(&empty).is_none());
}

#[test]
fn running_tick_writes_paused_tick_skips() {
    let empty: Vec<(FlowKey, FlowRecord)> = Vec::new();
    let mut w = ReportWriter::new("r".to_string(), 5);
    assert!(w.on_tick(&empty).is_some());
    w.pause();
    assert!(w.on_tick(&empty).is_none());
    w.resume();
    assert!(w.on_tick(&empty).is_some());
}

#[test]
fn paused_session_keeps_aggregating_and_skips_writes() {
    let mut a = Analyzer::new("dev0", "paused_session", 5);
    a.pause();
    assert!(!a.intake_running);
    a.aggregator.send(packet(40, 100)).unwrap();
    a.aggregator.send(packet(60, 200)).unwrap();
    a.aggregator.drain();

    let first_tick = a.report_writer.on_tick(&a.aggregator.get_aggregated_data().snapshot());
    let second_tick = a.report_writer.on_tick(&a.aggregator.get_aggregated_data().snapshot());
    assert!(first_tick.is_none());
    assert!(second_tick.is_none());

    a.resume();
    assert!(a.intake_running);
    let after_resume = a
        .report_writer
        .on_tick(&a.aggregator.get_aggregated_data().snapshot())
        .unwrap();
    assert!(after_resume.contains("100"));
    let rec = a.aggregator.get_aggregated_data().get(&the_key()).unwrap();
    assert_eq!(rec.total_bytes, 100);
    assert_eq!(rec.first_seen, 100);
    assert_eq!(rec.last_seen, 200);
}

#[test]
fn analyzer_exit_drains_and_closes() {
    let mut a = Analyzer::new("dev0", "exit_session", 5);
    a.aggregator.send(packet(11, 1)).unwrap();
    a.aggregator.send(packet(22, 2)).unwrap();
    a.exit();
    assert!(!a.intake_running);
    let rec = a.aggregator.get_aggregated_data().get(&the_key()).unwrap();
    assert_eq!(rec.total_bytes, 33);
    assert_eq!(rec.first_seen, 1);
    assert_eq!(rec.last_seen, 2);
    assert_eq!(a.aggregator.send(packet(5, 3)), Err(SendError::QueueClosed));
    let tick = a.report_writer.on_tick(&a.aggregator.get_aggregated_data().snapshot());
    assert!(tick.is_none());
}

#[test]
fn analyzer_new_starts_running() {
    let a = Analyzer::new("eth0", "fresh", 7);
    assert!(a.intake_running);
    let tick = a.report_writer.on_tick(&a.aggregator.get_aggregated_data().snapshot());
    assert!(tick.is_some());
}

#[test]
fn getters_reflect_construction_and_state() {
    let mut w = ReportWriter::new("name42".to_string(), 9);
    assert_eq!(w.tick_interval(), 9);
    assert_eq!(w.current_name(), "name42");
    assert!(w.is_writing());
    assert!(!w.is_exited());
    w.pause();
    assert!(!w.is_writing());
    assert!(!w.is_exited());
    w.exit();
    assert!(w.is_exited());
    assert!(!w.is_writing());
}
