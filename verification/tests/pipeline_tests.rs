use dw_pipeline::consumer_backend::{cache_counter_wire, ConsumerBackend, ConsumerBackendInner};
use dw_pipeline::proxy::handle;
use dw_pipeline::sql::{build_insert_statement, SqlTable};
use dw_pipeline::tailer::{PollOutcome, TailCursor};
use dw_pipeline::{CounterUnit, IpAddress, LogHandler, MetaInfos, MetricsAlarmType};

#[test]
fn tailer_emits_lines_once_in_order() {
    // file content: "a\nbb\n" appended in two pieces; offsets 2 then 5
    let mut c = TailCursor::new();
    assert!(matches!(c.on_poll(2), PollOutcome::Emitted));
    assert_eq!(c.read_offset, 2);
    // no growth yet: stalls
    assert!(matches!(c.on_poll(2), PollOutcome::Stalled));
    assert!(matches!(c.on_poll(2), PollOutcome::Stalled));
    // second line appended
    assert!(matches!(c.on_poll(5), PollOutcome::Emitted));
    assert_eq!(c.read_offset, 5);
    assert_eq!(c.stall_count, 0);
}

#[test]
fn tailer_rotation_rewinds_to_zero() {
    let mut c = TailCursor::new();
    assert!(matches!(c.on_poll(40), PollOutcome::Emitted));
    // four consecutive stalls force an end check
    assert!(matches!(c.on_poll(40), PollOutcome::Stalled));
    assert!(matches!(c.on_poll(40), PollOutcome::Stalled));
    assert!(matches!(c.on_poll(40), PollOutcome::Stalled));
    assert!(matches!(c.on_poll(40), PollOutcome::CheckEnd));
    // the file shrank: rotation detected, reading rewinds
    assert!(c.on_end_check(10));
    assert_eq!(c.read_offset, 0);
    assert_eq!(c.observed_end_offset, 10);
}

#[test]
fn tailer_idle_file_keeps_offset() {
    let mut c = TailCursor::new();
    assert!(matches!(c.on_poll(40), PollOutcome::Emitted));
    assert!(matches!(c.on_poll(40), PollOutcome::Stalled));
    assert!(matches!(c.on_poll(40), PollOutcome::Stalled));
    assert!(matches!(c.on_poll(40), PollOutcome::Stalled));
    assert!(matches!(c.on_poll(40), PollOutcome::CheckEnd));
    assert!(!c.on_end_check(40));
    assert_eq!(c.read_offset, 40);
}

fn counter_record() -> CounterUnit {
    CounterUnit::from_wire(
        r#"{"send_timestamp":"123456","public_ip":"1.2.3.4:9000","category":"xvm","tag":"c","count":1,"value":1}"#,
    )
    .unwrap()
}

#[test]
fn buffer_flushes_over_threshold_regardless_of_time() {
    let mut b: ConsumerBackendInner<CounterUnit> = ConsumerBackendInner::new(1000);
    let mut flushed = 0;
    for _k in 0..1001 {
        // same instant throughout: only the hard threshold can flush
        let rows = b.cache(counter_record(), 1000);
        flushed += rows.len();
    }
    assert_eq!(flushed, 1000);
    // one row stays pending
    let rows = b.try_commit(1000);
    assert_eq!(rows.len(), 0);
}

#[test]
fn buffer_flushes_after_wait_and_empty_never_flushes() {
    let mut b: ConsumerBackendInner<CounterUnit> = ConsumerBackendInner::new(1000);
    let none = b.cache(counter_record(), 1000);
    assert_eq!(none.len(), 0);
    // not yet: only two seconds passed
    assert_eq!(b.try_commit(1002).len(), 0);
    // more than three seconds since the last flush: everything goes
    assert_eq!(b.try_commit(1004).len(), 1);
    // an empty buffer never asks for a storage call, however long it waits
    assert_eq!(b.try_commit(2000).len(), 0);
}

#[test]
fn idle_buffer_is_closed_and_active_one_kept() {
    let mut backend: ConsumerBackend<CounterUnit> = ConsumerBackend::new(
        MetricsAlarmType::Counter,
    );
    let o = backend.cache(String::from("quiet_db"), counter_record(), 1000);
    assert!(o.created);
    // flush the quiet tenant's row so its buffer goes empty at t=1004
    let (flushes, closed) = backend.try_commit_all(1004);
    assert_eq!(flushes.len(), 1);
    assert_eq!(flushes[0].0, "quiet_db");
    assert_eq!(flushes[0].1.len(), 1);
    assert_eq!(closed.len(), 0);
    // a busy tenant appears later
    let o2 = backend.cache(String::from("busy_db"), counter_record(), 1100);
    assert!(o2.created);
    // at t=1125 the quiet tenant has been empty for 121s; the busy one has rows
    let (_flushes2, closed2) = backend.try_commit_all(1125);
    assert_eq!(closed2, vec![String::from("quiet_db")]);
    // the busy tenant survived; caching again creates nothing new
    let o3 = backend.cache(String::from("busy_db"), counter_record(), 1126);
    assert!(!o3.created);
}

#[test]
fn gateway_content_type_and_unknown_kinds() {
    // missing content type
    let r = handle("POST", "/api/alarm", None, "[]", "9.9.9.9");
    assert_eq!(r.status, 422);
    // wrong content type
    let r = handle("POST", "/api/alarm", Some("text/plain"), "[]", "9.9.9.9");
    assert_eq!(r.status, 422);
    // non-JSON body
    let r = handle("POST", "/api/alarm", Some("application/json"), "not json", "9.9.9.9");
    assert_eq!(r.status, 422);
    // an empty array is still a syntactically valid batch
    let r = handle("POST", "/api/alarm", Some("application/json"), "[]", "9.9.9.9");
    assert_eq!(r.status, 200);
    assert_eq!(r.pushes.len(), 0);
    // a well-formed array with one unknown kind: accepted, element dropped
    let body = r#"[{"alarm_type":"gauge","env":"d","content":{}},{"alarm_type":"counter","env":"d","content":{}}]"#;
    let r = handle(
        "POST",
        "/api/alarm",
        Some("Application/JSON; charset=utf-8"),
        body,
        "9.9.9.9",
    );
    assert_eq!(r.status, 200);
    assert_eq!(r.body, "ok");
    assert_eq!(r.pushes.len(), 1);
    assert!(matches!(r.pushes[0].0, MetricsAlarmType::Counter));
    assert_eq!(r.pushes[0].1, r#"{"alarm_type":"counter","env":"d","content":{}}"#);
}

#[test]
fn gateway_routes() {
    let r = handle("GET", "/", None, "", "9.9.9.9");
    assert_eq!(r.status, 200);
    assert_eq!(r.body, "DW Server Proxy");
    let r = handle("GET", "/api/ip", None, "", "9.9.9.9");
    assert_eq!(r.status, 200);
    assert_eq!(r.body, "9.9.9.9");
    let r = handle("GET", "/nowhere", None, "", "9.9.9.9");
    assert_eq!(r.status, 404);
    let r = handle("PUT", "/api/alarm", None, "", "9.9.9.9");
    assert_eq!(r.status, 404);
}

#[test]
fn line_to_stored_row_end_to_end() {
    // one line written to the monitored file, carrying a valid counter payload
    let node = IpAddress::from_str("10.0.0.7:9000").unwrap();
    let meta = MetaInfos::new("127.0.0.1:3000", node, String::from("test_db")).unwrap();
    let handler = LogHandler::new(String::from("/var/log/app.log"), String::from("test_db"), meta);
    let line = String::from(
        r#"[metrics]{"category":"xvm","tag":"c","type":"counter","content":{"count":1,"value":1}}"#,
    );

    // classify: the line becomes one serialized envelope
    let envelope = handler.handler_metrics(line, 1669269373).unwrap();

    // transport: one batch body posted to the gateway
    let body = format!("[{}]", envelope);
    let reply = handle("POST", "/api/alarm", Some("application/json"), &body, "10.0.0.7");
    assert_eq!(reply.status, 200);
    assert_eq!(reply.pushes.len(), 1);
    assert!(matches!(reply.pushes[0].0, MetricsAlarmType::Counter));

    // consumer: the pushed element lands in its tenant's buffer
    let mut backend: ConsumerBackend<CounterUnit> = ConsumerBackend::new(
        MetricsAlarmType::Counter,
    );
    let (tenant, outcome) = cache_counter_wire(&mut backend, &reply.pushes[0].1, 2000).unwrap();
    assert_eq!(tenant, "test_db");
    assert!(outcome.created);

    // storage: the flush after the wait produces exactly one row with the
    // classified values
    let (flushes, _closed) = backend.try_commit_all(2004);
    assert_eq!(flushes.len(), 1);
    assert_eq!(flushes[0].0, "test_db");
    let rows = &flushes[0].1;
    assert_eq!(rows.len(), 1);
    assert_eq!(rows[0].category(), "xvm");
    assert_eq!(rows[0].tag(), "c");
    assert_eq!(rows[0].count(), 1);
    assert_eq!(rows[0].value(), 1);
    let stmt = build_insert_statement(rows).unwrap();
    assert_eq!(
        stmt,
        r#"INSERT INTO metrics_counter ( send_timestamp, public_ip, category, tag, count, value ) VALUES (1669269373,"10.0.0.7:9000","xvm","c",1,1)"#
    );
}

#[test]
fn insert_statement_joins_rows() {
    let rows = vec![counter_record(), counter_record()];
    let stmt = build_insert_statement(&rows).unwrap();
    assert_eq!(
        stmt,
        r#"INSERT INTO metrics_counter ( send_timestamp, public_ip, category, tag, count, value ) VALUES (123456,"1.2.3.4:9000","xvm","c",1,1), (123456,"1.2.3.4:9000","xvm","c",1,1)"#
    );
    let empty: Vec<CounterUnit> = Vec::new();
    assert!(build_insert_statement(&empty).is_none());
    assert!(CounterUnit::new_sql_table_opt().contains("CREATE TABLE metrics_counter"));
}

#[test]
fn gateway_finds_the_kind_anywhere_in_the_element() {
    // alarm_type is not the leading field, and the batch holds whitespace
    let body = r#"[ {"env":"d","content":{},"alarm_type":"counter"} , {"env":"d","alarm_type":"timer","content":{}} ]"#;
    let r = handle("POST", "/api/alarm", Some("application/json"), body, "9.9.9.9");
    assert_eq!(r.status, 200);
    assert_eq!(r.pushes.len(), 2);
    assert!(matches!(r.pushes[0].0, MetricsAlarmType::Counter));
    assert!(matches!(r.pushes[1].0, MetricsAlarmType::Timer));
}
