use concurrent_queue::ConcurrentQueue;
use dw_pipeline::metainfos::format_env_name;
use dw_pipeline::queue::{build_batch_body, collect_send_batch, should_wait};
use dw_pipeline::{
    ClientError, ClientStatusInfo, IpAddress, LogHandler, MetaInfos, MetricsAlarmType,
    TimeStamp, TypeError,
};

#[test]
fn alarm_type_names_and_keys() {
    assert_eq!(MetricsAlarmType::Counter.as_redis_key(), "counter");
    assert_eq!(MetricsAlarmType::Timer.as_redis_key(), "timer");
    assert_eq!(MetricsAlarmType::Flow.as_redis_key(), "flow");
    assert_eq!(MetricsAlarmType::Invalid.to_string(), "invalid");
    assert!(matches!(MetricsAlarmType::from_str("counter"), Ok(MetricsAlarmType::Counter)));
    assert!(matches!(MetricsAlarmType::from_str("timer"), Ok(MetricsAlarmType::Timer)));
    assert!(matches!(MetricsAlarmType::from_str("flow"), Ok(MetricsAlarmType::Flow)));
    assert!(matches!(
        MetricsAlarmType::from_str("gauge"),
        Err(TypeError::MetricsAlarmTypeInvalid)
    ));
    assert!(matches!(
        MetricsAlarmType::from_str("Counter"),
        Err(TypeError::MetricsAlarmTypeInvalid)
    ));
}

#[test]
fn timestamp_text_forms() {
    let t = TimeStamp::from_str("123456").unwrap();
    assert_eq!(t.data(), 123456);
    assert_eq!(t.to_string(), "123456");
    assert!(matches!(
        TimeStamp::from_str(""),
        Err(TypeError::DeFromStringError(_))
    ));
    assert!(matches!(
        TimeStamp::from_str("12a"),
        Err(TypeError::DeFromStringError(_))
    ));
    assert!(matches!(
        TimeStamp::from_str("4294967296"),
        Err(TypeError::DeFromStringError(_))
    ));
    assert_eq!(TimeStamp::from_str("4294967295").unwrap().data(), u32::MAX);
    assert_eq!(TimeStamp::rand().data(), 123);
}

#[test]
fn ipaddress_text_forms() {
    let a = IpAddress::from_str("123.12.34.21:1024").unwrap();
    assert_eq!(a.to_string(), "123.12.34.21:1024");
    assert!(matches!(
        IpAddress::from_str("123.12.34.21"),
        Err(TypeError::DeFromStringError(_))
    ));
    assert!(matches!(
        IpAddress::from_str("256.1.1.1:80"),
        Err(TypeError::DeFromStringError(_))
    ));
    assert!(matches!(
        IpAddress::from_str("01.1.1.1:80"),
        Err(TypeError::DeFromStringError(_))
    ));
    assert!(matches!(
        IpAddress::from_str("1.2.3.4:"),
        Err(TypeError::DeFromStringError(_))
    ));
    assert!(matches!(
        IpAddress::from_str("1.2.3.4:9x"),
        Err(TypeError::DeFromStringError(_))
    ));
    assert_eq!(IpAddress::rand().to_string(), "11.11.11.11:11");
    assert!(IpAddress::from_parts(String::from("10.0.0.1"), 9000).is_ok());
    assert!(IpAddress::from_parts(String::from("fe80::1"), 9000).is_err());
}

#[test]
fn env_name_formatting() {
    assert_eq!(format_env_name(String::from("prod-db.7")).unwrap(), "prod_db_7");
    assert_eq!(
        format_env_name(String::from("abcdefghijklmnopqrstuvwxyz0123456789abcdefghijklmnopq"))
            .unwrap(),
        "abcdefghijklmnopqrstuvwxy__9abcdefghijklmnopq".replace("__9", "__23456789")
    );
    assert!(matches!(
        format_env_name(String::from("caf\u{00e9}")),
        Err(ClientError::CustomError(_))
    ));
    let exactly_52 = "a".repeat(52);
    assert_eq!(format_env_name(exactly_52.clone()).unwrap(), exactly_52);
    let long = "a".repeat(53);
    let formatted = format_env_name(long).unwrap();
    assert_eq!(formatted.len(), 52);
    assert_eq!(formatted, format!("{}__{}", "a".repeat(25), "a".repeat(25)));
}

#[test]
fn meta_infos_endpoint() {
    let node = IpAddress::from_str("10.0.0.7:9000").unwrap();
    let meta = MetaInfos::new("127.0.0.1:3000", node, String::from("d")).unwrap();
    assert_eq!(meta.alarm_api(), "http://127.0.0.1:3000/api/alarm");
    let node2 = IpAddress::from_str("10.0.0.7:9000").unwrap();
    assert!(matches!(
        MetaInfos::new("not-an-address", node2, String::from("d")),
        Err(TypeError::DeFromStringError(_))
    ));
}

#[test]
fn status_counters() {
    let node = IpAddress::from_str("10.0.0.7:9000").unwrap();
    let meta = MetaInfos::new("127.0.0.1:3000", node, String::from("d")).unwrap();
    let mut st = ClientStatusInfo::new(String::from("/var/log/app.log"), meta, 1000);
    st.update_file_info_current(10);
    st.update_file_info_end(20);
    st.update_file_info_line_cnt(3);
    st.update_file_info_line_cnt(2);
    st.log_queue_current(4);
    st.send_queue_current(5);
    st.net_queue_count(true);
    st.net_queue_count(false);
    assert_eq!(st.current_read_pos, 10);
    assert_eq!(st.file_end_pos, 20);
    assert_eq!(st.total_scan_line, 5);
    assert_eq!(st.log_queue_current, 4);
    assert_eq!(st.send_queue_current, 5);
    assert_eq!(st.send_count, 2);
    assert_eq!(st.success_count, 1);
}

#[test]
fn classify_burst_moves_lines_through_queues() {
    let node = IpAddress::from_str("10.0.0.7:9000").unwrap();
    let meta = MetaInfos::new("127.0.0.1:3000", node, String::from("test_db")).unwrap();
    let handler = LogHandler::new(String::from("/var/log/app.log"), String::from("test_db"), meta);
    let raw: ConcurrentQueue<String> = ConcurrentQueue::unbounded();
    let out: ConcurrentQueue<String> = ConcurrentQueue::unbounded();
    raw.push(String::from(
        r#"[metrics]{"category":"xvm","tag":"c","type":"counter","content":{"count":1,"value":1}}"#,
    ))
    .unwrap();
    raw.push(String::from("noise without a marker")).unwrap();
    let taken = handler.classify_burst(&raw, &out, 77).unwrap();
    assert_eq!(taken, 2);
    assert_eq!(raw.len(), 0);
    assert_eq!(out.len(), 1);
    let envelope = out.pop().unwrap();
    assert_eq!(
        envelope,
        r#"{"alarm_type":"counter","env":"test_db","content":{"send_timestamp":"77","public_ip":"10.0.0.7:9000","category":"xvm","tag":"c","count":1,"value":1}}"#
    );
}

#[test]
fn send_batch_joins_envelopes() {
    let out: ConcurrentQueue<String> = ConcurrentQueue::unbounded();
    out.push(String::from("{\"a\":1}")).unwrap();
    out.push(String::from("{\"b\":2}")).unwrap();
    let (items, body) = collect_send_batch(&out).unwrap();
    assert_eq!(items.len(), 2);
    assert_eq!(body.unwrap(), "[{\"a\":1},{\"b\":2}]");
    let (items, body) = collect_send_batch(&out).unwrap();
    assert_eq!(items.len(), 0);
    assert!(body.is_none());
    let one = vec![String::from("x")];
    assert_eq!(build_batch_body(&one), "[x]");
    assert!(should_wait(9, 9));
    assert!(!should_wait(10, 9));
    assert!(!should_wait(9, 10));
}

#[test]
fn closed_queues_are_fatal() {
    let node = IpAddress::from_str("10.0.0.7:9000").unwrap();
    let meta = MetaInfos::new("127.0.0.1:3000", node, String::from("d")).unwrap();
    let handler = LogHandler::new(String::from("/var/log/app.log"), String::from("d"), meta);
    let raw: ConcurrentQueue<String> = ConcurrentQueue::unbounded();
    let out: ConcurrentQueue<String> = ConcurrentQueue::unbounded();
    raw.push(String::from("x")).unwrap();
    raw.close();
    // a closed queue still hands out its items; the burst finishes
    assert_eq!(handler.classify_burst(&raw, &out, 1).unwrap(), 1);
    // the next cycle's first pop reports the terminal state
    assert!(matches!(
        handler.classify_burst(&raw, &out, 1),
        Err(ClientError::QueueError(_))
    ));
    out.close();
    assert!(matches!(
        collect_send_batch(&out),
        Err(ClientError::QueueError(_))
    ));
}
