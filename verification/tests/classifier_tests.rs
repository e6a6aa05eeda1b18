use dw_pipeline::{CounterUnit, FlowUnit, IpAddress, LogHandler, MetaInfos, TimerUnit};

fn test_meta() -> MetaInfos {
    let node = IpAddress::from_str("127.0.0.1:3000").unwrap();
    MetaInfos::new("127.0.0.1:3000", node, String::from("test_env_name")).unwrap()
}

#[test]
fn metrics_counter_test_metrics_log() {
    let payload =
        r#"{"category":"xvm","tag":"contract_manager_counter","type":"counter","content":{"count":1,"value":1}}"#;

    let meta = test_meta();

    let result = CounterUnit::handle_log(payload, &meta, 1669269373);

    assert_eq!(result.is_some(), true);
}

#[test]
fn metrics_timer_test_metrics_log() {
    let payload =
        r#"{"category":"xcons","tag":"network_message_dispatch","type":"timer","content":{"count":3060,"max_time":93926,"min_time":18,"avg_time":153}}"#;

    let meta = test_meta();

    let result = TimerUnit::handle_log(payload, &meta, 1669269373);

    assert_eq!(result.is_some(), true);
}

#[test]
fn metrics_flow_test_metrics_log() {
    let payload = r#"{"category":"vhost","tag":"handle_data_ready_called","type":"flow","content":{"count":92,"max_flow":10,"min_flow":1,"sum_flow":131,"avg_flow":1,"tps_flow":131,"tps":"1.39"}}"#;

    let meta = test_meta();

    let result = FlowUnit::handle_log(payload, &meta, 1669269373);

    assert_eq!(result.is_some(), true);
}

#[test]
fn classifier_counter_line() {
    let meta = test_meta();
    let handler = LogHandler::new(
        String::from("/tmp/metrics.log"),
        String::from("test_env_name"),
        meta,
    );
    let line = String::from(
        r#"2023-01-02 node7 [metrics]{"category":"xvm","tag":"c","type":"counter","content":{"count":1,"value":1}} trailing"#,
    );
    let out = handler.handler_metrics(line, 1669269373).unwrap();
    let expected = r#"{"alarm_type":"counter","env":"test_env_name","content":{"send_timestamp":"1669269373","public_ip":"127.0.0.1:3000","category":"xvm","tag":"c","count":1,"value":1}}"#;
    assert_eq!(out, expected);
}

#[test]
fn classifier_line_without_marker() {
    let meta = test_meta();
    let handler = LogHandler::new(
        String::from("/tmp/metrics.log"),
        String::from("test_env_name"),
        meta,
    );
    let line = String::from(
        r#"2023-01-02 node7 {"category":"xvm","tag":"c","type":"counter","content":{"count":1,"value":1}}"#,
    );
    assert!(handler.handler_metrics(line, 1669269373).is_none());
}

#[test]
fn classifier_unknown_kind_is_dropped() {
    let meta = test_meta();
    let handler = LogHandler::new(
        String::from("/tmp/metrics.log"),
        String::from("test_env_name"),
        meta,
    );
    let line = String::from(
        r#"[metrics]{"category":"xvm","tag":"c","type":"gauge","content":{"count":1,"value":1}}"#,
    );
    assert!(handler.handler_metrics(line, 1669269373).is_none());
}

#[test]
fn classifier_missing_field_is_dropped() {
    let meta = test_meta();
    let handler = LogHandler::new(
        String::from("/tmp/metrics.log"),
        String::from("test_env_name"),
        meta,
    );
    let line = String::from(
        r#"[metrics]{"category":"xvm","type":"counter","content":{"count":1,"value":1}}"#,
    );
    assert!(handler.handler_metrics(line, 1669269373).is_none());
}

#[test]
fn classifier_accepts_whitespace_between_tokens() {
    let payload = r#"{ "category" : "xvm" , "tag" : "c" , "type" : "counter" , "content" : { "count" : 1 , "value" : 1 } }"#;
    let meta = test_meta();
    let result = CounterUnit::handle_log(payload, &meta, 1669269373);
    assert!(result.is_some());
    let w = result.unwrap();
    assert_eq!(w.content.category(), "xvm");
    assert_eq!(w.content.tag(), "c");
    assert_eq!(w.content.count(), 1);
    assert_eq!(w.content.value(), 1);
}

#[test]
fn classifier_field_order_is_free() {
    let payload = r#"{"content":{"value":2,"count":3},"type":"counter","tag":"t","category":"c"}"#;
    let meta = test_meta();
    let w = CounterUnit::handle_log(payload, &meta, 7).unwrap();
    assert_eq!(w.content.count(), 3);
    assert_eq!(w.content.value(), 2);
}
