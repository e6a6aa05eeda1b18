use dw_pipeline::{AlarmWrapper, CounterUnit, FlowUnit, MetricsAlarmType, TimerUnit};

#[test]
fn metrics_counter_test_metrics_json() {
    let counter_unit_str = r#"{"send_timestamp":"123456","public_ip":"123.12.34.21:1024","category":"some_cat","tag":"some_tag","count":10,"value":100}"#;

    let counter_unit = CounterUnit::from_wire(counter_unit_str).unwrap();

    let serialized = counter_unit.to_wire();

    assert_eq!(serialized, counter_unit_str);
}

#[test]
fn metrics_timer_test_metrics_json() {
    let timer_unit_str = r#"{"send_timestamp":"123456","public_ip":"123.12.34.21:1024","category":"some_cat","tag":"some_tag","count":10,"max_time":100,"min_time":100,"avg_time":100}"#;

    let timer_unit = TimerUnit::from_wire(timer_unit_str).unwrap();

    let serialized = timer_unit.to_wire();

    assert_eq!(serialized, timer_unit_str);
}

#[test]
fn metrics_flow_test_metrics_json() {
    let flow_unit_str = r#"{"send_timestamp":"123456","public_ip":"123.12.34.21:1024","category":"some_cat","tag":"some_tag","count":10,"max_flow":1000,"min_flow":10,"sum_flow":1001123,"avg_flow":133,"tps_flow":1093,"tps":100.212}"#;

    let flow_unit = FlowUnit::from_wire(flow_unit_str).unwrap();

    let serialized = flow_unit.to_wire();

    assert_eq!(serialized, flow_unit_str);
}

#[test]
fn envelope_round_trip_each_kind() {
    let c = r#"{"alarm_type":"counter","env":"test_db","content":{"send_timestamp":"1669269373","public_ip":"127.0.0.1:9000","category":"xvm","tag":"contract_manager_counter","count":1,"value":1}}"#;
    let w = AlarmWrapper::<CounterUnit>::from_wire(c).unwrap();
    assert!(matches!(w.alarm_type, MetricsAlarmType::Counter));
    assert_eq!(w.env, "test_db");
    assert_eq!(w.to_wire(), c);

    let t = r#"{"alarm_type":"timer","env":"test_db","content":{"send_timestamp":"1669269373","public_ip":"127.0.0.1:9000","category":"xcons","tag":"network_message_dispatch","count":3060,"max_time":93926,"min_time":18,"avg_time":153}}"#;
    let w = AlarmWrapper::<TimerUnit>::from_wire(t).unwrap();
    assert!(matches!(w.alarm_type, MetricsAlarmType::Timer));
    assert_eq!(w.to_wire(), t);

    let f = r#"{"alarm_type":"flow","env":"test_db","content":{"send_timestamp":"1669269373","public_ip":"127.0.0.1:9000","category":"vhost","tag":"handle_data_ready_called","count":1983,"max_flow":10,"min_flow":1,"sum_flow":2463,"avg_flow":1,"tps_flow":1620,"tps":8.99}}"#;
    let w = AlarmWrapper::<FlowUnit>::from_wire(f).unwrap();
    assert!(matches!(w.alarm_type, MetricsAlarmType::Flow));
    assert_eq!(w.to_wire(), f);
}

#[test]
fn negative_numbers_round_trip() {
    let f = r#"{"send_timestamp":"1","public_ip":"10.0.0.1:1","category":"c","tag":"t","count":0,"max_flow":-5,"min_flow":-9223372036854775808,"sum_flow":9223372036854775807,"avg_flow":0,"tps_flow":-1,"tps":-0.5}"#;
    let u = FlowUnit::from_wire(f).unwrap();
    assert_eq!(u.max_flow(), -5);
    assert_eq!(u.min_flow(), i64::MIN);
    assert_eq!(u.sum_flow(), i64::MAX);
    assert_eq!(u.to_wire(), f);
}

#[test]
fn malformed_wire_is_rejected() {
    assert!(CounterUnit::from_wire("").is_none());
    assert!(CounterUnit::from_wire("{}").is_none());
    // bad address: octet out of range
    assert!(CounterUnit::from_wire(
        r#"{"send_timestamp":"123456","public_ip":"123.456.43.21:1024","category":"c","tag":"t","count":10,"value":100}"#
    ).is_none());
    // timestamp too large for 32 bits
    assert!(CounterUnit::from_wire(
        r#"{"send_timestamp":"4294967296","public_ip":"1.2.3.4:1","category":"c","tag":"t","count":10,"value":100}"#
    ).is_none());
    // trailing garbage
    assert!(CounterUnit::from_wire(
        r#"{"send_timestamp":"123456","public_ip":"1.2.3.4:1","category":"c","tag":"t","count":10,"value":100}x"#
    ).is_none());
}
