use blink1_mqtt::Args;

#[test]
fn default_topics() {
    let args = Args::default();
    assert_eq!(args.command_topic, "werkstatt/blink1/cmnd");
    assert_eq!(args.status_topic, "werkstatt/blink1/status");
}
