use blink1_mqtt::{Action, Blink, Color, Command, Event, Machine, Op, plan, RECONNECT_BUDGET};

fn off() -> Color {
    Color { r: 0, g: 0, b: 0 }
}

#[test]
fn plan_of_set_color() {
    let c = Color { r: 9, g: 8, b: 7 };
    let ops = plan(&Command::Color { color: c });
    assert_eq!(ops, vec![Op::Device(c), Op::Status(c)]);
}

#[test]
fn plan_of_blink_two_cycles() {
    let c = Color { r: 1, g: 2, b: 3 };
    let b = Blink { interval_ms: 40, count: 2, color: c };
    let ops = plan(&Command::Blink { blink: b });
    let cycle = vec![
        Op::Device(c),
        Op::Status(c),
        Op::Pause(40),
        Op::Device(off()),
        Op::Status(off()),
        Op::Pause(40),
    ];
    let mut expected = cycle.clone();
    expected.extend(cycle);
    assert_eq!(ops, expected);
}

#[test]
fn plan_of_zero_count_blink_is_empty() {
    let b = Blink { interval_ms: 50, count: 0, color: Color { r: 13, g: 8, b: 247 } };
    assert_eq!(plan(&Command::Blink { blink: b }), Vec::<Op>::new());
}

#[test]
fn zero_count_blink_is_a_noop_for_the_loop() {
    let mut m = Machine::new();
    let b = Blink { interval_ms: 50, count: 0, color: Color { r: 13, g: 8, b: 247 } };
    m.step(Event::Command(Command::Blink { blink: b }));
    assert_eq!(m.next_action(), Action::Wait);
}

#[test]
fn empty_poll_while_connected_is_benign() {
    let mut m = Machine::new();
    m.step(Event::EmptyConnected);
    assert_eq!(m.next_action(), Action::Wait);
}

// Runs the machine until it asks to wait or to stop, performing every action
// in effigy: device writes and publishes are recorded, publishes fail
// whenever `publish_ok` says so, device writes fail whenever `device_ok`
// says so (both are consulted per call, defaulting to success).
fn drive(
    m: &mut Machine,
    device_ok: &[bool],
    publish_ok: &[bool],
) -> (Vec<Color>, Vec<Color>, Vec<u64>, Vec<Action>) {
    let mut device: Vec<Color> = Vec::new();
    let mut status: Vec<Color> = Vec::new();
    let mut sleeps: Vec<u64> = Vec::new();
    let mut actions: Vec<Action> = Vec::new();
    loop {
        let a = m.next_action();
        match a {
            Action::Wait => break,
            Action::Stop { .. } => {
                actions.push(a);
                break;
            }
            Action::SetDevice(c) => {
                actions.push(a);
                device.push(c);
                let ok = device_ok.get(device.len() - 1).copied().unwrap_or(true);
                m.step(if ok { Event::DeviceOk } else { Event::DeviceFailed });
            }
            Action::Publish(c) => {
                actions.push(a);
                status.push(c);
                let ok = publish_ok.get(status.len() - 1).copied().unwrap_or(true);
                m.step(if ok { Event::PublishOk } else { Event::PublishFailed });
            }
            Action::Sleep(ms) => {
                actions.push(a);
                sleeps.push(ms);
                m.step(Event::Slept);
            }
            Action::Reconnect => {
                actions.push(a);
                m.step(Event::ReconnectFailed);
            }
        }
    }
    (device, status, sleeps, actions)
}

#[test]
fn blink_three_cycles_alternates_on_device_and_status() {
    let c = Color { r: 13, g: 8, b: 247 };
    let b = Blink { interval_ms: 50, count: 3, color: c };
    let mut m = Machine::new();
    m.step(Event::Command(Command::Blink { blink: b }));
    // Every other status publish fails; the device must still see it all.
    let (device, status, sleeps, _) = drive(&mut m, &[], &[true, false, true, false, true, false]);
    assert_eq!(device, vec![c, off(), c, off(), c, off()]);
    assert_eq!(status, vec![c, off(), c, off(), c, off()]);
    assert_eq!(sleeps, vec![50, 50, 50, 50, 50, 50]);
    assert_eq!(m.next_action(), Action::Wait);
}

#[test]
fn set_color_drives_device_then_status() {
    let c = Color { r: 127, g: 12, b: 24 };
    let mut m = Machine::new();
    m.step(Event::Command(Command::Color { color: c }));
    let (device, status, sleeps, _) = drive(&mut m, &[], &[]);
    assert_eq!(device, vec![c]);
    assert_eq!(status, vec![c]);
    assert_eq!(sleeps, Vec::<u64>::new());
    assert_eq!(m.next_action(), Action::Wait);
}

#[test]
fn publish_failure_does_not_abort_set_color() {
    let c = Color { r: 4, g: 5, b: 6 };
    let mut m = Machine::new();
    m.step(Event::Command(Command::Color { color: c }));
    let (device, status, _, _) = drive(&mut m, &[], &[false]);
    assert_eq!(device, vec![c]);
    assert_eq!(status, vec![c]);
    assert_eq!(m.next_action(), Action::Wait);
}

#[test]
fn device_failure_aborts_with_one_final_off() {
    let c = Color { r: 10, g: 20, b: 30 };
    let b = Blink { interval_ms: 5, count: 3, color: c };
    let mut m = Machine::new();
    m.step(Event::Command(Command::Blink { blink: b }));
    // The second device write (the first off) is refused.
    let (device, _, _, actions) = drive(&mut m, &[true, false], &[]);
    // After the refusal the device sees exactly one more write: the final
    // neutral cleanup, however many cycles remained.
    assert_eq!(device, vec![c, off(), off()]);
    assert_eq!(actions.last(), Some(&Action::Stop { failed: true }));
}

#[test]
fn device_failure_on_set_color_aborts() {
    let c = Color { r: 1, g: 1, b: 1 };
    let mut m = Machine::new();
    m.step(Event::Command(Command::Color { color: c }));
    let (device, status, _, actions) = drive(&mut m, &[false], &[]);
    assert_eq!(device, vec![c, off()]);
    assert_eq!(status, vec![]);
    assert_eq!(actions.last(), Some(&Action::Stop { failed: true }));
}

#[test]
fn reconnect_exhausts_the_whole_budget() {
    let mut m = Machine::new();
    m.step(Event::EmptyDisconnected);
    let mut attempts = 0;
    while m.next_action() == Action::Reconnect {
        m.step(Event::ReconnectFailed);
        attempts += 1;
        assert!(attempts <= RECONNECT_BUDGET);
    }
    assert_eq!(attempts, RECONNECT_BUDGET);
    assert_eq!(attempts, 12);
    // Exhaustion is a clean shutdown: the final off write, then stop.
    assert_eq!(m.next_action(), Action::SetDevice(off()));
    m.step(Event::DeviceOk);
    assert_eq!(m.next_action(), Action::Stop { failed: false });
}

#[test]
fn reconnect_recovers_on_attempt_five() {
    let mut m = Machine::new();
    m.step(Event::EmptyDisconnected);
    let mut attempts = 0;
    while m.next_action() == Action::Reconnect {
        attempts += 1;
        if attempts == 5 {
            m.step(Event::ReconnectOk);
        } else {
            m.step(Event::ReconnectFailed);
        }
    }
    assert_eq!(attempts, 5);
    assert_eq!(m.next_action(), Action::Wait);
}

#[test]
fn shutdown_finishes_the_current_command_first() {
    let c = Color { r: 2, g: 4, b: 8 };
    let mut m = Machine::new();
    m.step(Event::Command(Command::Color { color: c }));
    assert_eq!(m.next_action(), Action::SetDevice(c));
    m.step(Event::ShutdownRequested);
    // The current command still runs to completion.
    assert_eq!(m.next_action(), Action::SetDevice(c));
    m.step(Event::DeviceOk);
    assert_eq!(m.next_action(), Action::Publish(c));
    m.step(Event::PublishOk);
    // Only then comes the final off write and the clean stop.
    assert_eq!(m.next_action(), Action::SetDevice(off()));
    m.step(Event::DeviceFailed);
    assert_eq!(m.next_action(), Action::Stop { failed: false });
}

#[test]
fn shutdown_while_idle_cleans_up() {
    let mut m = Machine::new();
    m.step(Event::ShutdownRequested);
    assert_eq!(m.next_action(), Action::SetDevice(off()));
    m.step(Event::DeviceOk);
    assert_eq!(m.next_action(), Action::Stop { failed: false });
}
