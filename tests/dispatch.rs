use bulb_relay::dispatch::{DeviceAction, Dispatch, BRIGHTNESS_PERCENT};

/// A stand-in for a device connection that records every call it receives.
struct FakeDevice {
    calls: Vec<DeviceAction>,
    fails_on_color: bool,
}

fn fleet(n: usize) -> Vec<FakeDevice> {
    (0..n).map(|_| FakeDevice { calls: Vec::new(), fails_on_color: false }).collect()
}

/// Drives a dispatch over the fake devices, as the application does over real ones.
fn apply_color(devices: &mut [FakeDevice], value: u32) -> (Result<(), usize>, usize) {
    let mut run = Dispatch::new(value, devices.len());
    let mut calls: usize = 0;
    loop {
        let action = run.next_action();
        match action {
            DeviceAction::SetColor { device, .. } => {
                calls += 1;
                devices[device].calls.push(action);
                let ok = !devices[device].fails_on_color;
                run.record(ok);
            }
            DeviceAction::SetBrightness { device, .. } => {
                calls += 1;
                devices[device].calls.push(action);
                run.record(true);
            }
            DeviceAction::Succeeded => return (Ok(()), calls),
            DeviceAction::Failed { device } => return (Err(device), calls),
        }
    }
}

fn color(device: usize, value: u32) -> DeviceAction {
    DeviceAction::SetColor { device, value }
}

fn bright(device: usize) -> DeviceAction {
    DeviceAction::SetBrightness { device, percent: BRIGHTNESS_PERCENT }
}

#[test]
fn second_device_failure_stops_the_run() {
    let mut devices = fleet(3);
    devices[1].fails_on_color = true;
    let (result, calls) = apply_color(&mut devices, 0xFF0000);
    assert_eq!(result, Err(1));
    assert_eq!(calls, 3);
    assert_eq!(devices[0].calls, vec![color(0, 0xFF0000), bright(0)]);
    assert_eq!(devices[1].calls, vec![color(1, 0xFF0000)]);
    assert!(devices[2].calls.is_empty());
}

#[test]
fn empty_fleet_succeeds_without_calls() {
    let mut devices = fleet(0);
    let (result, calls) = apply_color(&mut devices, 0x00FF00);
    assert_eq!(result, Ok(()));
    assert_eq!(calls, 0);
    let run = Dispatch::new(0xFFFFFF, 0);
    assert!(run.is_finished());
    assert_eq!(run.next_action(), DeviceAction::Succeeded);
}

#[test]
fn every_device_gets_color_then_brightness() {
    let mut devices = fleet(3);
    let (result, calls) = apply_color(&mut devices, 0x0000FF);
    assert_eq!(result, Ok(()));
    assert_eq!(calls, 6);
    for (i, d) in devices.iter().enumerate() {
        assert_eq!(d.calls, vec![color(i, 0x0000FF), bright(i)]);
    }
}

#[test]
fn first_device_failure_touches_no_other() {
    let mut devices = fleet(2);
    devices[0].fails_on_color = true;
    let (result, calls) = apply_color(&mut devices, 0xFFFF00);
    assert_eq!(result, Err(0));
    assert_eq!(calls, 1);
    assert!(devices[1].calls.is_empty());
}

#[test]
fn serialized_runs_keep_each_device_pairs_whole() {
    let mut devices = fleet(2);
    let (first, _) = apply_color(&mut devices, 0xFF0000);
    let (second, _) = apply_color(&mut devices, 0x00FFFF);
    assert_eq!(first, Ok(()));
    assert_eq!(second, Ok(()));
    for (i, d) in devices.iter().enumerate() {
        assert_eq!(d.calls, vec![color(i, 0xFF0000), bright(i), color(i, 0x00FFFF), bright(i)]);
    }
}

#[test]
fn brightness_is_fifty_percent() {
    assert_eq!(BRIGHTNESS_PERCENT, 50);
    let mut run = Dispatch::new(0xFFFFFF, 1);
    assert!(!run.is_finished());
    assert_eq!(run.next_action(), color(0, 0xFFFFFF));
    run.record(true);
    assert_eq!(run.next_action(), DeviceAction::SetBrightness { device: 0, percent: 50 });
    run.record(true);
    assert!(run.is_finished());
    assert_eq!(run.next_action(), DeviceAction::Succeeded);
}
