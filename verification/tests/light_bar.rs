use moza_rev::led::{led_bar, rpm_to_bitmask, status_line};
use moza_rev::listeners::{EngineState, GameId};

fn engine(rpm: i32) -> EngineState {
    EngineState {
        rpm,
        rpm_redline: 6500,
        rpm_idle: 800,
    }
}

#[test]
fn below_idle_lights_nothing() {
    assert_eq!(rpm_to_bitmask(&engine(500), 10), 0);
}

#[test]
fn at_redline_lights_everything() {
    assert_eq!(rpm_to_bitmask(&engine(6500), 10), 0x3FF);
}

#[test]
fn above_redline_clamps() {
    assert_eq!(rpm_to_bitmask(&engine(9000), 10), 0x3FF);
}

#[test]
fn midband_lights_half() {
    // (3650 - 800) / (6500 - 800) = 0.5 -> 5 of 10 LEDs
    assert_eq!(rpm_to_bitmask(&engine(3650), 10), 0x1F);
}

#[test]
fn unset_engine_data_is_safe() {
    let zero = EngineState {
        rpm: 0,
        rpm_redline: 0,
        rpm_idle: 0,
    };
    assert_eq!(rpm_to_bitmask(&zero, 10), 0);
}

fn float_bitmask(e: &EngineState, led_count: usize) -> u32 {
    if e.rpm_redline <= e.rpm_idle || led_count == 0 {
        return 0;
    }
    let span = (e.rpm_redline - e.rpm_idle) as f32;
    let above = (e.rpm - e.rpm_idle).max(0) as f32;
    let lit = ((above / span).clamp(0.0, 1.0) * led_count as f32).round() as usize;
    let lit = lit.min(led_count);
    if lit == 0 {
        0
    } else if lit >= 32 {
        u32::MAX
    } else {
        (1u32 << lit) - 1
    }
}

#[test]
fn agrees_with_the_machines_own_floating_point() {
    for count in [1usize, 7, 10, 18, 31, 32, 40, 1000] {
        for redline in [801, 803, 6500, 7001, 18000, 16_777_217, 2_000_000_000] {
            for step in 0..200 {
                let rpm = ((redline as i64) * step / 150) as i32;
                let e = EngineState {
                    rpm,
                    rpm_redline: redline,
                    rpm_idle: 800,
                };
                assert_eq!(rpm_to_bitmask(&e, count), float_bitmask(&e, count), "{rpm} {redline} {count}");
            }
        }
    }
}

#[test]
fn no_lights_on_a_wheel_without_lights() {
    assert_eq!(rpm_to_bitmask(&engine(6500), 0), 0);
}

#[test]
fn many_lights_fill_the_mask() {
    assert_eq!(rpm_to_bitmask(&engine(6500), 32), u32::MAX);
    assert_eq!(rpm_to_bitmask(&engine(6500), 40), u32::MAX);
    assert_eq!(rpm_to_bitmask(&engine(6500), 31), 0x7FFF_FFFF);
}

#[test]
fn a_faster_engine_turns_no_light_off() {
    let mut last = 0u32;
    for rpm in 0..8000 {
        let mask = rpm_to_bitmask(&engine(rpm), 10);
        assert_eq!(mask & last, last);
        last = mask;
    }
}

#[test]
fn bar_shows_the_lowest_light_first() {
    assert_eq!(led_bar(0b0101, 5), "●○●○○");
    assert_eq!(led_bar(0, 0), "");
    assert_eq!(led_bar(u32::MAX, 32), "●".repeat(32));
}

#[test]
fn status_line_is_aligned() {
    let line = status_line(GameId::BeamNG, &engine(3650), 0x1F, 10, 3, false);
    assert_eq!(line, "[BNG] rpm  3650 /  6500  idle  800  [●●●●●○○○○○]  3 pkt\n");
    let line = status_line(GameId::AssettoCorsa, &engine(-12), 0, 2, 40, true);
    assert_eq!(line, "\r[AC] rpm   -12 /  6500  idle  800  [○○]  40 pkt    ");
}
