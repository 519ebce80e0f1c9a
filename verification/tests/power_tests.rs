use argon_config::power::{
    classify_pulse, select_power_script, should_cut_power, PowerOptions, CUT_POWER_BYTE,
    TURN_OFF_FAN,
};
use argon_config::{ArgonConfigRKYV, PowerScript};

#[test]
fn pulse_bands_map_to_actions() {
    assert_eq!(classify_pulse(0), None);
    assert_eq!(classify_pulse(1), None);
    assert_eq!(classify_pulse(2), Some(PowerOptions::Reboot));
    assert_eq!(classify_pulse(3), Some(PowerOptions::Reboot));
    assert_eq!(classify_pulse(4), Some(PowerOptions::Shutdown));
    assert_eq!(classify_pulse(5), Some(PowerOptions::Shutdown));
    assert_eq!(classify_pulse(6), Some(PowerOptions::Shutdown));
    assert_eq!(classify_pulse(7), Some(PowerOptions::Shutdown));
    assert_eq!(classify_pulse(8), None);
    assert_eq!(classify_pulse(1000), None);
}

#[test]
fn action_selects_its_script() {
    let mut doc = ArgonConfigRKYV::default();
    doc.shutdown_script = Some(PowerScript {
        location: "/opt/off".to_string(),
        args: vec![],
    });
    doc.reboot_script = Some(PowerScript {
        location: "/opt/again".to_string(),
        args: vec!["now".to_string()],
    });
    let shutdown = select_power_script(&doc, PowerOptions::Shutdown);
    assert_eq!(shutdown.as_ref().unwrap().location, "/opt/off");
    let reboot = select_power_script(&doc, PowerOptions::Reboot);
    assert_eq!(reboot.as_ref().unwrap().location, "/opt/again");
}

#[test]
fn only_halt_and_poweroff_cut_power() {
    assert!(should_cut_power(&"halt".to_string()));
    assert!(should_cut_power(&"poweroff".to_string()));
    assert!(!should_cut_power(&"reboot".to_string()));
    assert!(!should_cut_power(&"kexec".to_string()));
    assert!(!should_cut_power(&"".to_string()));
}

#[test]
fn duplicating_a_script_copies_every_field() {
    let script = PowerScript {
        location: "/opt/off".to_string(),
        args: vec!["-h".to_string(), "now".to_string()],
    };
    let copy = script.duplicate();
    assert_eq!(copy, script);
}

#[test]
fn bus_bytes_are_the_documented_ones() {
    assert_eq!(TURN_OFF_FAN, 0x00);
    assert_eq!(CUT_POWER_BYTE, 0xff);
}
