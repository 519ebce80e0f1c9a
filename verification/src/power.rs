//! Decisions behind the power-button listener and the power-cut tool:
//! how long a button pulse maps to an action, which configured script
//! serves an action, and which bus bytes a power command calls for.
//! The GPIO and I2C traffic itself stays with the caller.

use crate::config::{ArgonConfigRKYV, PowerScript};
use vstd::prelude::*;
use vstd::string::StringExecFns;

verus! {

/// The bus address of the board's microcontroller.
pub const DEVICE_ADDRESS: u16 = 0x1a;

/// The byte that stops the fan.
pub const TURN_OFF_FAN: u8 = 0x00;

/// The byte that cuts the board's power.
pub const CUT_POWER_BYTE: u8 = 0xff;

/// What a button pulse asks for.
#[derive(Clone, Copy, PartialEq, Eq, Structural, Debug)]
pub enum PowerOptions {
    Shutdown,
    Reboot,
}

/// Maps the length of a button pulse, in 10 ms steps, to the action it
/// requests: a short pulse reboots, a longer one shuts down (the two
/// longest bands both shut down, one of them marking the forced
/// variant), and anything else is ignored so the listener keeps
/// waiting.
pub fn classify_pulse(pulse_time: u16) -> (r: Option<PowerOptions>)
    ensures
        r == (if 2 <= pulse_time <= 3 {
            Option::Some(PowerOptions::Reboot)
        } else if 4 <= pulse_time <= 7 {
            Option::Some(PowerOptions::Shutdown)
        } else {
            Option::<PowerOptions>::None
        }),
{
    if pulse_time >= 2 && pulse_time <= 3 {
        Option::Some(PowerOptions::Reboot)
    } else if pulse_time >= 4 && pulse_time <= 7 {
        Option::Some(PowerOptions::Shutdown)
    } else {
        Option::None
    }
}

/// The configured script that serves an action: the shutdown script
/// for a shutdown, the reboot script for a reboot.
pub fn select_power_script<'a>(config: &'a ArgonConfigRKYV, option: PowerOptions) -> (r:
    &'a Option<PowerScript>)
    ensures
        option is Shutdown ==> r == &config.shutdown_script,
        option is Reboot ==> r == &config.reboot_script,
{
    match option {
        PowerOptions::Shutdown => &config.shutdown_script,
        PowerOptions::Reboot => &config.reboot_script,
    }
}

/// Whether a power-cut command-line argument asks for the power to be
/// cut after the fan is stopped: only `halt` and `poweroff` do;
/// `reboot` and `kexec` leave the power on.
pub fn should_cut_power(arg: &String) -> (r: bool)
    ensures
        r <==> (arg@ == "halt"@ || arg@ == "poweroff"@),
{
    *arg == String::from_str("halt") || *arg == String::from_str("poweroff")
}

} // verus!
