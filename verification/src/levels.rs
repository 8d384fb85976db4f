//! The calibration table: the activity thresholds of the known capture
//! devices, in whole decibels, and the amplification that evens them out.

use crate::text::{contains, has_substring, same_text};
use vstd::prelude::*;

verus! {

/// The level that every source is amplified towards, in decibels.
pub const TARGET_LEVEL: i64 = -30;

/// The thresholds of a source: first the level at which it becomes active,
/// then the level at which it falls silent. The first entry of the table that
/// fits the source decides; a source that no entry fits gets the last pair.
pub open spec fn levels(source: Seq<char>) -> (int, int) {
    if has_substring(
        source,
        "alsa_input.usb-Logitech_Inc._Logitech_USB_Headset_H340-00.analog-stereo"@,
    ) {
        (-33, -35)
    } else if has_substring(
        source,
        "alsa_input.usb-Logitech_Logitech_USB_Headset-00.analog-mono"@,
    ) {
        (-55, -57)
    } else if source
        == "pulsesrc device=alsa_input.usb-C-Media_Electronics_Inc._Microsoft_LifeChat_LX-3000-00.analog-mono.2"@ {
        (-32, -34)
    } else if has_substring(
        source,
        "alsa_input.usb-C-Media_Electronics_Inc._Microsoft_LifeChat_LX-3000-00.analog-mono"@,
    ) {
        (-54, -56)
    } else if source
        == "pulsesrc device=alsa_input.usb-Microsoft_Microsoft_LifeChat_LX-4000-00.analog-stereo"@ {
        (-40, -45)
    } else if has_substring(
        source,
        "alsa_input.usb-Generic_USB_Ear-Microphone_0000000001-00.analog-stereo"@,
    ) {
        (-50, -52)
    } else {
        (-56, -58)
    }
}

/// The amplification of a source, in decibels: what its activation threshold
/// lacks to the target level.
pub open spec fn amplification(source: Seq<char>) -> int {
    TARGET_LEVEL - levels(source).0
}

/// Looks the thresholds of a source up: the level at which it becomes active,
/// then the lower level at which it falls silent.
pub fn get_levels(source: &String) -> (found: (i64, i64))
    ensures
        (found.0 as int, found.1 as int) == levels(source@),
        found.1 < found.0,
{
    let name = source.as_str();
    if contains(name, "alsa_input.usb-Logitech_Inc._Logitech_USB_Headset_H340-00.analog-stereo") {
        return (-33, -35);
    }
    if contains(name, "alsa_input.usb-Logitech_Logitech_USB_Headset-00.analog-mono") {
        return (-55, -57);
    }
    if same_text(
        name,
        "pulsesrc device=alsa_input.usb-C-Media_Electronics_Inc._Microsoft_LifeChat_LX-3000-00.analog-mono.2",
    ) {
        return (-32, -34);
    }
    if contains(
        name,
        "alsa_input.usb-C-Media_Electronics_Inc._Microsoft_LifeChat_LX-3000-00.analog-mono",
    ) {
        return (-54, -56);
    }
    if same_text(
        name,
        "pulsesrc device=alsa_input.usb-Microsoft_Microsoft_LifeChat_LX-4000-00.analog-stereo",
    ) {
        return (-40, -45);
    }
    if contains(name, "alsa_input.usb-Generic_USB_Ear-Microphone_0000000001-00.analog-stereo") {
        return (-50, -52);
    }
    (-56, -58)
}

/// The amplification that brings the activation threshold of a source to the
/// target level.
pub fn get_amplification(source: &String) -> (amplification: i64)
    ensures
        amplification as int == self::amplification(source@),
        0 < amplification <= 26,
{
    let (s2a, _a2s) = get_levels(source);
    TARGET_LEVEL - s2a
}

} // verus!
