//! Viewport and touch emulation applied while a target initializes.

use vstd::prelude::*;
use crate::chain::{CommandChain, CommandEntry};
use crate::strutil::{dec_digits, usize_to_string};
use vstd::string::StringExecFns;

verus! {

/// The viewport overrides applied to a fresh target. The scale factor
/// is carried in hundredths to stay in integers.
#[derive(Debug, Copy, Clone, PartialEq, Eq, Structural)]
pub struct Viewport {
    pub width: u32,
    pub height: u32,
    /// Device scale factor, in hundredths (100 is a factor of one).
    pub device_scale_factor_hundredths: u32,
    pub mobile: bool,
    pub has_touch: bool,
}

impl Default for Viewport {
    /// The default viewport: 800 by 600, scale one, no touch.
    fn default() -> (r: Self)
        ensures
            r == (Viewport {
                width: 800u32,
                height: 600u32,
                device_scale_factor_hundredths: 100u32,
                mobile: false,
                has_touch: false,
            }),
    {
        Viewport {
            width: 800,
            height: 600,
            device_scale_factor_hundredths: 100,
            mobile: false,
            has_touch: false,
        }
    }
}

/// The serialized parameters of the device-metrics override for a
/// viewport.
pub open spec fn device_metrics_params(v: Viewport) -> Seq<char> {
    "{\"width\":"@ + dec_digits(v.width as nat) + ",\"height\":"@ + dec_digits(
        v.height as nat,
    ) + ",\"deviceScaleFactorHundredths\":"@ + dec_digits(
        v.device_scale_factor_hundredths as nat,
    ) + ",\"mobile\":"@ + bool_chars(v.mobile) + "}"@
}

/// The serialized parameters of the touch-emulation toggle.
pub open spec fn touch_params(enabled: bool) -> Seq<char> {
    "{\"enabled\":"@ + bool_chars(enabled) + "}"@
}

pub open spec fn bool_chars(b: bool) -> Seq<char> {
    if b {
        "true"@
    } else {
        "false"@
    }
}

/// Render a bool as its serialized keyword.
pub fn bool_to_string(b: bool) -> (r: String)
    ensures
        r@ == bool_chars(b),
{
    if b {
        "true".to_owned()
    } else {
        "false".to_owned()
    }
}

/// Applies viewport and touch overrides at target initialization.
/// Re-applying equal settings issues the same calls again; the browser
/// tolerates this.
#[derive(Debug)]
pub struct EmulationManager {
    pub viewport: Viewport,
}

impl EmulationManager {
    pub fn new(viewport: Viewport) -> (r: Self)
        ensures
            r.viewport == viewport,
    {
        EmulationManager { viewport }
    }

    /// The calls that apply the emulation overrides, in order.
    pub fn init_commands(&self, now: u64, per_command_timeout: u64) -> (r: CommandChain)
        requires
            now + per_command_timeout * 2 <= u64::MAX,
        ensures
            r.wf(),
            r.acked() == 0,
            r.emitted() == 0,
            !r.timeout_reported(),
            r.deadline() == now + per_command_timeout * 2,
            r.entries().len() == 2,
            r.entries()[0].method@ == "Emulation.setDeviceMetricsOverride"@,
            r.entries()[0].params@ == device_metrics_params(self.viewport),
            r.entries()[1].method@ == "Emulation.setTouchEmulationEnabled"@,
            r.entries()[1].params@ == touch_params(self.viewport.has_touch),
    {
        let mut metrics = "{\"width\":".to_owned();
        metrics.append(usize_to_string(self.viewport.width as usize).as_str());
        metrics.append(",\"height\":");
        metrics.append(usize_to_string(self.viewport.height as usize).as_str());
        metrics.append(",\"deviceScaleFactorHundredths\":");
        metrics.append(usize_to_string(self.viewport.device_scale_factor_hundredths as usize).as_str());
        metrics.append(",\"mobile\":");
        metrics.append(bool_to_string(self.viewport.mobile).as_str());
        metrics.append("}");
        proof {
            assert(metrics@ =~= device_metrics_params(self.viewport));
        }
        let mut touch = "{\"enabled\":".to_owned();
        touch.append(bool_to_string(self.viewport.has_touch).as_str());
        touch.append("}");
        proof {
            assert(touch@ =~= touch_params(self.viewport.has_touch));
        }
        let mut items: Vec<CommandEntry> = Vec::new();
        items.push(CommandEntry::new("Emulation.setDeviceMetricsOverride".to_owned(), metrics));
        items.push(CommandEntry::new("Emulation.setTouchEmulationEnabled".to_owned(), touch));
        CommandChain::new(items, now, per_command_timeout)
    }
}

} // verus!
