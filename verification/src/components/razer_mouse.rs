//! The mouse battery component: renders the device telemetry.

use vstd::prelude::*;

use crate::components::iconbutton::IconButtonInput;
use crate::config::{icon_view, Icon};
use crate::util::{dec_string_of, dim_span, pad_with_dim_leading_zeros, repeat_char,
    u32_to_decimal};

verus! {

/// The mouse component's state: the icons it alternates between.
pub struct RazerMouseModel {
    pub icon: Icon,
    pub icon_charging: Icon,
}

/// Messages for the mouse component: fresh telemetry, the battery level in
/// hundredths of a percent.
#[derive(Debug)]
pub enum RazerMouseInput {
    Update { detected: bool, charging: bool, battery_level: u32 },
}

/// Initial settings of the mouse component.
#[derive(Debug, Clone)]
pub struct RazerMouseInit {
    pub icon: Icon,
    pub icon_charging: Icon,
}

/// A battery level in hundredths of a percent, rounded to whole percent
/// (half a percent rounds away from zero).
pub open spec fn rounded_percent(battery_level: u32) -> int {
    (battery_level + 50) / 100
}

/// The label text for a detected mouse: the rounded percentage and a
/// percent sign, padded with dimmed zeros to four characters.
pub open spec fn battery_label(battery_level: u32) -> Seq<char> {
    let digits = dec_string_of(rounded_percent(battery_level) as nat) + "%"@;
    dim_span(
        repeat_char('0', if digits.len() < 4 { (4 - digits.len()) as nat } else { 0 }),
    ) + digits
}

impl RazerMouseModel {
    /// The state the component starts from.
    pub fn init(init: RazerMouseInit) -> (r: Self)
        ensures
            r.icon == init.icon,
            r.icon_charging == init.icon_charging,
    {
        RazerMouseModel { icon: init.icon, icon_charging: init.icon_charging }
    }

    /// Renders one telemetry update: the charging icon while charging, the
    /// rounded battery percentage while detected and a fixed text
    /// otherwise, dimmed while no mouse is detected.
    pub fn update(&self, message: &RazerMouseInput) -> (r: IconButtonInput)
        ensures
            message matches RazerMouseInput::Update { detected, charging, battery_level } ==> {
                &&& (match r.icon {
                    Some(icon) => icon_view(icon) == icon_view(
                        if *charging { self.icon_charging } else { self.icon },
                    ),
                    None => false,
                })
                &&& (match r.text {
                    Some(t) => t@ == if *detected {
                        battery_label(*battery_level)
                    } else {
                        "Not detected"@
                    },
                    None => false,
                })
                &&& r.dim == Some(!*detected)
            },
    {
        match message {
            RazerMouseInput::Update { detected, charging, battery_level } => {
                let icon = if *charging {
                    self.icon_charging.clone()
                } else {
                    self.icon.clone()
                };
                let text = if *detected {
                    let mut digits = u32_to_decimal((((*battery_level as u64) + 50) / 100) as u32);
                    digits.append("%");
                    pad_with_dim_leading_zeros(digits, 4)
                } else {
                    String::from_str("Not detected")
                };
                IconButtonInput { icon: Some(icon), text: Some(text), dim: Some(!*detected) }
            },
        }
    }
}

} // verus!
