//! The volume component: renders the audio state as an icon and a label.

use vstd::prelude::*;

use crate::components::iconbutton::IconButtonInput;
use crate::config::{icon_view, Icon};
use crate::util::{dec_string_of, dim_span, pad_with_dim_leading_zeros, repeat_char,
    u32_to_decimal};

verus! {

/// The volume component's state: the icons it alternates between.
pub struct VolumeModel {
    pub icon: Icon,
    pub icon_muted: Icon,
}

/// Messages for the volume component: a fresh volume percentage and mute
/// flag.
#[derive(Debug)]
pub enum VolumeInput {
    Update(u32, bool),
}

/// Initial settings of the volume component.
#[derive(Debug)]
pub struct VolumeInit {
    pub icon: Icon,
    pub icon_muted: Icon,
}

/// The label text for a volume percentage: the decimal number and a percent
/// sign, padded with dimmed zeros to four characters.
pub open spec fn volume_label(volume: u32) -> Seq<char> {
    let digits = dec_string_of(volume as nat) + "%"@;
    dim_span(
        repeat_char('0', if digits.len() < 4 { (4 - digits.len()) as nat } else { 0 }),
    ) + digits
}

impl VolumeModel {
    /// The state the component starts from.
    pub fn init(init: VolumeInit) -> (r: Self)
        ensures
            r.icon == init.icon,
            r.icon_muted == init.icon_muted,
    {
        VolumeModel { icon: init.icon, icon_muted: init.icon_muted }
    }

    /// Renders one update: the muted icon while muted, the padded
    /// percentage as label, dimmed while muted.
    pub fn update(&self, message: &VolumeInput) -> (r: IconButtonInput)
        ensures
            message matches VolumeInput::Update(volume, muted) ==> {
                &&& (match r.icon {
                    Some(icon) => icon_view(icon) == icon_view(
                        if *muted { self.icon_muted } else { self.icon },
                    ),
                    None => false,
                })
                &&& (match r.text {
                    Some(t) => t@ == volume_label(*volume),
                    None => false,
                })
                &&& r.dim == Some(*muted)
            },
    {
        match message {
            VolumeInput::Update(volume, muted) => {
                let icon = if *muted {
                    self.icon_muted.clone()
                } else {
                    self.icon.clone()
                };
                let mut digits = u32_to_decimal(*volume);
                digits.append("%");
                let text = pad_with_dim_leading_zeros(digits, 4);
                IconButtonInput { icon: Some(icon), text: Some(text), dim: Some(*muted) }
            },
        }
    }
}

} // verus!
