//! The power button component: an icon that opens a panel.

use vstd::prelude::*;

use crate::config::Icon;

verus! {

/// The power component's state.
pub struct PowerModel {
    pub icon: Icon,
    pub panel_open: bool,
}

/// Messages for the power component.
#[derive(Debug)]
pub enum PowerInput {
    PanelOpen(bool),
}

/// Initial settings of the power component.
#[derive(Debug, Clone)]
pub struct PowerInit {
    pub icon: Icon,
}

impl Default for PowerInit {
    /// The default power icon.
    fn default() -> (r: Self)
        ensures
            r.icon matches Icon::Material { id } && id@ == "power_settings_new"@,
    {
        PowerInit { icon: Icon::Material { id: String::from_str("power_settings_new") } }
    }
}

impl PowerModel {
    /// The state the component starts from: panel closed.
    pub fn init(init: PowerInit) -> (r: Self)
        ensures
            r.icon == init.icon,
            !r.panel_open,
    {
        PowerModel { icon: init.icon, panel_open: false }
    }

    /// Applies one message: the panel follows the last request.
    pub fn update(&mut self, message: PowerInput)
        ensures
            message matches PowerInput::PanelOpen(open) ==> final(self).panel_open == open,
            final(self).icon == old(self).icon,
    {
        match message {
            PowerInput::PanelOpen(open) => {
                self.panel_open = open;
            },
        }
    }
}

} // verus!
