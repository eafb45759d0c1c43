//! The icon-plus-text button every numeric component renders through.

use vstd::prelude::*;

use crate::config::{icon_ok, icon_text, Icon};
use crate::icons::{table_view, CodepointTable};

verus! {

/// The rendered state of an icon button: glyph text, label text, dimming.
pub struct IconButtonModel {
    pub icon: String,
    pub text: String,
    pub dim: bool,
}

/// A partial update: each field that is present replaces the prior value.
#[derive(Debug)]
pub struct IconButtonInput {
    pub icon: Option<Icon>,
    pub text: Option<String>,
    pub dim: Option<bool>,
}

/// What an icon button reports back.
#[derive(Debug)]
pub enum IconButtonOutput {
    Clicked,
}

/// Initial settings of an icon button.
pub struct IconButtonInit {
    pub icon: Icon,
    pub text: String,
    pub class: String,
    pub dim: bool,
}

impl IconButtonModel {
    /// The state the button starts from: the rendered icon and the given
    /// label.
    pub fn init(init: IconButtonInit, table: &CodepointTable) -> (r: Self)
        requires
            icon_ok(init.icon, table_view(table.entries@)),
        ensures
            r.icon@ == icon_text(init.icon, table_view(table.entries@)),
            r.text == init.text,
            r.dim == init.dim,
    {
        IconButtonModel {
            icon: init.icon.to_string(table),
            text: init.text,
            dim: init.dim,
        }
    }

    /// Applies a partial update: present fields replace, absent fields
    /// keep their prior value.
    pub fn update(&mut self, message: IconButtonInput, table: &CodepointTable)
        requires
            message.icon matches Some(icon) ==> icon_ok(icon, table_view(table.entries@)),
        ensures
            match message.icon {
                Some(icon) => final(self).icon@ == icon_text(icon, table_view(table.entries@)),
                None => final(self).icon == old(self).icon,
            },
            match message.text {
                Some(text) => final(self).text == text,
                None => final(self).text == old(self).text,
            },
            match message.dim {
                Some(dim) => final(self).dim == dim,
                None => final(self).dim == old(self).dim,
            },
    {
        match message.icon {
            Some(icon) => {
                self.icon = icon.to_string(table);
            },
            None => {},
        }
        match message.text {
            Some(text) => {
                self.text = text;
            },
            None => {},
        }
        match message.dim {
            Some(dim) => {
                self.dim = dim;
            },
            None => {},
        }
    }
}

} // verus!
