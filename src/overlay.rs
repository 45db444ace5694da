//! Visibility of the overlay window.
use vstd::prelude::*;

verus! {

/// Placement of the overlay, and whether it may be shown at all.
#[derive(Debug, Clone)]
pub struct OverlayConfig {
    pub enabled: bool,
    pub position_x: i32,
    pub position_y: i32,
    pub width: u32,
    pub height: u32,
}

impl OverlayConfig {
    /// The default placement: enabled, at the origin, 800 by 600.
    pub open spec fn default_spec() -> OverlayConfig {
        OverlayConfig { enabled: true, position_x: 0, position_y: 0, width: 800, height: 600 }
    }
}

impl Default for OverlayConfig {
    fn default() -> (r: Self)
        ensures
            r == OverlayConfig::default_spec(),
    {
        OverlayConfig { enabled: true, position_x: 0, position_y: 0, width: 800, height: 600 }
    }
}

/// The overlay: its configuration and whether it is shown.
pub struct Overlay {
    config: OverlayConfig,
    visible: bool,
}

impl View for Overlay {
    /// Whether the overlay is shown.
    type V = bool;

    closed spec fn view(&self) -> bool {
        self.visible
    }
}

impl Overlay {
    /// The configuration the overlay was made with.
    pub closed spec fn settings(&self) -> OverlayConfig {
        self.config
    }

    /// A hidden overlay with the default configuration.
    pub fn new() -> (r: Self)
        ensures
            !r@,
            r.settings() == OverlayConfig::default_spec(),
    {
        Self::with_config(OverlayConfig::default())
    }

    /// A hidden overlay with `config`.
    pub fn with_config(config: OverlayConfig) -> (r: Self)
        ensures
            !r@,
            r.settings() == config,
    {
        Self { config, visible: false }
    }

    /// Whether the overlay is shown.
    pub fn is_visible(&self) -> (r: bool)
        ensures
            r == self@,
    {
        self.visible
    }

    /// Shows the overlay unless its configuration disables it; returns
    /// whether it did. A disabled overlay keeps its visibility.
    pub fn show(&mut self) -> (r: bool)
        ensures
            r == old(self).settings().enabled,
            final(self)@ == (r || old(self)@),
            final(self).settings() == old(self).settings(),
    {
        if !self.config.enabled {
            return false;
        }
        self.visible = true;
        true
    }

    /// Hides the overlay; always succeeds.
    pub fn conceal(&mut self) -> (r: bool)
        ensures
            r,
            !final(self)@,
            final(self).settings() == old(self).settings(),
    {
        self.visible = false;
        true
    }

    /// Hides a shown overlay, else shows it; returns whether that worked.
    pub fn toggle(&mut self) -> (r: bool)
        ensures
            old(self)@ ==> r && !final(self)@,
            !old(self)@ ==> r == old(self).settings().enabled && final(self)@ == r,
            final(self).settings() == old(self).settings(),
    {
        if self.visible {
            self.conceal()
        } else {
            self.show()
        }
    }

    /// The configuration of the overlay.
    pub fn config(&self) -> (r: &OverlayConfig)
        ensures
            *r == self.settings(),
    {
        &self.config
    }
}

impl Default for Overlay {
    fn default() -> (r: Self)
        ensures
            !r@,
            r.settings() == OverlayConfig::default_spec(),
    {
        Self::new()
    }
}

} // verus!
