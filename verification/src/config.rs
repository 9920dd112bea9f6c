//! The settings of the tool, and their defaults.
use vstd::prelude::*;

use crate::text::owned;

verus! {

/// All settings. A setting missing from the configuration file keeps its default.
#[derive(Debug, PartialEq, Eq)]
pub struct Config {
    pub tagline: String,
    pub planning: PlanningConfig,
    pub review: ReviewConfig,
    pub focus: FocusConfig,
    pub theme: ThemeConfig,
}

/// How the plan is laid out.
#[derive(Debug, PartialEq, Eq)]
pub struct PlanningConfig {
    pub block_style: String,
    pub loose_labels: Vec<String>,
}

/// What the review covers.
#[derive(Debug, PartialEq, Eq)]
pub struct ReviewConfig {
    pub scope: String,
    pub history_grouping: String,
}

/// The focus timer.
#[derive(Debug, PartialEq, Eq)]
pub struct FocusConfig {
    pub default_minutes: u32,
    pub presets: Vec<u32>,
    pub mode: String,
}

/// The colors.
#[derive(Debug, PartialEq, Eq)]
pub struct ThemeConfig {
    pub name: String,
    pub accent: String,
}

impl PlanningConfig {
    /// The default planning settings.
    pub open spec fn is_default(self) -> bool {
        &&& self.block_style@ == "mixed"@
        &&& self.loose_labels@.len() == 3
        &&& self.loose_labels@[0]@ == "Now"@
        &&& self.loose_labels@[1]@ == "Next"@
        &&& self.loose_labels@[2]@ == "Later"@
    }
}

impl Default for PlanningConfig {
    /// Mixed blocks, with the loose labels `Now`, `Next` and `Later`.
    fn default() -> (c: Self)
        ensures
            c.is_default(),
    {
        let mut loose_labels: Vec<String> = Vec::new();
        loose_labels.push(owned("Now"));
        loose_labels.push(owned("Next"));
        loose_labels.push(owned("Later"));
        PlanningConfig { block_style: owned("mixed"), loose_labels }
    }
}

impl ReviewConfig {
    /// The default review settings.
    pub open spec fn is_default(self) -> bool {
        &&& self.scope@ == "day"@
        &&& self.history_grouping@ == "day"@
    }
}

impl Default for ReviewConfig {
    /// The review covers the day and groups the history by day.
    fn default() -> (c: Self)
        ensures
            c.is_default(),
    {
        ReviewConfig { scope: owned("day"), history_grouping: owned("day") }
    }
}

impl FocusConfig {
    /// The default focus settings.
    pub open spec fn is_default(self) -> bool {
        &&& self.default_minutes == 45
        &&& self.presets@ == seq![25u32, 45u32, 90u32]
        &&& self.mode@ == "countdown"@
    }
}

impl Default for FocusConfig {
    /// A 45-minute countdown, with presets of 25, 45 and 90 minutes.
    fn default() -> (c: Self)
        ensures
            c.is_default(),
    {
        let mut presets: Vec<u32> = Vec::new();
        presets.push(25);
        presets.push(45);
        presets.push(90);
        assert(presets@ =~= seq![25u32, 45u32, 90u32]);
        FocusConfig { default_minutes: 45, presets, mode: owned("countdown") }
    }
}

impl ThemeConfig {
    /// The default theme settings.
    pub open spec fn is_default(self) -> bool {
        &&& self.name@ == "dawn"@
        &&& self.accent@ == "gold"@
    }
}

impl Default for ThemeConfig {
    /// The `dawn` theme with the `gold` accent.
    fn default() -> (c: Self)
        ensures
            c.is_default(),
    {
        ThemeConfig { name: owned("dawn"), accent: owned("gold") }
    }
}

impl Config {
    /// The default settings.
    pub open spec fn is_default(self) -> bool {
        &&& self.tagline@ == "Know what matters."@
        &&& self.planning.is_default()
        &&& self.review.is_default()
        &&& self.focus.is_default()
        &&& self.theme.is_default()
    }
}

impl Default for Config {
    /// The tagline "Know what matters." and the default of every section.
    fn default() -> (c: Self)
        ensures
            c.is_default(),
    {
        Config {
            tagline: owned("Know what matters."),
            planning: PlanningConfig::default(),
            review: ReviewConfig::default(),
            focus: FocusConfig::default(),
            theme: ThemeConfig::default(),
        }
    }
}

} // verus!
