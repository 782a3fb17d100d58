//! The user's settings.
use vstd::prelude::*;
use crate::text::{chars_of, eq_chars};

verus! {

/// The settings of nog.
pub struct Config {
    /// The bar color as a hex RGB value (`0xRRGGBB`).
    pub color: u32,
    pub bar_height: u32,
    pub font_size: u32,
    pub font_name: String,
    /// Derive the bar colors for a light theme and use a black text color.
    pub light_theme: bool,
    pub multi_monitor: bool,
    pub outer_gap: u32,
    pub inner_gap: u32,
    pub remove_decorations: bool,
    pub remove_task_bar: bool,
    /// When set, nog does not swap or focus while a window is fullscreen
    /// (`action::ignores_action` tells which requests it leaves unanswered).
    pub ignore_fullscreen_actions: bool,
    pub display_app_bar: bool,
}

impl Default for Config {
    fn default() -> (c: Self)
        ensures
            c.color == 0x3f3f3f,
            c.bar_height == 24,
            c.font_size == 18,
            c.font_name@ == "Consolas"@,
            !c.light_theme,
            !c.multi_monitor,
            c.outer_gap == 0,
            c.inner_gap == 0,
            c.remove_decorations,
            c.remove_task_bar,
            !c.ignore_fullscreen_actions,
            c.display_app_bar,
    {
        Self {
            color: 0x3f3f3f,
            bar_height: 24,
            font_size: 18,
            font_name: "Consolas".to_owned(),
            light_theme: false,
            multi_monitor: false,
            outer_gap: 0,
            inner_gap: 0,
            remove_decorations: true,
            remove_task_bar: true,
            ignore_fullscreen_actions: false,
            display_app_bar: true,
        }
    }
}


/// A setting together with a value of it.
#[derive(Debug, Clone)]
pub enum ConfigProperty {
    Color(u32),
    BarHeight(u32),
    FontSize(u32),
    FontName(String),
    LightTheme(bool),
    MultiMonitor(bool),
    OuterGap(u32),
    InnerGap(u32),
    RemoveDecorations(bool),
    RemoveTaskBar(bool),
    IgnoreFullscreenActions(bool),
    DisplayAppBar(bool),
}

/// The name under which a setting is read and written (the multi monitor
/// setting is named `mulit_monitor`).
pub open spec fn property_name(p: ConfigProperty) -> Seq<char> {
    match p {
        ConfigProperty::Color(_) => seq!['c', 'o', 'l', 'o', 'r'],
        ConfigProperty::BarHeight(_) => seq!['b', 'a', 'r', '_', 'h', 'e', 'i', 'g', 'h', 't'],
        ConfigProperty::FontSize(_) => seq!['f', 'o', 'n', 't', '_', 's', 'i', 'z', 'e'],
        ConfigProperty::FontName(_) => seq!['f', 'o', 'n', 't', '_', 'n', 'a', 'm', 'e'],
        ConfigProperty::LightTheme(_) => seq!['l', 'i', 'g', 'h', 't', '_', 't', 'h', 'e', 'm', 'e'],
        ConfigProperty::MultiMonitor(_) => seq!['m', 'u', 'l', 'i', 't', '_', 'm', 'o', 'n', 'i', 't', 'o', 'r'],
        ConfigProperty::OuterGap(_) => seq!['o', 'u', 't', 'e', 'r', '_', 'g', 'a', 'p'],
        ConfigProperty::InnerGap(_) => seq!['i', 'n', 'n', 'e', 'r', '_', 'g', 'a', 'p'],
        ConfigProperty::RemoveDecorations(_) => seq!['r', 'e', 'm', 'o', 'v', 'e', '_', 'd', 'e', 'c', 'o', 'r', 'a', 't', 'i', 'o', 'n', 's'],
        ConfigProperty::RemoveTaskBar(_) => seq!['r', 'e', 'm', 'o', 'v', 'e', '_', 't', 'a', 's', 'k', '_', 'b', 'a', 'r'],
        ConfigProperty::IgnoreFullscreenActions(_) => seq!['i', 'g', 'n', 'o', 'r', 'e', '_', 'f', 'u', 'l', 'l', 's', 'c', 'r', 'e', 'e', 'n', '_', 'a', 'c', 't', 'i', 'o', 'n', 's'],
        ConfigProperty::DisplayAppBar(_) => seq!['d', 'i', 's', 'p', 'l', 'a', 'y', '_', 'a', 'p', 'p', '_', 'b', 'a', 'r'],
    }
}

/// The setting of `c` of the same kind as `p`, with its value in `c`.
pub open spec fn current_property(c: Config, p: ConfigProperty) -> ConfigProperty {
    match p {
        ConfigProperty::Color(_) => ConfigProperty::Color(c.color),
        ConfigProperty::BarHeight(_) => ConfigProperty::BarHeight(c.bar_height),
        ConfigProperty::FontSize(_) => ConfigProperty::FontSize(c.font_size),
        ConfigProperty::FontName(_) => ConfigProperty::FontName(c.font_name),
        ConfigProperty::LightTheme(_) => ConfigProperty::LightTheme(c.light_theme),
        ConfigProperty::MultiMonitor(_) => ConfigProperty::MultiMonitor(c.multi_monitor),
        ConfigProperty::OuterGap(_) => ConfigProperty::OuterGap(c.outer_gap),
        ConfigProperty::InnerGap(_) => ConfigProperty::InnerGap(c.inner_gap),
        ConfigProperty::RemoveDecorations(_) => ConfigProperty::RemoveDecorations(c.remove_decorations),
        ConfigProperty::RemoveTaskBar(_) => ConfigProperty::RemoveTaskBar(c.remove_task_bar),
        ConfigProperty::IgnoreFullscreenActions(_) => ConfigProperty::IgnoreFullscreenActions(c.ignore_fullscreen_actions),
        ConfigProperty::DisplayAppBar(_) => ConfigProperty::DisplayAppBar(c.display_app_bar),
    }
}

/// `c` with the setting `p` taking its value.
pub open spec fn with_property(c: Config, p: ConfigProperty) -> Config {
    match p {
        ConfigProperty::Color(v) => Config { color: v, ..c },
        ConfigProperty::BarHeight(v) => Config { bar_height: v, ..c },
        ConfigProperty::FontSize(v) => Config { font_size: v, ..c },
        ConfigProperty::FontName(v) => Config { font_name: v, ..c },
        ConfigProperty::LightTheme(v) => Config { light_theme: v, ..c },
        ConfigProperty::MultiMonitor(v) => Config { multi_monitor: v, ..c },
        ConfigProperty::OuterGap(v) => Config { outer_gap: v, ..c },
        ConfigProperty::InnerGap(v) => Config { inner_gap: v, ..c },
        ConfigProperty::RemoveDecorations(v) => Config { remove_decorations: v, ..c },
        ConfigProperty::RemoveTaskBar(v) => Config { remove_task_bar: v, ..c },
        ConfigProperty::IgnoreFullscreenActions(v) => Config { ignore_fullscreen_actions: v, ..c },
        ConfigProperty::DisplayAppBar(v) => Config { display_app_bar: v, ..c },
    }
}

/// The setting of `c` named `key`, with its value; `None` where no setting
/// has that name.
pub open spec fn property_of(c: Config, key: Seq<char>) -> Option<ConfigProperty> {
    if key == property_name(ConfigProperty::Color(0)) {
        Some(ConfigProperty::Color(c.color))
    } else if key == property_name(ConfigProperty::BarHeight(0)) {
        Some(ConfigProperty::BarHeight(c.bar_height))
    } else if key == property_name(ConfigProperty::FontSize(0)) {
        Some(ConfigProperty::FontSize(c.font_size))
    } else if key == property_name(ConfigProperty::FontName(c.font_name)) {
        Some(ConfigProperty::FontName(c.font_name))
    } else if key == property_name(ConfigProperty::LightTheme(false)) {
        Some(ConfigProperty::LightTheme(c.light_theme))
    } else if key == property_name(ConfigProperty::MultiMonitor(false)) {
        Some(ConfigProperty::MultiMonitor(c.multi_monitor))
    } else if key == property_name(ConfigProperty::OuterGap(0)) {
        Some(ConfigProperty::OuterGap(c.outer_gap))
    } else if key == property_name(ConfigProperty::InnerGap(0)) {
        Some(ConfigProperty::InnerGap(c.inner_gap))
    } else if key == property_name(ConfigProperty::RemoveDecorations(false)) {
        Some(ConfigProperty::RemoveDecorations(c.remove_decorations))
    } else if key == property_name(ConfigProperty::RemoveTaskBar(false)) {
        Some(ConfigProperty::RemoveTaskBar(c.remove_task_bar))
    } else if key == property_name(ConfigProperty::IgnoreFullscreenActions(false)) {
        Some(ConfigProperty::IgnoreFullscreenActions(c.ignore_fullscreen_actions))
    } else if key == property_name(ConfigProperty::DisplayAppBar(false)) {
        Some(ConfigProperty::DisplayAppBar(c.display_app_bar))
    } else {
        None
    }
}

impl ConfigProperty {
    /// The name of the setting.
    pub fn get_name(&self) -> (r: &'static str)
        ensures
            r@ == property_name(*self),
    {
        match self {
            ConfigProperty::Color(_) => {
                proof { reveal_strlit("color"); }
                "color"
            },
            ConfigProperty::BarHeight(_) => {
                proof { reveal_strlit("bar_height"); }
                "bar_height"
            },
            ConfigProperty::FontSize(_) => {
                proof { reveal_strlit("font_size"); }
                "font_size"
            },
            ConfigProperty::FontName(_) => {
                proof { reveal_strlit("font_name"); }
                "font_name"
            },
            ConfigProperty::LightTheme(_) => {
                proof { reveal_strlit("light_theme"); }
                "light_theme"
            },
            ConfigProperty::MultiMonitor(_) => {
                proof { reveal_strlit("mulit_monitor"); }
                "mulit_monitor"
            },
            ConfigProperty::OuterGap(_) => {
                proof { reveal_strlit("outer_gap"); }
                "outer_gap"
            },
            ConfigProperty::InnerGap(_) => {
                proof { reveal_strlit("inner_gap"); }
                "inner_gap"
            },
            ConfigProperty::RemoveDecorations(_) => {
                proof { reveal_strlit("remove_decorations"); }
                "remove_decorations"
            },
            ConfigProperty::RemoveTaskBar(_) => {
                proof { reveal_strlit("remove_task_bar"); }
                "remove_task_bar"
            },
            ConfigProperty::IgnoreFullscreenActions(_) => {
                proof { reveal_strlit("ignore_fullscreen_actions"); }
                "ignore_fullscreen_actions"
            },
            ConfigProperty::DisplayAppBar(_) => {
                proof { reveal_strlit("display_app_bar"); }
                "display_app_bar"
            },
        }
    }
}

impl Config {
    /// Reads the setting named `key` (what the `config` object of the Lua
    /// runtime gives for `config[key]`).
    pub fn get_property(&self, key: &str) -> (r: Option<ConfigProperty>)
        ensures
            r == property_of(*self, key@),
    {
        let k = chars_of(key);
        if eq_chars(&k, &['c', 'o', 'l', 'o', 'r']) {
            Some(ConfigProperty::Color(self.color))
        } else if eq_chars(&k, &['b', 'a', 'r', '_', 'h', 'e', 'i', 'g', 'h', 't']) {
            Some(ConfigProperty::BarHeight(self.bar_height))
        } else if eq_chars(&k, &['f', 'o', 'n', 't', '_', 's', 'i', 'z', 'e']) {
            Some(ConfigProperty::FontSize(self.font_size))
        } else if eq_chars(&k, &['f', 'o', 'n', 't', '_', 'n', 'a', 'm', 'e']) {
            Some(ConfigProperty::FontName(self.font_name.clone()))
        } else if eq_chars(&k, &['l', 'i', 'g', 'h', 't', '_', 't', 'h', 'e', 'm', 'e']) {
            Some(ConfigProperty::LightTheme(self.light_theme))
        } else if eq_chars(&k, &['m', 'u', 'l', 'i', 't', '_', 'm', 'o', 'n', 'i', 't', 'o', 'r']) {
            Some(ConfigProperty::MultiMonitor(self.multi_monitor))
        } else if eq_chars(&k, &['o', 'u', 't', 'e', 'r', '_', 'g', 'a', 'p']) {
            Some(ConfigProperty::OuterGap(self.outer_gap))
        } else if eq_chars(&k, &['i', 'n', 'n', 'e', 'r', '_', 'g', 'a', 'p']) {
            Some(ConfigProperty::InnerGap(self.inner_gap))
        } else if eq_chars(&k, &['r', 'e', 'm', 'o', 'v', 'e', '_', 'd', 'e', 'c', 'o', 'r', 'a', 't', 'i', 'o', 'n', 's']) {
            Some(ConfigProperty::RemoveDecorations(self.remove_decorations))
        } else if eq_chars(&k, &['r', 'e', 'm', 'o', 'v', 'e', '_', 't', 'a', 's', 'k', '_', 'b', 'a', 'r']) {
            Some(ConfigProperty::RemoveTaskBar(self.remove_task_bar))
        } else if eq_chars(&k, &['i', 'g', 'n', 'o', 'r', 'e', '_', 'f', 'u', 'l', 'l', 's', 'c', 'r', 'e', 'e', 'n', '_', 'a', 'c', 't', 'i', 'o', 'n', 's']) {
            Some(ConfigProperty::IgnoreFullscreenActions(self.ignore_fullscreen_actions))
        } else if eq_chars(&k, &['d', 'i', 's', 'p', 'l', 'a', 'y', '_', 'a', 'p', 'p', '_', 'b', 'a', 'r']) {
            Some(ConfigProperty::DisplayAppBar(self.display_app_bar))
        } else {
            None
        }
    }

    /// Gives the setting `p` its value and answers the setting as it was
    /// before (what writing `config[key] = value` in the Lua runtime does).
    pub fn set_property(&mut self, p: ConfigProperty) -> (was: ConfigProperty)
        ensures
            was == current_property(*old(self), p),
            *final(self) == with_property(*old(self), p),
    {
        match p {
            ConfigProperty::Color(v) => {
                let o = self.color;
                self.color = v;
                ConfigProperty::Color(o)
            },
            ConfigProperty::BarHeight(v) => {
                let o = self.bar_height;
                self.bar_height = v;
                ConfigProperty::BarHeight(o)
            },
            ConfigProperty::FontSize(v) => {
                let o = self.font_size;
                self.font_size = v;
                ConfigProperty::FontSize(o)
            },
            ConfigProperty::FontName(v) => {
                let o = self.font_name.clone();
                self.font_name = v;
                ConfigProperty::FontName(o)
            },
            ConfigProperty::LightTheme(v) => {
                let o = self.light_theme;
                self.light_theme = v;
                ConfigProperty::LightTheme(o)
            },
            ConfigProperty::MultiMonitor(v) => {
                let o = self.multi_monitor;
                self.multi_monitor = v;
                ConfigProperty::MultiMonitor(o)
            },
            ConfigProperty::OuterGap(v) => {
                let o = self.outer_gap;
                self.outer_gap = v;
                ConfigProperty::OuterGap(o)
            },
            ConfigProperty::InnerGap(v) => {
                let o = self.inner_gap;
                self.inner_gap = v;
                ConfigProperty::InnerGap(o)
            },
            ConfigProperty::RemoveDecorations(v) => {
                let o = self.remove_decorations;
                self.remove_decorations = v;
                ConfigProperty::RemoveDecorations(o)
            },
            ConfigProperty::RemoveTaskBar(v) => {
                let o = self.remove_task_bar;
                self.remove_task_bar = v;
                ConfigProperty::RemoveTaskBar(o)
            },
            ConfigProperty::IgnoreFullscreenActions(v) => {
                let o = self.ignore_fullscreen_actions;
                self.ignore_fullscreen_actions = v;
                ConfigProperty::IgnoreFullscreenActions(o)
            },
            ConfigProperty::DisplayAppBar(v) => {
                let o = self.display_app_bar;
                self.display_app_bar = v;
                ConfigProperty::DisplayAppBar(o)
            },
        }
    }
}

} // verus!
