//! The launcher's application configuration: identity, window geometry,
//! UI switches and theme, with its stock values.
use vstd::prelude::*;

verus! {

/// Identity of the launcher build.
#[derive(Debug)]
pub struct AppInfo {
    pub name: String,
    pub version: String,
    pub ui_framework_version: Option<String>,
    pub channel: Option<String>,
    pub language: String,
}

/// Geometry of the launcher window.
#[derive(Debug)]
pub struct WindowConfig {
    pub width: u32,
    pub height: u32,
    pub min_width: u32,
    pub min_height: u32,
    pub border_radius: bool,
    pub radius_size: u32,
}

/// Switches of the launcher UI.
#[derive(Debug)]
pub struct UiConfig {
    pub scrollbar: bool,
    pub titlebar_height: u32,
    pub animations: bool,
}

/// Colors of the launcher theme.
#[derive(Debug)]
pub struct ThemeConfig {
    pub preset: Option<String>,
    pub accent_color: Option<String>,
    pub gradient_colors: Option<Vec<String>>,
}

impl Default for ThemeConfig {
    /// No theme chosen.
    fn default() -> (r: Self)
        ensures
            r.preset is None,
            r.accent_color is None,
            r.gradient_colors is None,
    {
        ThemeConfig { preset: Option::None, accent_color: Option::None, gradient_colors: Option::None }
    }
}

/// The launcher's whole configuration.
#[derive(Debug)]
pub struct AppConfig {
    pub app: AppInfo,
    pub window: WindowConfig,
    pub ui: UiConfig,
    pub theme: ThemeConfig,
}

impl Default for AppConfig {
    /// The stock configuration the launcher starts from when no saved
    /// configuration exists.
    fn default() -> (r: Self)
        ensures
            r.app.name@ == "ImagineLauncher"@,
            r.app.version@ == "0.0.1"@,
            crate::model::opt_str_view(r.app.ui_framework_version) == Option::Some("1.0.1"@),
            crate::model::opt_str_view(r.app.channel) == Option::Some("Alpha"@),
            r.app.language@ == "zh-CN"@,
            r.window.width == 1000 && r.window.height == 600,
            r.window.min_width == 800 && r.window.min_height == 500,
            r.window.border_radius == true && r.window.radius_size == 12,
            r.ui.scrollbar == false,
            r.ui.titlebar_height == 48,
            r.ui.animations == true,
            crate::model::opt_str_view(r.theme.preset) == Option::Some("pink"@),
            crate::model::opt_str_view(r.theme.accent_color) == Option::Some("#f472b6"@),
            match r.theme.gradient_colors {
                Option::Some(g) => g@.len() == 3 && g@[0]@ == "#f472b6"@ && g@[1]@ == "#ec4899"@
                    && g@[2]@ == "#db2777"@,
                Option::None => false,
            },
    {
        let mut gradient: Vec<String> = Vec::new();
        gradient.push("#f472b6".to_owned());
        gradient.push("#ec4899".to_owned());
        gradient.push("#db2777".to_owned());
        AppConfig {
            app: AppInfo {
                name: "ImagineLauncher".to_owned(),
                version: "0.0.1".to_owned(),
                ui_framework_version: Option::Some("1.0.1".to_owned()),
                channel: Option::Some("Alpha".to_owned()),
                language: "zh-CN".to_owned(),
            },
            window: WindowConfig {
                width: 1000,
                height: 600,
                min_width: 800,
                min_height: 500,
                border_radius: true,
                radius_size: 12,
            },
            ui: UiConfig { scrollbar: false, titlebar_height: 48, animations: true },
            theme: ThemeConfig {
                preset: Option::Some("pink".to_owned()),
                accent_color: Option::Some("#f472b6".to_owned()),
                gradient_colors: Option::Some(gradient),
            },
        }
    }
}

} // verus!
