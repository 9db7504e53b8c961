//! The interface language and the texts that depend on it.

use vstd::prelude::*;

verus! {

/// The interface language.
#[derive(Debug, Clone, Copy, PartialEq, Eq, Structural)]
pub enum AppLocale {
    /// English (written `en` in the preferences file).
    English,
    /// Simplified Chinese (written `zh-CN`).
    SimplifiedChinese,
}

impl Default for AppLocale {
    fn default() -> (r: Self)
        ensures
            r == AppLocale::English,
    {
        AppLocale::English
    }
}

/// The labels of the tray menu.
#[derive(Debug, Clone, Copy)]
pub struct TrayLabels {
    pub open_settings: &'static str,
    pub ask_next: &'static str,
    pub pause: &'static str,
    pub rescan: &'static str,
    pub quit: &'static str,
}

impl AppLocale {
    /// The title of the settings window.
    pub fn settings_title(self) -> (r: &'static str)
        ensures
            r@ == (match self {
                AppLocale::English => "Link Helm Settings"@,
                AppLocale::SimplifiedChinese => "Link Helm 设置"@,
            }),
    {
        match self {
            AppLocale::English => "Link Helm Settings",
            AppLocale::SimplifiedChinese => "Link Helm 设置",
        }
    }

    /// The title of the profile selector window.
    pub fn selector_title(self) -> (r: &'static str)
        ensures
            r@ == (match self {
                AppLocale::English => "Choose a browser profile"@,
                AppLocale::SimplifiedChinese => "选择浏览器身份"@,
            }),
    {
        match self {
            AppLocale::English => "Choose a browser profile",
            AppLocale::SimplifiedChinese => "选择浏览器身份",
        }
    }

    /// The labels of the tray menu.
    pub fn tray_labels(self) -> (r: TrayLabels)
        ensures
            self == AppLocale::English ==> (r.open_settings@ == "Open Settings..."@
                && r.ask_next@ == "Ask Next Time"@ && r.pause@ == "Pause Routing"@ && r.rescan@
                == "Rescan Profiles"@ && r.quit@ == "Quit Link Helm"@),
            self == AppLocale::SimplifiedChinese ==> (r.open_settings@ == "打开设置..."@
                && r.ask_next@ == "下次询问"@ && r.pause@ == "暂停路由"@ && r.rescan@
                == "重新扫描身份"@ && r.quit@ == "退出 Link Helm"@),
    {
        match self {
            AppLocale::English => TrayLabels {
                open_settings: "Open Settings...",
                ask_next: "Ask Next Time",
                pause: "Pause Routing",
                rescan: "Rescan Profiles",
                quit: "Quit Link Helm",
            },
            AppLocale::SimplifiedChinese => TrayLabels {
                open_settings: "打开设置...",
                ask_next: "下次询问",
                pause: "暂停路由",
                rescan: "重新扫描身份",
                quit: "退出 Link Helm",
            },
        }
    }
}

/// The user's preferences as the router holds them.
#[derive(Debug)]
pub struct PreferencesStore {
    locale: AppLocale,
}

impl PreferencesStore {
    /// The language in use.
    pub closed spec fn locale_spec(&self) -> AppLocale {
        self.locale
    }

    /// The preferences read from the preferences file: its language where
    /// the file could be read, else English.
    pub fn load(stored: Option<AppLocale>) -> (r: Self)
        ensures
            r.locale_spec() == match stored {
                Some(l) => l,
                None => AppLocale::English,
            },
    {
        match stored {
            Some(l) => PreferencesStore { locale: l },
            None => PreferencesStore { locale: AppLocale::English },
        }
    }

    /// The language in use.
    pub fn locale(&self) -> (r: AppLocale)
        ensures
            r == self.locale_spec(),
    {
        self.locale
    }

    /// Switches to `locale` once the preferences file has been written; a
    /// failed write changes nothing and is handed back.
    pub fn save_locale(&mut self, locale: AppLocale, written: Result<(), String>) -> (r: Result<(), String>)
        ensures
            match written {
                Ok(()) => r is Ok && final(self).locale_spec() == locale,
                Err(e) => r matches Err(m) && m@ == e@ && final(self).locale_spec() == old(self).locale_spec(),
            },
    {
        match written {
            Ok(()) => {
                self.locale = locale;
                Ok(())
            },
            Err(e) => Err(e),
        }
    }
}

} // verus!
