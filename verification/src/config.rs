//! The typed configuration model: host records, optional CLI settings,
//! and the whole application config, with their spec-level views.

use vstd::prelude::*;

verus! {

/// One named remote target from the inventory: an address plus the login
/// user, under a user-assigned name.
#[derive(Debug, Clone)]
pub struct Vm {
    pub name: String,
    pub ip: String,
    pub user: String,
}

/// Advisory settings from the `[cli]` table; parsed but not consulted by
/// dispatch logic.
#[derive(Debug, Clone)]
pub struct CliSettings {
    pub preferred_editor: Option<String>,
    pub default_user: Option<String>,
}

/// The whole parsed configuration: optional CLI settings and the ordered
/// host inventory. The host list may be empty.
#[derive(Debug, Clone)]
pub struct AppConfig {
    pub cli: Option<CliSettings>,
    pub vms: Vec<Vm>,
}

/// Spec-level image of a host record.
pub ghost struct SpecVm {
    pub name: Seq<char>,
    pub ip: Seq<char>,
    pub user: Seq<char>,
}

/// Spec-level image of the `[cli]` table.
pub ghost struct SpecCliSettings {
    pub preferred_editor: Option<Seq<char>>,
    pub default_user: Option<Seq<char>>,
}

/// Spec-level image of the whole configuration.
pub ghost struct SpecAppConfig {
    pub cli: Option<SpecCliSettings>,
    pub vms: Seq<SpecVm>,
}

impl View for Vm {
    type V = SpecVm;

    open spec fn view(&self) -> SpecVm {
        SpecVm { name: self.name@, ip: self.ip@, user: self.user@ }
    }
}

impl View for CliSettings {
    type V = SpecCliSettings;

    open spec fn view(&self) -> SpecCliSettings {
        SpecCliSettings {
            preferred_editor: match self.preferred_editor {
                Some(ref s) => Some(s@),
                None => None,
            },
            default_user: match self.default_user {
                Some(ref s) => Some(s@),
                None => None,
            },
        }
    }
}

impl View for AppConfig {
    type V = SpecAppConfig;

    open spec fn view(&self) -> SpecAppConfig {
        SpecAppConfig {
            cli: match self.cli {
                Some(ref c) => Some(c@),
                None => None,
            },
            vms: self.vms@.map_values(|v: Vm| v@),
        }
    }
}

} // verus!
