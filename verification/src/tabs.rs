use vstd::prelude::*;

verus! {

// The fixed sections of a decoded report, one titled type per section.
// Each owns only its title; which record fields a section shows, and how,
// is left to the presentation layer around the library.

/// The gameplay-state section: scene, uptime, camera and online role.
pub struct GameplayTab {
    pub title: String,
}

impl GameplayTab {
    pub fn new() -> (t: GameplayTab)
        ensures
            t.title@ == "Gameplay"@,
    {
        GameplayTab { title: String::from_str("Gameplay") }
    }
}

/// The system-information section.
pub struct SystemTab {
    pub title: String,
}

impl SystemTab {
    pub fn new() -> (t: SystemTab)
        ensures
            t.title@ == "System"@,
    {
        SystemTab { title: String::from_str("System") }
    }
}

/// The graphics-settings section.
pub struct SettingsTab {
    pub title: String,
}

impl SettingsTab {
    pub fn new() -> (t: SettingsTab)
        ensures
            t.title@ == "Settings"@,
    {
        SettingsTab { title: String::from_str("Settings") }
    }
}

/// The GPU crash-report section.
pub struct GpuTab {
    pub title: String,
}

impl GpuTab {
    pub fn new() -> (t: GpuTab)
        ensures
            t.title@ == "GPU"@,
    {
        GpuTab { title: String::from_str("GPU") }
    }
}

/// The VR data and headset-description section.
pub struct VrTab {
    pub title: String,
}

impl VrTab {
    pub fn new() -> (t: VrTab)
        ensures
            t.title@ == "VR"@,
    {
        VrTab { title: String::from_str("VR") }
    }
}

/// The loaded-modules section.
pub struct ModuleTab {
    pub title: String,
}

impl ModuleTab {
    pub fn new() -> (t: ModuleTab)
        ensures
            t.title@ == "Modules"@,
    {
        ModuleTab { title: String::from_str("Modules") }
    }
}

/// The symbolicated callstack section.
pub struct CallstackTab {
    pub title: String,
}

impl CallstackTab {
    pub fn new() -> (t: CallstackTab)
        ensures
            t.title@ == "Callstack"@,
    {
        CallstackTab { title: String::from_str("Callstack") }
    }
}

/// The exception-record section.
pub struct ExceptionTab {
    pub title: String,
}

impl ExceptionTab {
    pub fn new() -> (t: ExceptionTab)
        ensures
            t.title@ == "Exception"@,
    {
        ExceptionTab { title: String::from_str("Exception") }
    }
}

} // verus!
