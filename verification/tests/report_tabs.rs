use crash_metrics::tabs::{
    CallstackTab, ExceptionTab, GameplayTab, GpuTab, ModuleTab, SettingsTab, SystemTab, VrTab,
};

#[test]
fn tab_titles() {
    assert_eq!(GameplayTab::new().title, "Gameplay");
    assert_eq!(SystemTab::new().title, "System");
    assert_eq!(SettingsTab::new().title, "Settings");
    assert_eq!(GpuTab::new().title, "GPU");
    assert_eq!(VrTab::new().title, "VR");
    assert_eq!(ModuleTab::new().title, "Modules");
    assert_eq!(CallstackTab::new().title, "Callstack");
    assert_eq!(ExceptionTab::new().title, "Exception");
}
