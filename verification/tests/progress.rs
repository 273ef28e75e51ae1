use farm_plugins::progress::{message_for, FarmPluginProgress, MessageKind, ProgressAction};
use farm_plugins::text::decimal_text;

#[test]
fn progress_plugin_name() {
    assert_eq!(FarmPluginProgress::new().name(), "FarmPluginProgress");
}

#[test]
fn counting_modules() {
    let mut p = FarmPluginProgress::new();
    assert_eq!(p.get_module_count(), 0);
    p.increment_module_count();
    p.increment_module_count();
    assert_eq!(p.get_module_count(), 2);
    p.reset_module_count();
    assert_eq!(p.get_module_count(), 0);
}

#[test]
fn increments_add_up() {
    let mut p = FarmPluginProgress::new();
    for _ in 0..5 {
        p.increment_module_count();
    }
    assert_eq!(p.get_module_count(), 5);
    assert!(p.is_first_build());
}

#[test]
fn transform_counts_and_reports() {
    let mut p = FarmPluginProgress::new();
    match p.transform("src/a.ts") {
        ProgressAction::Advance { kind, count, name, message } => {
            assert_eq!(kind, MessageKind::Transform);
            assert_eq!(count, 1);
            assert_eq!(name, "src/a.ts");
            assert_eq!(message, "transform (1) src/a.ts");
        },
        _ => panic!("transform must advance the bar"),
    }
    match p.handle_persistent_cached_module("src/b.ts") {
        ProgressAction::Advance { kind, count, name, message } => {
            assert_eq!(kind, MessageKind::LoadCachedModule);
            assert_eq!(count, 2);
            assert_eq!(name, "src/b.ts");
            assert_eq!(message, "load cached module(2) src/b.ts");
        },
        _ => panic!("cached module must advance the bar"),
    }
    assert_eq!(p.get_module_count(), 2);
}

#[test]
fn build_start_and_update_reset_the_count() {
    let mut p = FarmPluginProgress::new();
    p.transform("a");
    assert!(matches!(p.build_start(), ProgressAction::Nothing));
    assert_eq!(p.get_module_count(), 0);
    p.transform("a");
    assert!(matches!(p.update_modules(), ProgressAction::Reset));
    assert_eq!(p.get_module_count(), 0);
}

#[test]
fn first_build_ends_at_generate_end() {
    let mut p = FarmPluginProgress::new();
    assert!(p.is_first_build());
    assert!(matches!(p.module_graph_updated(), ProgressAction::Nothing));
    match p.render_resource_pot("index") {
        ProgressAction::Advance { kind, name, message, .. } => {
            assert_eq!(kind, MessageKind::Render);
            assert_eq!(name, "index");
            assert_eq!(message, "render index");
        },
        _ => panic!("render must report during the first build"),
    }
    assert!(matches!(p.generate_end(), ProgressAction::FinishAndClear));
    assert!(!p.is_first_build());
    assert!(matches!(p.generate_end(), ProgressAction::Nothing));
    assert!(matches!(p.render_resource_pot("index"), ProgressAction::Nothing));
    assert!(matches!(p.module_graph_updated(), ProgressAction::FinishAndClear));
    p.transform("a");
    assert!(!p.is_first_build());
}

#[test]
fn message_text_writes_multi_digit_counts() {
    assert_eq!(message_for(MessageKind::Transform, 1207, "m"), "transform (1207) m");
    assert_eq!(message_for(MessageKind::LoadCachedModule, 0, "x"), "load cached module(0) x");
    assert_eq!(message_for(MessageKind::Render, 42, "pot"), "render pot");
    assert_eq!(decimal_text(u32::MAX), "4294967295");
    assert_eq!(decimal_text(10), "10");
}
