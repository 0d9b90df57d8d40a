use rustway::keyed::KeyedTable;
use rustway::plugins::{
    PluginContext, PluginError, PluginPhase, PluginRegistry, RouteFilter, DEFAULT_PRIORITY,
};

fn names(registry: &PluginRegistry) -> Vec<String> {
    (0..registry.len()).map(|i| registry.plugin_at(i).unwrap().name.clone()).collect()
}

#[test]
fn plugin_error_messages() {
    assert_eq!(
        PluginError::Execution("io".to_string()).message(),
        "Plugin execution failed: io"
    );
    assert_eq!(
        PluginError::Config("no key".to_string()).message(),
        "Plugin configuration error: no key"
    );
    assert_eq!(
        PluginError::Rejected("blocked".to_string()).message(),
        "Request rejected: blocked"
    );
}

#[test]
fn only_a_rejection_ends_the_request() {
    assert!(PluginError::Rejected("x".to_string()).is_rejection());
    assert!(!PluginError::Execution("x".to_string()).is_rejection());
    assert!(!PluginError::Config("x".to_string()).is_rejection());
}

#[test]
fn new_context_knows_only_the_route() {
    let ctx = PluginContext::new("/api".to_string());
    assert_eq!(ctx.route_path, "/api");
    assert_eq!(ctx.client_ip, None);
    assert!(ctx.metadata.get("anything").is_none());
}

#[test]
fn with_client_ip_sets_the_client() {
    let mut ctx = PluginContext::new("/api".to_string());
    ctx.metadata.insert("trace", "abc".to_string());
    let ctx = ctx.with_client_ip(Some("10.0.0.1".to_string()));
    assert_eq!(ctx.route_path, "/api");
    assert_eq!(ctx.client_ip, Some("10.0.0.1".to_string()));
    assert_eq!(ctx.metadata.get("trace"), Some(&"abc".to_string()));
    let ctx = ctx.with_client_ip(None);
    assert_eq!(ctx.client_ip, None);
}

#[test]
fn keyed_table_behaves_as_a_map() {
    let mut t: KeyedTable<u32> = KeyedTable::new();
    assert_eq!(t.get("a"), None);
    t.insert("a", 1);
    t.insert("b", 2);
    assert_eq!(t.get("a"), Some(&1));
    assert_eq!(t.get("b"), Some(&2));
    t.insert("a", 3);
    assert_eq!(t.get("a"), Some(&3));
    assert_eq!(t.get("b"), Some(&2));
    assert_eq!(t.get("c"), None);
    assert_eq!(t.get(""), None);
}

#[test]
fn default_priority_is_one_hundred() {
    assert_eq!(DEFAULT_PRIORITY, 100);
}

#[test]
fn registration_numbers_count_up() {
    let mut registry = PluginRegistry::new();
    assert_eq!(registry.len(), 0);
    assert_eq!(registry.register("a", PluginPhase::PreProxy, 20, RouteFilter::All), 0);
    assert_eq!(registry.register("b", PluginPhase::PreProxy, 10, RouteFilter::All), 1);
    assert_eq!(registry.register("c", PluginPhase::PreAuth, 5, RouteFilter::All), 2);
    assert_eq!(registry.len(), 3);
    assert_eq!(registry.plugin_at(0).unwrap().id, 2);
    assert_eq!(registry.plugin_at(1).unwrap().id, 1);
    assert_eq!(registry.plugin_at(2).unwrap().id, 0);
    assert!(registry.plugin_at(3).is_none());
}

#[test]
fn plugins_are_kept_by_phase_and_ascending_priority() {
    let mut registry = PluginRegistry::new();
    registry.register("post-50", PluginPhase::PostProxy, 50, RouteFilter::All);
    registry.register("pre-proxy-20", PluginPhase::PreProxy, 20, RouteFilter::All);
    registry.register("pre-auth-7", PluginPhase::PreAuth, 7, RouteFilter::All);
    registry.register("pre-proxy-10", PluginPhase::PreProxy, 10, RouteFilter::All);
    registry.register("post-auth--3", PluginPhase::PostAuth, -3, RouteFilter::All);
    registry.register("pre-proxy-15", PluginPhase::PreProxy, 15, RouteFilter::All);
    registry.register("post-1", PluginPhase::PostProxy, 1, RouteFilter::All);
    assert_eq!(
        names(&registry),
        vec![
            "pre-auth-7",
            "post-auth--3",
            "pre-proxy-10",
            "pre-proxy-15",
            "pre-proxy-20",
            "post-1",
            "post-50",
        ]
    );
}

#[test]
fn equal_priorities_keep_registration_order() {
    let mut registry = PluginRegistry::new();
    registry.register("first", PluginPhase::PreProxy, 100, RouteFilter::All);
    registry.register("second", PluginPhase::PreProxy, 100, RouteFilter::All);
    registry.register("early", PluginPhase::PreProxy, i32::MIN, RouteFilter::All);
    registry.register("third", PluginPhase::PreProxy, 100, RouteFilter::All);
    registry.register("late", PluginPhase::PreProxy, i32::MAX, RouteFilter::All);
    assert_eq!(names(&registry), vec!["early", "first", "second", "third", "late"]);
}

#[test]
fn filter_decides_where_a_plugin_runs() {
    assert!(RouteFilter::All.is_enabled_for_route("/anything"));
    let admin = RouteFilter::Prefix("/admin".to_string());
    assert!(admin.is_enabled_for_route("/admin"));
    assert!(admin.is_enabled_for_route("/admin/users"));
    assert!(!admin.is_enabled_for_route("/api"));
    assert!(!admin.is_enabled_for_route("/adm"));
}

#[test]
fn next_plugin_skips_other_phases_and_filtered_routes() {
    let mut registry = PluginRegistry::new();
    registry.register("auth", PluginPhase::PreAuth, 1, RouteFilter::All);
    registry.register(
        "admin-only",
        PluginPhase::PreProxy,
        10,
        RouteFilter::Prefix("/admin".to_string()),
    );
    registry.register("everywhere", PluginPhase::PreProxy, 20, RouteFilter::All);
    registry.register("stamp", PluginPhase::PostProxy, 1, RouteFilter::All);
    assert_eq!(registry.next_plugin(PluginPhase::PreProxy, "/api", 0), Some(2));
    assert_eq!(registry.next_plugin(PluginPhase::PreProxy, "/admin", 0), Some(1));
    assert_eq!(registry.next_plugin(PluginPhase::PreProxy, "/admin", 2), Some(2));
    assert_eq!(registry.next_plugin(PluginPhase::PreProxy, "/admin", 3), None);
    assert_eq!(registry.next_plugin(PluginPhase::PreAuth, "/api", 0), Some(0));
    assert_eq!(registry.next_plugin(PluginPhase::PreAuth, "/api", 1), None);
    assert_eq!(registry.next_plugin(PluginPhase::PostAuth, "/api", 0), None);
    assert_eq!(registry.next_plugin(PluginPhase::PostProxy, "/api", 0), Some(3));
    assert_eq!(registry.next_plugin(PluginPhase::PostProxy, "/api", 99), None);
    assert_eq!(registry.next_plugin(PluginPhase::PostProxy, "/api", usize::MAX), None);
}
