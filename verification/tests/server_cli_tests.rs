use zo_tunnel::server_cli::{
    first_token, journal_args, new_server_config, primary_ip, public_scheme, service_label, start_plan, StartPlan,
};

#[test]
fn start_plans() {
    assert_eq!(start_plan(true, true, false), StartPlan::AlreadyConfigured);
    assert_eq!(start_plan(true, true, true), StartPlan::Create);
    assert_eq!(start_plan(true, false, false), StartPlan::Load);
    assert_eq!(start_plan(true, false, true), StartPlan::Load);
    assert_eq!(start_plan(false, false, false), StartPlan::DomainRequired);
    assert_eq!(start_plan(false, true, false), StartPlan::Create);
}

#[test]
fn shown_token() {
    assert_eq!(first_token(&vec!["t1".to_string(), "t2".to_string()]), "t1");
    assert_eq!(first_token(&vec![]), "(none)");
}

#[test]
fn schemes_and_labels() {
    assert_eq!(public_scheme(true), "https");
    assert_eq!(public_scheme(false), "http");
    assert_eq!(service_label(true, true), "\u{1F7E2} running");
    assert_eq!(service_label(false, true), "\u{1F534} stopped");
    assert_eq!(service_label(false, false), "\u{26AA} not installed");
}

#[test]
fn server_ip_from_hostname_output() {
    assert_eq!(primary_ip(Some("203.0.113.5 10.0.0.2 \n")), "203.0.113.5");
    assert_eq!(primary_ip(Some("  198.51.100.7\n")), "198.51.100.7");
    assert_eq!(primary_ip(Some(" \n")), "<VPS_IP>");
    assert_eq!(primary_ip(None), "<VPS_IP>");
}

#[test]
fn journalctl_arguments() {
    assert_eq!(journal_args(50, false), vec!["-u", "zo-tunnel", "-n", "50", "--no-pager"]);
    assert_eq!(journal_args(7, true), vec!["-u", "zo-tunnel", "-n", "7", "--no-pager", "-f"]);
}

#[test]
fn created_config() {
    let c = new_server_config("t.example.com".into(), 7000, 7010, "ct".into(), "dt".into());
    assert_eq!(c.domain.as_deref(), Some("t.example.com"));
    assert_eq!(c.control_port, 7000);
    assert_eq!(c.public_port, 7010);
    assert_eq!(c.auth.tokens, vec!["ct".to_string()]);
    assert_eq!(c.dashboard_auth.token, "dt");
    assert_eq!(c.dashboard_port, 6220);
    assert_eq!(c.log_level, "info");
}
