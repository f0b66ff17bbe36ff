use restart_that_thang::controller::container::{ContainerHealth, HealthState};

#[test]
fn health_fields_ignore_case() {
    assert_eq!(ContainerHealth::new("healthy"), ContainerHealth::Healthy);
    assert_eq!(ContainerHealth::new("UnHealthy"), ContainerHealth::UnHealthy);
    assert_eq!(ContainerHealth::new("STARTING"), ContainerHealth::Starting);
    assert_eq!(ContainerHealth::new("none"), ContainerHealth::NoHealthcheck);
    assert_eq!(ContainerHealth::new("healthy "), ContainerHealth::NoHealthcheck);
}

#[test]
fn health_state_parse_ignores_case() {
    assert_eq!(HealthState::parse("Healthy"), HealthState::Healthy);
    assert_eq!(HealthState::parse("unhealthy"), HealthState::UnHealthy);
    assert_eq!(HealthState::parse("starting"), HealthState::Starting);
    assert_eq!(HealthState::parse(""), HealthState::NoHealthcheck);
}
