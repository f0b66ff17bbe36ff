use restart_that_thang::controller::container::ContainerName;

#[test]
fn container_name_keeps_its_text() {
    let name = ContainerName::new("gluetun");
    assert_eq!(name.as_str(), "gluetun");
    assert_eq!(name.to_string(), "gluetun".to_string());
}
