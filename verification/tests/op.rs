use ped::op::describe;

#[test]
fn known_operations_described() {
    assert_eq!(describe("quit"), Some("ask to save dirty editors and quit"));
    assert_eq!(describe("help"), Some("show or hide @help window"));
    assert_eq!(describe("tab-mode"), Some("toggle between soft and hard tab insertion mode"));
    assert_eq!(describe("not-an-op"), None);
    assert_eq!(describe(""), None);
}
