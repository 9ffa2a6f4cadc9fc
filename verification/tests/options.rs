use cargo_intraconv::options::Krate;

#[test]
fn new_valid() {
    let name = "_";
    assert_eq!(name, Krate::new(name).unwrap().0);

    let name = "a";
    assert_eq!(name, Krate::new(name).unwrap().0);

    let name = "A";
    assert_eq!(name, Krate::new(name).unwrap().0);

    let name = "std";
    assert_eq!(name, Krate::new(name).unwrap().0);

    let name = "cargo_intraconv";
    assert_eq!(name, Krate::new(name).unwrap().0);

    let name = "a_09";
    assert_eq!(name, Krate::new(name).unwrap().0);
}

#[test]
fn new_invalid() {
    let name = "";
    assert!(Krate::new(name).is_none());

    let name = "-";
    assert!(Krate::new(name).is_none());

    let name = "a-";
    assert!(Krate::new(name).is_none());

    let name = "A-";
    assert!(Krate::new(name).is_none());

    let name = "-A";
    assert!(Krate::new(name).is_none());

    let name = "0";
    assert!(Krate::new(name).is_none());

    let name = "a&A";
    assert!(Krate::new(name).is_none());

    let name = "a A";
    assert!(Krate::new(name).is_none());

    let name = "a 0";
    assert!(Krate::new(name).is_none());

    let name = "a-0";
    assert!(Krate::new(name).is_none());

    let name = "test_name_00-";
    assert!(Krate::new(name).is_none());
}

#[test]
fn name() {
    // This also tests invalid names to ensure correctness.

    let name = "";
    assert_eq!(name, Krate(name.into()).name());

    let name = "-";
    assert_eq!(name, Krate(name.into()).name());

    let name = "krate";
    assert_eq!(name, Krate(name.into()).name());

    let name = "0937864";
    assert_eq!(name, Krate(name.into()).name());

    let name = "a";
    assert_eq!(name, Krate(name.into()).name());

    let name = "krate_A_12";
    assert_eq!(name, Krate(name.into()).name());
}

#[test]
fn krate_name_round_trip() {
    for name in ["std", "core", "my_crate", "_x9"] {
        assert_eq!(Krate::new(name).unwrap().name(), name);
    }
}
