use cargo_intraconv::args::check_krate;

#[test]
fn test_check_krate() {
    assert_eq!(check_krate("regex"), Ok("regex".into()));
    assert_eq!(check_krate("regex_2"), Ok("regex_2".into()));

    assert!(check_krate("invalid-krate").is_err());
    assert!(check_krate("0invalidkrate").is_err());
}

#[test]
fn check_krate_error_names_the_crate() {
    assert_eq!(
        check_krate("a-b"),
        Err("The passed crate identifier 'a-b' is not valid.\n".to_string())
    );
    assert_eq!(
        check_krate(""),
        Err("The passed crate identifier '' is not valid.\n".to_string())
    );
}
