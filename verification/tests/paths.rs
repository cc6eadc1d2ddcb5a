use lkh::paths::{check_relative, parameter_path, PathError};

#[test]
fn a_file_below_the_directory_is_named_from_there() {
    assert_eq!(parameter_path("/foo/bar/baz", "/foo/bar"), Ok("baz".to_string()));
    assert_eq!(parameter_path("/work/data/pr2392.par", "/work"), Ok("data/pr2392.par".to_string()));
}

#[test]
fn a_file_beside_the_directory_is_reached_through_its_parent() {
    assert_eq!(parameter_path("/foo/bar/quux", "/foo/bar/baz"), Ok("../quux".to_string()));
    assert_eq!(parameter_path("/foo/bar", "/baz"), Ok("../foo/bar".to_string()));
}

#[test]
fn no_path_leads_from_an_absolute_directory_to_a_relative_file() {
    assert_eq!(parameter_path("foo/bar", "/baz"), Err(PathError::Unrelated));
}

#[test]
fn a_nul_character_is_refused() {
    assert_eq!(parameter_path("/foo/b\0r", "/foo"), Err(PathError::HoldsNul));
    assert_eq!(check_relative(Some("a\0".to_string())), Err(PathError::HoldsNul));
}

#[test]
fn a_checked_path_is_handed_back_as_it_is() {
    assert_eq!(check_relative(Some("data/a.par".to_string())), Ok("data/a.par".to_string()));
    assert_eq!(check_relative(Some(String::new())), Ok(String::new()));
    assert_eq!(check_relative(None), Err(PathError::Unrelated));
}
