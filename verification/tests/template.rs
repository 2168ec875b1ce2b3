use freshfetch::error::InfoError;
use freshfetch::template::{override_path, select, OverrideFile};

#[test]
fn the_override_lies_under_the_users_home() {
    assert_eq!(override_path("alice"), "/home/alice/.config/freshfetch/info.clml");
}

#[test]
fn without_a_user_name_the_path_is_still_formed() {
    assert_eq!(override_path(""), "/home//.config/freshfetch/info.clml");
}

#[test]
fn a_missing_override_gives_the_bundled_template() {
    assert_eq!(select(OverrideFile::Missing, "bundled"), Ok(String::from("bundled")));
}

#[test]
fn an_override_wins_over_the_bundled_template() {
    assert_eq!(
        select(OverrideFile::Contents(String::from("mine")), "bundled"),
        Ok(String::from("mine"))
    );
    assert_eq!(select(OverrideFile::Contents(String::new()), "bundled"), Ok(String::new()));
}

#[test]
fn an_unreadable_override_is_an_error_and_no_fallback() {
    let file = OverrideFile::Unreadable {
        path: String::from("/home/alice/.config/freshfetch/info.clml"),
        cause: String::from("permission denied"),
    };
    assert_eq!(
        select(file, "bundled"),
        Err(InfoError::Read {
            path: String::from("/home/alice/.config/freshfetch/info.clml"),
            cause: String::from("permission denied"),
        })
    );
}
