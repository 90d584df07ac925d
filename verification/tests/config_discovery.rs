use mowz::config_discovery::{find, DirPath, InspectError};

fn dir(parts: &[&str]) -> DirPath {
    DirPath { components: parts.iter().map(|p| p.as_bytes().to_vec()).collect() }
}

fn holding(configs: Vec<DirPath>) -> impl Fn(&DirPath) -> Result<bool, String> {
    move |d: &DirPath| Ok(configs.iter().any(|c| c == d))
}

#[test]
fn finds_config_in_starting_directory() {
    let probe = holding(vec![dir(&["tmp", "a"])]);
    assert_eq!(find(dir(&["tmp", "a"]), None, &probe), Ok(Some(dir(&["tmp", "a"]))));
}

#[test]
fn finds_config_in_parent_directory() {
    let probe = holding(vec![dir(&["tmp", "a"])]);
    assert_eq!(find(dir(&["tmp", "a", "project", "src"]), None, &probe), Ok(Some(dir(&["tmp", "a"]))));
}

#[test]
fn nearest_config_wins() {
    let probe = holding(vec![dir(&["tmp", "a"]), dir(&["tmp", "a", "project"])]);
    assert_eq!(find(dir(&["tmp", "a", "project"]), None, &probe), Ok(Some(dir(&["tmp", "a", "project"]))));
}

#[test]
fn home_is_a_boundary_not_a_candidate() {
    let home = dir(&["home", "me"]);
    let probe = holding(vec![dir(&["home", "me"])]);
    assert_eq!(find(dir(&["home", "me", "project"]), Some(&home), &probe), Ok(None));
    assert_eq!(find(dir(&["home", "me"]), Some(&home), &probe), Ok(None));
}

#[test]
fn returns_none_when_no_config_exists() {
    let home = dir(&["tmp", "a"]);
    let probe = holding(vec![]);
    assert_eq!(find(dir(&["tmp", "a", "project"]), Some(&home), &probe), Ok(None));
}

#[test]
fn searches_to_the_root_outside_home() {
    let home = dir(&["home", "me"]);
    let probe = holding(vec![dir(&[])]);
    assert_eq!(find(dir(&["srv", "app"]), Some(&home), &probe), Ok(Some(dir(&[]))));
    assert_eq!(find(dir(&["srv", "app"]), Some(&home), &holding(vec![])), Ok(None));
}

#[test]
fn reports_the_directory_that_could_not_be_inspected() {
    let probe = |d: &DirPath| if d.components.len() == 1 { Err("permission denied".to_owned()) } else { Ok(false) };
    assert_eq!(
        find(dir(&["srv", "app"]), None, &probe),
        Err(InspectError { dir: dir(&["srv"]), detail: "permission denied".to_owned() })
    );
}
