use bmm_lib::finder::get_installed_mods;
use bmm_lib::finder::remove_unexisting_paths;
use bmm_lib::smods_installer::get_available_versions;
use bmm_lib::smods_installer::get_latest_release;
use bmm_lib::smods_installer::is_loader_dir;
use bmm_lib::smods_installer::is_removed_on_uninstall;
use bmm_lib::smods_installer::sort_descending;
use bmm_lib::smods_installer::stable_versions;
use bmm_lib::smods_installer::ModType;
use bmm_lib::smods_installer::Release;

fn names(items: &[&str]) -> Vec<String> {
    items.iter().map(|s| s.to_string()).collect()
}

fn release(tag: &str, prerelease: bool) -> Release {
    Release { tag_name: tag.to_string(), prerelease }
}

#[test]
fn paths_that_are_not_there_are_removed() {
    let mut paths = names(&["/a", "/b", "/c", "/d"]);
    remove_unexisting_paths(&mut paths, &vec![true, false, true, false]);
    assert_eq!(paths, names(&["/a", "/c"]));
    let mut paths = names(&["/a", "/b", "/c"]);
    remove_unexisting_paths(&mut paths, &vec![false, true]);
    assert_eq!(paths, names(&["/b"]));
    let mut paths = names(&[]);
    remove_unexisting_paths(&mut paths, &vec![true]);
    assert_eq!(paths, names(&[]));
}

#[test]
fn injector_directories_are_no_mods() {
    let entries = names(&["/mods/Cryptid", "/mods/lovely", "/mods/.lovely", "/mods/Lovely", "/mods/x"]);
    assert_eq!(get_installed_mods(entries), names(&["/mods/Cryptid", "/mods/Lovely", "/mods/x"]));
    assert_eq!(get_installed_mods(vec![]), names(&[]));
}

#[test]
fn repositories_and_names() {
    assert_eq!(ModType::Steamodded.get_repo_url(), "Steamodded/smods");
    assert_eq!(ModType::Talisman.get_repo_url(), "MathIsFun0/Talisman");
    assert_eq!(ModType::Steamodded.name(), "Steamodded");
    assert_eq!(ModType::Talisman.name(), "Talisman");
}

#[test]
fn addresses() {
    assert_eq!(
        ModType::Steamodded.releases_url(),
        "https://api.github.com/repos/Steamodded/smods/releases"
    );
    assert_eq!(
        ModType::Talisman.repository_url(),
        "https://api.github.com/repos/MathIsFun0/Talisman"
    );
    assert_eq!(
        ModType::Talisman.tag_archive_url("v2.0"),
        "https://github.com/MathIsFun0/Talisman/archive/refs/tags/v2.0.zip"
    );
    assert_eq!(
        ModType::Steamodded.branch_archive_url("main"),
        "https://github.com/Steamodded/smods/archive/refs/heads/main.zip"
    );
}

#[test]
fn directories_of_an_installation() {
    assert_eq!(ModType::Steamodded.temp_dir_name(), "temp_smods");
    assert_eq!(ModType::Talisman.temp_dir_name(), "temp_talisman");
    assert_eq!(ModType::Steamodded.final_dir_name("Steamodded-smods-abc"), "Steamodded-smods-abc");
    assert_eq!(ModType::Talisman.final_dir_name("Talisman-1.0"), "Talisman");
}

#[test]
fn loaders_are_recognized_by_directory_name() {
    assert!(ModType::Steamodded.matches_dir("Steamodded-smods-1a2b"));
    assert!(!ModType::Steamodded.matches_dir("smods-1a2b"));
    assert!(ModType::Talisman.matches_dir("my-Talisman-copy"));
    assert!(!ModType::Talisman.matches_dir("talisman"));
    assert!(ModType::Steamodded.check_installation(&names(&["Cryptid", "Steamodded-smods-1"])));
    assert!(!ModType::Steamodded.check_installation(&names(&["Cryptid", "Talisman"])));
    assert!(ModType::Talisman.check_installation(&names(&["Cryptid", "Talisman"])));
    assert!(!ModType::Talisman.check_installation(&names(&[])));
}

#[test]
fn uninstall_removes_every_steamodded_directory() {
    assert!(is_removed_on_uninstall("Steamodded"));
    assert!(is_removed_on_uninstall("STEAMODDED-old"));
    assert!(is_removed_on_uninstall("smods-1.0"));
    assert!(is_removed_on_uninstall("Steamodded-smods-abc"));
    assert!(!is_removed_on_uninstall("Talisman"));
    assert!(!is_removed_on_uninstall("my-smods-"));
}

#[test]
fn loader_directories_are_told_by_name() {
    assert!(is_loader_dir("my-steamodded", "My-SteaModded"));
    assert!(is_loader_dir("smods-1", "smods-1"));
    assert!(is_loader_dir("x", "Steamodded-smods-1"));
    assert!(!is_loader_dir("steammodded", "Steamodded"));
    assert!(!is_loader_dir("a-smods-1", "a-smods-1"));
    assert!(!is_loader_dir("", ""));
}

#[test]
fn versions_are_stable_tags_in_descending_order() {
    let releases = vec![
        release("1.0.0", false),
        release("1.2.0-beta", true),
        release("1.1.0", false),
        release("0.9.9", false),
        release("1.1.0", false),
    ];
    assert_eq!(stable_versions(&releases), names(&["1.0.0", "1.1.0", "0.9.9", "1.1.0"]));
    assert_eq!(get_available_versions(&releases), names(&["1.1.0", "1.1.0", "1.0.0", "0.9.9"]));
    assert_eq!(get_available_versions(&vec![]), names(&[]));
    assert_eq!(sort_descending(names(&["a", "c", "b", ""])), names(&["c", "b", "a", ""]));
}

#[test]
fn latest_release_is_the_first_version() {
    assert_eq!(get_latest_release(&names(&["1.1.0", "1.0.0"])), Some("1.1.0".to_string()));
    assert_eq!(get_latest_release(&names(&[])), None);
}
