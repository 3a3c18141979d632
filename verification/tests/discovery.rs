use std::path::PathBuf;
use std::time::{Duration, SystemTime};

use pes_savefile::discovery::{is_account_folder, newest_first, save_layout, SavefileCandidate};
use pes_savefile::version::PesVersion;

fn candidate(name: &str, account: Option<&str>, secs: u64) -> SavefileCandidate {
    SavefileCandidate {
        path: PathBuf::from(name),
        account: account.map(|a| a.to_string()),
        modified: SystemTime::UNIX_EPOCH + Duration::from_secs(secs),
    }
}

#[test]
fn layouts_name_the_game_folders_and_files() {
    let pes15 = save_layout(PesVersion::Pes15);
    assert_eq!(pes15.game_folder, "Pro Evolution Soccer 2015");
    assert_eq!(pes15.file_name, "EDIT.bin");
    assert!(!pes15.account_folders);
    let pes18 = save_layout(PesVersion::Pes18);
    assert_eq!(pes18.game_folder, "PRO EVOLUTION SOCCER 2018");
    assert!(!pes18.account_folders);
    let pes21 = save_layout(PesVersion::Pes21);
    assert_eq!(pes21.game_folder, "eFootball PES 2021 SEASON UPDATE");
    assert_eq!(pes21.file_name, "EDIT00000000");
    assert!(pes21.account_folders);
}

#[test]
fn account_folders_are_eighteen_ascii_digits() {
    assert!(is_account_folder("111111111111111111"));
    assert!(is_account_folder("012345678901234567"));
    assert!(!is_account_folder("11111111111111111"));
    assert!(!is_account_folder("1111111111111111111"));
    assert!(!is_account_folder("11111111111111111a"));
    assert!(!is_account_folder(""));
}

#[test]
fn candidates_come_newest_first_and_ties_keep_their_order() {
    let found = vec![
        candidate("a", Some("111111111111111111"), 10),
        candidate("b", Some("222222222222222222"), 70),
        candidate("c", None, 10),
        candidate("d", None, 40),
    ];
    let keys: Vec<i128> = vec![10, 70, 10, 40];
    let listed = newest_first(found, &keys);
    let names: Vec<PathBuf> = listed.iter().map(|c| c.path.clone()).collect();
    assert_eq!(
        names,
        vec![PathBuf::from("b"), PathBuf::from("d"), PathBuf::from("a"), PathBuf::from("c")]
    );
    assert_eq!(listed[0].account.as_deref(), Some("222222222222222222"));
    assert_eq!(listed[0].modified, SystemTime::UNIX_EPOCH + Duration::from_secs(70));
}

#[test]
fn ordering_an_empty_list_gives_an_empty_list() {
    let listed = newest_first(Vec::new(), &[]);
    assert!(listed.is_empty());
}
