//! Savefile discovery data: the save always lives under the user's
//! **Documents** folder in a per-game KONAMI subfolder, never in the install
//! folder. The per-version layout is data (`save_layout`); an account folder
//! is named by 18 ASCII digits (`is_account_folder`).
use vstd::prelude::*;
use vstd::string::StringSliceAdditionalSpecFns;

use crate::version::PesVersion;

verus! {

#[verifier::external_type_specification]
#[verifier::external_body]
pub struct ExPathBuf(std::path::PathBuf);

#[verifier::external_type_specification]
#[verifier::external_body]
pub struct ExSystemTime(std::time::SystemTime);

/// `PathBuf::clone` (std): nothing is claimed of the copy it returns.
pub assume_specification[<std::path::PathBuf as std::clone::Clone>::clone](
    path: &std::path::PathBuf,
) -> std::path::PathBuf;

/// `SystemTime::clone` (std): nothing is claimed of the copy it returns.
pub assume_specification[<std::time::SystemTime as std::clone::Clone>::clone](
    time: &std::time::SystemTime,
) -> std::time::SystemTime;

/// One game version's layout under `{Documents}\KONAMI\`.
#[derive(Debug, Clone, Copy, PartialEq, Eq)]
pub struct SaveLayout {
    /// The per-game folder name under `KONAMI`.
    pub game_folder: &'static str,
    /// Whether an 18-digit account folder sits between the game folder and
    /// `save`.
    pub account_folders: bool,
    /// The save's file name inside `save`.
    pub file_name: &'static str,
}

/// A savefile that exists on disk.
#[derive(Debug, Clone, PartialEq)]
pub struct SavefileCandidate {
    /// The savefile's full path.
    pub path: std::path::PathBuf,
    /// The 18-digit account folder the save sits under (PES 19-21), else
    /// `None`.
    pub account: Option<String>,
    /// The file's modification time (what "newest" means to the caller).
    pub modified: std::time::SystemTime,
}

/// Whether `version`'s saves sit under an account folder (PES 19-21).
pub open spec fn has_account_folders(version: PesVersion) -> bool {
    match version {
        PesVersion::Pes19 | PesVersion::Pes20 | PesVersion::Pes21 => true,
        _ => false,
    }
}

/// The game folder name and layout for `version`.
pub fn save_layout(version: PesVersion) -> (layout: SaveLayout)
    ensures
        layout.account_folders == has_account_folders(version),
        layout.game_folder@ == match version {
            PesVersion::Pes15 => "Pro Evolution Soccer 2015"@,
            PesVersion::Pes16 => "Pro Evolution Soccer 2016"@,
            PesVersion::Pes17 => "Pro Evolution Soccer 2017"@,
            PesVersion::Pes18 => "PRO EVOLUTION SOCCER 2018"@,
            PesVersion::Pes19 => "PRO EVOLUTION SOCCER 2019"@,
            PesVersion::Pes20 => "eFootball PES 2020"@,
            PesVersion::Pes21 => "eFootball PES 2021 SEASON UPDATE"@,
        },
        layout.file_name@ == match version {
            PesVersion::Pes15 => "EDIT.bin"@,
            _ => "EDIT00000000"@,
        },
{
    let (game_folder, account_folders, file_name) = match version {
        PesVersion::Pes15 => ("Pro Evolution Soccer 2015", false, "EDIT.bin"),
        PesVersion::Pes16 => ("Pro Evolution Soccer 2016", false, "EDIT00000000"),
        PesVersion::Pes17 => ("Pro Evolution Soccer 2017", false, "EDIT00000000"),
        PesVersion::Pes18 => ("PRO EVOLUTION SOCCER 2018", false, "EDIT00000000"),
        PesVersion::Pes19 => ("PRO EVOLUTION SOCCER 2019", true, "EDIT00000000"),
        PesVersion::Pes20 => ("eFootball PES 2020", true, "EDIT00000000"),
        PesVersion::Pes21 => ("eFootball PES 2021 SEASON UPDATE", true, "EDIT00000000"),
    };
    SaveLayout { game_folder, account_folders, file_name }
}

/// `name` is an account folder's: exactly 18 bytes, every one an ASCII
/// digit.
pub open spec fn account_folder_name(name: Seq<u8>) -> bool {
    name.len() == 18 && forall|i: int| 0 <= i < name.len() ==> 48 <= #[trigger] name[i] <= 57
}

/// Whether a folder under the game folder is an account folder (PES 19-21
/// keep the save under one).
pub fn is_account_folder(name: &str) -> (b: bool)
    ensures
        b == account_folder_name(name.spec_bytes()),
{
    let bytes = name.as_bytes();
    if bytes.len() != 18 {
        return false;
    }
    let mut i: usize = 0;
    while i < bytes.len()
        invariant
            i <= bytes@.len(),
            bytes@ == name.spec_bytes(),
            bytes@.len() == 18,
            forall|j: int| 0 <= j < i ==> 48 <= #[trigger] bytes@[j] <= 57,
        decreases bytes@.len() - i,
    {
        if bytes[i] < 48 || bytes[i] > 57 {
            return false;
        }
        i = i + 1;
    }
    true
}

/// Of two candidates, given by their indices into `modified` (their
/// modification times), `a` is listed before `b`: it is newer, or as new and
/// found first.
pub open spec fn listed_before(modified: Seq<i128>, a: int, b: int) -> bool {
    modified[a] > modified[b] || (modified[a] == modified[b] && a < b)
}

/// `order` lists every index of `modified` once, newest first; of equally
/// new candidates the one found first comes first.
pub open spec fn newest_first_order(modified: Seq<i128>, order: Seq<int>) -> bool {
    &&& order.len() == modified.len()
    &&& forall|i: int| 0 <= i < order.len() ==> 0 <= #[trigger] order[i] < modified.len()
    &&& forall|i: int, j: int|
        0 <= i < j < order.len() ==> listed_before(modified, #[trigger] order[i], #[trigger] order[j])
}

/// The candidates newest first, `modified[k]` standing for the modification
/// time of `candidates[k]` (any measure that orders the times as the clock
/// does); equally new candidates keep the order in which they were found.
pub fn newest_first(candidates: Vec<SavefileCandidate>, modified: &[i128]) -> (listed: Vec<
    SavefileCandidate,
>)
    requires
        candidates.len() == modified.len(),
    ensures
        exists|order: Seq<int>|
            newest_first_order(modified@, order) && listed@ == order.map_values(
                |k: int| candidates@[k],
            ),
{
    let ghost orig = candidates@;
    let n = candidates.len();
    let mut rest = candidates;
    let mut listed: Vec<SavefileCandidate> = Vec::new();
    let mut keys: Vec<i128> = Vec::new();
    let ghost mut order: Seq<int> = Seq::empty();
    let mut idx: usize = 0;
    while idx < n
        invariant
            n == orig.len(),
            n == modified@.len(),
            idx <= n,
            rest@ == orig.skip(idx as int),
            order.len() == idx,
            listed@.len() == idx,
            keys@.len() == idx,
            forall|i: int| 0 <= i < idx ==> 0 <= #[trigger] order[i] < idx,
            forall|i: int| 0 <= i < idx ==> #[trigger] keys@[i] == modified@[order[i]],
            forall|i: int| 0 <= i < idx ==> #[trigger] listed@[i] == orig[order[i]],
            forall|i: int, j: int|
                0 <= i < j < idx ==> listed_before(modified@, #[trigger] order[i], #[trigger] order[j]),
        decreases n - idx,
    {
        assert(rest@.len() > 0);
        let item = rest.remove(0);
        assert(rest@ == orig.skip(idx + 1));
        let key = modified[idx];
        let mut p: usize = 0;
        while p < keys.len() && keys[p] >= key
            invariant
                p <= keys@.len(),
                forall|i: int| 0 <= i < p ==> #[trigger] keys@[i] >= key,
            decreases keys@.len() - p,
        {
            p = p + 1;
        }
        let ghost old_order = order;
        let ghost old_keys = keys@;
        let ghost old_listed = listed@;
        listed.insert(p, item);
        keys.insert(p, key);
        proof {
            order = old_order.insert(p as int, idx as int);
            assert forall|i: int, j: int| 0 <= i < j < idx + 1 implies listed_before(
                modified@,
                #[trigger] order[i],
                #[trigger] order[j],
            ) by {
                if j < p {
                    assert(order[i] == old_order[i] && order[j] == old_order[j]);
                } else if j == p {
                    assert(order[i] == old_order[i]);
                    assert(old_keys[i] >= key);
                } else if i > p {
                    assert(order[i] == old_order[i - 1] && order[j] == old_order[j - 1]);
                } else if i == p {
                    assert(old_keys[p as int] < key);
                    if j - 1 > p {
                        assert(listed_before(modified@, old_order[p as int], old_order[j - 1]));
                    }
                } else {
                    assert(order[i] == old_order[i] && order[j] == old_order[j - 1]);
                }
            }
            assert forall|i: int| 0 <= i < idx + 1 implies 0 <= #[trigger] order[i] < idx + 1 by {
                if i < p {
                } else if i > p {
                    assert(order[i] == old_order[i - 1]);
                }
            }
            assert forall|i: int| 0 <= i < idx + 1 implies #[trigger] keys@[i] == modified@[order[i]] by {
                if i > p {
                    assert(order[i] == old_order[i - 1]);
                }
            }
            assert forall|i: int| 0 <= i < idx + 1 implies #[trigger] listed@[i] == orig[order[i]] by {
                if i > p {
                    assert(order[i] == old_order[i - 1]);
                } else if i == p {
                    assert(item == orig[idx as int]);
                }
            }
        }
        idx = idx + 1;
    }
    proof {
        assert(newest_first_order(modified@, order));
        assert(listed@ == order.map_values(|k: int| orig[k]));
    }
    listed
}

} // verus!
