//! The archive-naming protocol: backup file names are built from the game
//! name, the count of existing backups (zero-padded to three digits), and an
//! optional description; restore parses the index back out of a target name.

use crate::strutil::{
    second_component, spec_pad3, spec_second_component, spec_trim_end_non_digits,
    trim_end_non_digits, zero_pad3,
};
use vstd::prelude::*;

verus! {

/// The archive file name: `name-III.tar.zst`, or `name-III-desc.tar.zst`
/// with a description, the index zero-padded to at least three digits.
pub open spec fn spec_backup_file_name(
    name: Seq<char>,
    index: nat,
    desc: Option<Seq<char>>,
) -> Seq<char> {
    let base = name + seq!['-'] + spec_pad3(index);
    let with_desc = match desc {
        Some(d) => base + seq!['-'] + d,
        None => base,
    };
    with_desc + ".tar.zst"@
}

/// Builds the archive file name for one backup, per the naming protocol.
pub fn backup_file_name(name: &str, index: usize, desc: Option<&str>) -> (r: String)
    ensures
        r@ == spec_backup_file_name(
            name@,
            index as nat,
            match desc {
                Some(d) => Some(d@),
                None => None,
            },
        ),
{
    let mut s = name.to_owned();
    s.append("-");
    let pad = zero_pad3(index);
    s.append(pad.as_str());
    match desc {
        Some(d) => {
            s.append("-");
            s.append(d);
        },
        None => {},
    }
    s.append(".tar.zst");
    proof {
        reveal_strlit("-");
        assert(("-")@ =~= seq!['-']);
        assert(s@ =~= spec_backup_file_name(
            name@,
            index as nat,
            match desc {
                Some(d) => Some(d@),
                None => None::<Seq<char>>,
            },
        ));
    }
    s
}

/// The numeric index in a backup file name: the second `-`-separated
/// component with its trailing non-digit characters removed.
pub open spec fn spec_backup_index(target: Seq<char>) -> Option<Seq<char>> {
    match spec_second_component(target) {
        None => None,
        Some(c) => Some(spec_trim_end_non_digits(c)),
    }
}

/// Parses the numeric index out of a backup file name; nothing when the name
/// holds no `-`.
pub fn backup_index(target: &str) -> (r: Option<String>)
    ensures
        match r {
            Some(s) => spec_backup_index(target@) == Some(s@),
            None => spec_backup_index(target@) is None,
        },
{
    match second_component(target) {
        None => None,
        Some(c) => Some(trim_end_non_digits(c.as_str())),
    }
}

/// The safety snapshot's description: `replaced-with-` followed by the index
/// parsed from the target backup's name.
pub open spec fn spec_safety_desc(target: Seq<char>) -> Seq<char>
    recommends
        spec_backup_index(target) is Some,
{
    "replaced-with-"@ + spec_backup_index(target)->Some_0
}

/// Builds the safety snapshot's description from the target backup's name;
/// nothing when no index can be parsed out of it.
pub fn safety_desc(target: &str) -> (r: Option<String>)
    ensures
        match r {
            Some(s) => spec_backup_index(target@) is Some && s@ == spec_safety_desc(target@),
            None => spec_backup_index(target@) is None,
        },
{
    match backup_index(target) {
        None => None,
        Some(idx) => {
            let mut s = ("replaced-with-").to_owned();
            s.append(idx.as_str());
            Some(s)
        },
    }
}

} // verus!
