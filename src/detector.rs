//! Move-file detection over a repository's recursive file tree.
use vstd::prelude::*;
use crate::fetch::{is_success_status, classify_status, ResponseClass};

verus! {

/// The extension of Move source files.
pub open spec fn move_suffix() -> Seq<char> {
    seq!['.', 'm', 'o', 'v', 'e']
}

/// `p` names a Move source file: it ends with `.move`.
pub open spec fn is_move_path(p: Seq<char>) -> bool {
    p.len() >= 5 && p.subrange(p.len() - 5, p.len() as int) == move_suffix()
}

/// Some entry of the tree has a path naming a Move source file.
pub open spec fn tree_has_move_path(entries: Seq<Option<String>>) -> bool {
    exists|i: int|
        0 <= i < entries.len() && (#[trigger] entries[i]) is Some && is_move_path(
            entries[i]->Some_0@,
        )
}

/// The verdict on a tree lookup that received `status` and, where the body
/// was readable as a tree, its entry paths.
pub open spec fn tree_verdict(status: u16, entries: Option<Vec<Option<String>>>) -> bool {
    is_success_status(status) && entries is Some && tree_has_move_path(entries->Some_0@)
}

/// Whether `path` names a Move source file.
pub fn path_is_move(path: &String) -> (r: bool)
    ensures
        r == is_move_path(path@),
{
    let s = path.as_str();
    let n = s.unicode_len();
    if n < 5 {
        return false;
    }
    let ok = s.get_char(n - 5) == '.' && s.get_char(n - 4) == 'm' && s.get_char(n - 3) == 'o'
        && s.get_char(n - 2) == 'v' && s.get_char(n - 1) == 'e';
    proof {
        let tail = path@.subrange(n - 5, n as int);
        if ok {
            assert(tail =~= move_suffix());
        } else {
            if tail == move_suffix() {
                assert(tail[0] == '.' && tail[1] == 'm' && tail[2] == 'o');
                assert(tail[3] == 'v' && tail[4] == 'e');
            }
        }
    }
    ok
}

/// Whether any of the tree's entry paths names a Move source file; an
/// entry without a path names none.
pub fn any_move_path(entries: &Vec<Option<String>>) -> (r: bool)
    ensures
        r == tree_has_move_path(entries@),
{
    let mut k: usize = 0;
    while k < entries.len()
        invariant
            k <= entries@.len(),
            forall|i: int|
                0 <= i < k ==> !((#[trigger] entries@[i]) is Some && is_move_path(
                    entries@[i]->Some_0@,
                )),
        decreases entries@.len() - k,
    {
        match &entries[k] {
            Some(p) => {
                if path_is_move(p) {
                    return true;
                }
            },
            None => {},
        }
        k = k + 1;
    }
    false
}

/// The detector's verdict on one tree lookup: the status it received and
/// the entry paths, or `None` where the body could not be read as a tree.
/// Anything but a readable successful answer counts as no Move file: the
/// verdict is never an error.
pub fn tree_has_move_files(status: u16, entries: &Option<Vec<Option<String>>>) -> (r: bool)
    ensures
        r == tree_verdict(status, *entries),
{
    match classify_status(status) {
        ResponseClass::Success => match entries {
            Some(v) => any_move_path(v),
            None => false,
        },
        _ => false,
    }
}

} // verus!
