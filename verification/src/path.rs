//! The path of the file behind a region.
use vstd::prelude::*;
use vstd::string::*;
use crate::text::append_decimal;

verus! {

/// A relative name, looked up in a directory. An empty directory is the current one.
pub open spec fn joined(dir: Seq<char>, name: Seq<char>) -> Seq<char> {
    if dir.len() == 0 || dir.last() == '/' {
        dir + name
    } else {
        dir.push('/') + name
    }
}

/// The path of the file that the process with the given number creates in a directory.
pub open spec fn backing_path(dir: Seq<char>, pid: u32) -> Seq<char> {
    joined(dir, "uffd-test-"@ + crate::text::decimal(pid as nat))
}

/// No character of the text is NUL, which would end it early for the system.
pub open spec fn no_nul(text: Seq<char>) -> bool {
    forall|i: int| 0 <= i < text.len() ==> (#[trigger] text[i]) != '\0'
}

/// A decimal notation holds no NUL.
proof fn lemma_decimal_no_nul(n: nat)
    ensures
        no_nul(crate::text::decimal(n)),
    decreases n,
{
    if n >= 10 {
        lemma_decimal_no_nul(n / 10);
    }
}

/// The path of the file holds no NUL if the directory's does not.
pub proof fn lemma_backing_path_no_nul(dir: Seq<char>, pid: u32)
    requires
        no_nul(dir),
    ensures
        no_nul(backing_path(dir, pid)),
{
    lemma_decimal_no_nul(pid as nat);
    reveal_strlit("uffd-test-");
    assert(no_nul("uffd-test-"@));
}

/// Whether a path is non-empty and does not end in a separator.
fn needs_separator(dir: &str) -> (needed: bool)
    ensures
        needed <==> (dir@.len() != 0 && dir@.last() != '/'),
{
    let len: usize = dir.unicode_len();
    len != 0 && dir.get_char(len - 1) != '/'
}

/// The path of the file that the process with the given number creates in a directory.
pub fn backing_file(dir: &str, pid: u32) -> (path: String)
    ensures
        path@ == backing_path(dir@, pid),
{
    let mut path = dir.to_owned();
    if needs_separator(dir) {
        path.append("/");
        proof {
            reveal_strlit("/");
        }
        assert(path@ =~= dir@.push('/'));
    }
    path.append("uffd-test-");
    append_decimal(&mut path, pid as u64);
    assert(path@ =~= backing_path(dir@, pid));
    path
}

} // verus!
