//! The names of the processes that are never terminated, whatever else is
//! known of them: the kernel, session and security subsystems of Windows.
//!
//! Names are compared without regard to ASCII case, as the Win32 file system
//! does: the Restart Manager reports them in different cases on different
//! versions of Windows.

use vstd::prelude::*;
use crate::text::chars_of;

verus! {

/// The system process names.
pub const BLACKLIST: [&'static str; 10] = [
    "smss.exe",
    "csrss.exe",
    "wininit.exe",
    "winlogon.exe",
    "services.exe",
    "lsass.exe",
    "lsm.exe",
    "svchost.exe",
    "Registry",
    "MemCompression",
];

/// `c` with an upper-case ASCII letter turned to lower case.
pub open spec fn ascii_lower(c: char) -> char {
    if 'A' <= c && c <= 'Z' {
        ((c as u32) + 32) as char
    } else {
        c
    }
}

/// Whether `a` and `b` are equal without regard to ASCII case.
pub open spec fn eq_ignore_ascii_case(a: Seq<char>, b: Seq<char>) -> bool {
    a.len() == b.len() && forall|i: int| 0 <= i < a.len() ==> ascii_lower(a[i]) == ascii_lower(b[i])
}

/// Whether `name` is one of the system process names, without regard to
/// ASCII case.
pub open spec fn blacklisted(name: Seq<char>) -> bool {
    exists|i: int| 0 <= i < 10 && eq_ignore_ascii_case(BLACKLIST@[i]@, name)
}

fn lower_char(c: char) -> (r: char)
    ensures
        r == ascii_lower(c),
{
    if 'A' <= c && c <= 'Z' {
        let b: u8 = c as u8;
        ((b + 32) as char)
    } else {
        c
    }
}

fn eq_ignore_case(a: &str, b: &str) -> (r: bool)
    ensures
        r == eq_ignore_ascii_case(a@, b@),
{
    let x = chars_of(a);
    let y = chars_of(b);
    if x.len() != y.len() {
        return false;
    }
    let mut i: usize = 0;
    while i < x.len()
        invariant
            x@ == a@,
            y@ == b@,
            x@.len() == y@.len(),
            i <= x@.len(),
            forall|k: int| 0 <= k < i ==> ascii_lower(x@[k]) == ascii_lower(y@[k]),
        decreases x@.len() - i,
    {
        if lower_char(x[i]) != lower_char(y[i]) {
            return false;
        }
        i = i + 1;
    }
    true
}

/// Whether `name` is one of the system process names, without regard to
/// ASCII case (`"SVCHOST.EXE"` is `"svchost.exe"`).
pub fn is_blacklisted(name: &str) -> (b: bool)
    ensures
        b == blacklisted(name@),
{
    let mut i: usize = 0;
    while i < 10
        invariant
            i <= 10,
            forall|k: int| 0 <= k < i ==> !eq_ignore_ascii_case(BLACKLIST@[k]@, name@),
        decreases 10 - i,
    {
        if eq_ignore_case(BLACKLIST[i], name) {
            return true;
        }
        i = i + 1;
    }
    false
}

} // verus!
