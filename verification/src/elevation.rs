//! Running with administrator rights: what the request to restart the
//! program elevated leads to.

use vstd::prelude::*;

use crate::error::{AppError, message_or_fallback};

verus! {

/// `ERROR_CANCELLED`: the user declined the elevation prompt.
pub const ERROR_CANCELLED: u32 = 1223;

/// The outcome of asking the shell to start the program elevated, given
/// what the request returned (`Ok`, or the failing Win32 code):
/// - started: `Err(SelfExit)`, the current process should exit;
/// - declined by the user: `Ok(())`, nothing more happens;
/// - any other failure: `Err(Win32)` with the code and its description.
pub fn restart_outcome(shell: Result<(), u32>) -> (r: Result<(), AppError>)
    ensures
        match shell {
            Ok(_) => r == Err::<(), AppError>(AppError::SelfExit),
            Err(code) => if code == ERROR_CANCELLED {
                r == Ok::<(), AppError>(())
            } else {
                r matches Err(AppError::Win32(c, desc)) && c == code && desc@.len() > 0 && exists|
                    raw: Seq<char>,
                | desc@ == message_or_fallback(raw, code)
            },
        },
{
    match shell {
        Ok(()) => Err(AppError::SelfExit),
        Err(code) => {
            if code == ERROR_CANCELLED {
                Ok(())
            } else {
                Err(AppError::from_win32(code))
            }
        },
    }
}

/// The first Windows build that the inspector supports (10.0.17763,
/// version 1809).
pub const MIN_SUPPORTED_BUILD: u32 = 17763;

/// The value of the decimal digits `d` (code units `0` to `9`).
pub open spec fn digits_value(d: Seq<u16>) -> nat
    decreases d.len(),
{
    if d.len() == 0 {
        0
    } else {
        digits_value(d.drop_last()) * 10 + (d.last() - 48) as nat
    }
}

/// Whether every code unit of `d` is a decimal digit.
pub open spec fn all_digits(d: Seq<u16>) -> bool {
    forall|i: int| 0 <= i < d.len() ==> 48 <= #[trigger] d[i] <= 57
}

/// The number that `text` holds, as `str::parse::<u32>` reads it: an
/// optional `+` and at least one decimal digit, with a value that fits in 32
/// bits; `None` for anything else.
pub open spec fn parsed_u32(text: Seq<u16>) -> Option<u32> {
    let d = if text.len() > 0 && text[0] == 43 {
        text.skip(1)
    } else {
        text
    };
    if d.len() > 0 && all_digits(d) && digits_value(d) <= u32::MAX {
        Some(digits_value(d) as u32)
    } else {
        None
    }
}

/// The build number held in the registry value `CurrentBuildNumber`, a
/// NUL-terminated UTF-16 text: the number before the first NUL, when it is
/// one.
pub fn parse_build_number(units: &[u16]) -> (n: Option<u32>)
    ensures
        n == parsed_u32(crate::detector::restart_manager::before_nul(units@)),
{
    let ghost text = crate::detector::restart_manager::before_nul(units@);
    let mut end: usize = 0;
    while end < units.len() && units[end] != 0
        invariant
            end <= units@.len(),
            forall|i: int| 0 <= i < end ==> units@[i] != 0,
        decreases units@.len() - end,
    {
        end = end + 1;
    }
    proof {
        crate::detector::restart_manager::lemma_before_nul(units@, end as int);
    }
    let start: usize = if end > 0 && units[0] == 43 {
        1
    } else {
        0
    };
    let ghost d = if text.len() > 0 && text[0] == 43 {
        text.skip(1)
    } else {
        text
    };
    assert(d =~= units@.subrange(start as int, end as int));
    if start == end {
        return None;
    }
    let mut value: u64 = 0;
    let mut i: usize = start;
    assert(parsed_u32(text) == if d.len() > 0 && all_digits(d) && digits_value(d) <= u32::MAX {
        Some(digits_value(d) as u32)
    } else {
        None::<u32>
    });
    assert(units@.subrange(start as int, start as int) =~= Seq::<u16>::empty());
    while i < end
        invariant
            start <= i <= end <= units@.len(),
            start < end,
            d == units@.subrange(start as int, end as int),
            text == crate::detector::restart_manager::before_nul(units@),
            parsed_u32(text) == if d.len() > 0 && all_digits(d) && digits_value(d) <= u32::MAX {
                Some(digits_value(d) as u32)
            } else {
                None::<u32>
            },
            all_digits(units@.subrange(start as int, i as int)),
            value == digits_value(units@.subrange(start as int, i as int)),
            value <= u32::MAX,
        decreases end - i,
    {
        let u = units[i];
        if u < 48 || u > 57 {
            proof {
                assert(d[i - start] == u);
            }
            return None;
        }
        let next: u64 = value * 10 + (u - 48) as u64;
        proof {
            assert(units@.subrange(start as int, i + 1).drop_last() =~= units@.subrange(start as int, i as int));
        }
        if next > 4294967295 {
            proof {
                assert(d.take(i + 1 - start) =~= units@.subrange(start as int, i + 1));
                lemma_digits_grow(d, (i + 1 - start) as int);
            }
            return None;
        }
        value = next;
        i = i + 1;
    }
    assert(units@.subrange(start as int, i as int) =~= d);
    Some(value as u32)
}

/// The value of the digits never shrinks as digits are added.
proof fn lemma_digits_grow(d: Seq<u16>, k: int)
    requires
        0 <= k <= d.len(),
        all_digits(d.take(k)),
    ensures
        all_digits(d) ==> digits_value(d.take(k)) <= digits_value(d),
    decreases d.len() - k,
{
    if k < d.len() && all_digits(d) {
        lemma_digits_grow(d, k + 1);
        assert(d.take(k + 1).drop_last() =~= d.take(k));
    } else if k == d.len() {
        assert(d.take(k) =~= d);
    }
}

/// Whether the Windows build is supported: from 10.0.17763 on, and also
/// when the build could not be read (so that the inspector is not blocked
/// by a failed read).
pub fn build_supported(build: Option<u32>) -> (b: bool)
    ensures
        b == match build {
            Some(n) => n >= MIN_SUPPORTED_BUILD,
            None => true,
        },
{
    match build {
        Some(n) => n >= MIN_SUPPORTED_BUILD,
        None => true,
    }
}

} // verus!
