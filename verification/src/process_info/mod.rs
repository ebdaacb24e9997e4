//! What is read of a process: its start time, image path and owner.

use vstd::prelude::*;

use crate::text::{concat2, chars_of};

verus! {

/// A Windows `FILETIME`: a count of 100-nanosecond intervals since
/// 1601-01-01, in two 32-bit halves.
#[derive(Clone, Copy, Debug, PartialEq, Eq, Structural)]
pub struct FileTime {
    pub low: u32,
    pub high: u32,
}

/// The 64-bit count of a `FileTime`, read as a signed number.
pub open spec fn filetime_ticks(ft: FileTime) -> i64 {
    (ft.high as int * 0x1_0000_0000 + ft.low as int) as i64
}

/// The 64-bit count of a `FileTime` (the high half shifted left by 32, or'ed
/// with the low half), read as a signed number.
pub fn filetime_value(ft: FileTime) -> (v: i64)
    ensures
        v == filetime_ticks(ft),
{
    let high: u64 = ft.high as u64;
    let low: u64 = ft.low as u64;
    let combined: u64 = (high << 32u64) | low;
    assert(combined == high * 0x1_0000_0000 + low) by (bit_vector)
        requires
            high < 0x1_0000_0000,
            low < 0x1_0000_0000,
            combined == (high << 32u64) | low,
    ;
    combined as i64
}

/// The `FileTime` whose count, read as a signed number, is `ticks`: the
/// low and the high 32 bits.
pub fn filetime_from_ticks(ticks: i64) -> (ft: FileTime)
    ensures
        ft.low == (ticks as u64) % 0x1_0000_0000,
        ft.high == (ticks as u64) / 0x1_0000_0000,
{
    let bits: u64 = ticks as u64;
    let low: u32 = (bits & 0xFFFF_FFFFu64) as u32;
    let high: u32 = ((bits >> 32u64) & 0xFFFF_FFFFu64) as u32;
    assert(bits & 0xFFFF_FFFFu64 == bits % 0x1_0000_0000) by (bit_vector);
    assert((bits >> 32u64) & 0xFFFF_FFFFu64 == bits / 0x1_0000_0000) by (bit_vector);
    FileTime { low, high }
}

/// Splitting a start time into a `FileTime` and combining it again gives
/// it back, and so does combining a `FileTime` and splitting it again.
pub proof fn lemma_filetime_round_trip(ft: FileTime, ticks: i64)
    ensures
        filetime_ticks(FileTime {
            low: ((ticks as u64) % 0x1_0000_0000) as u32,
            high: ((ticks as u64) / 0x1_0000_0000) as u32,
        }) == ticks,
        ((filetime_ticks(ft) as u64) % 0x1_0000_0000) as u32 == ft.low,
        ((filetime_ticks(ft) as u64) / 0x1_0000_0000) as u32 == ft.high,
{
    let b: u64 = ticks as u64;
    assert(((b / 0x1_0000_0000) * 0x1_0000_0000 + b % 0x1_0000_0000) == b) by (nonlinear_arith);
    assert(((b / 0x1_0000_0000) as u32) as int == b / 0x1_0000_0000) by (nonlinear_arith);
    assert((ticks as u64) as i64 == ticks) by (bit_vector);
    let h: u64 = ft.high as u64;
    let l: u64 = ft.low as u64;
    assert(h * 0x1_0000_0000 + l < 0x1_0000_0000_0000_0000) by (nonlinear_arith)
        requires
            h < 0x1_0000_0000,
            l < 0x1_0000_0000,
    ;
    let v: u64 = (h * 0x1_0000_0000 + l) as u64;
    assert(((v as i64) as u64) == v) by (bit_vector);
    assert((v % 0x1_0000_0000) == l && (v / 0x1_0000_0000) == h) by (nonlinear_arith)
        requires
            v == h * 0x1_0000_0000 + l,
            l < 0x1_0000_0000,
    ;
}

/// What could be read of a process; each part is `None` when it could not.
#[derive(Debug, Clone)]
pub struct ProcessSnapshot {
    /// The full path of the executable.
    pub image_path: Option<String>,
    /// The owner's SID, such as `S-1-5-18`.
    pub user_sid: Option<String>,
    /// The owner's account, such as `NT AUTHORITY\SYSTEM`.
    pub user_account: Option<String>,
}

/// The account name made of a domain and a user name: `domain\name`, or
/// `name` alone when the domain is empty.
pub open spec fn account_text(domain: Seq<char>, name: Seq<char>) -> Seq<char> {
    if domain.len() == 0 {
        name
    } else {
        domain + seq!['\\'] + name
    }
}

/// The account name made of a domain and a user name: `domain\name`, or
/// `name` alone when the domain is empty.
pub fn account_name(domain: &str, name: &str) -> (s: String)
    ensures
        s@ == account_text(domain@, name@),
{
    let d = chars_of(domain);
    if d.len() == 0 {
        String::from_str(name)
    } else {
        let mut s = concat2(domain, "\\");
        s.append(name);
        proof {
            reveal_strlit("\\");
        }
        assert(s@ =~= domain@ + seq!['\\'] + name@);
        s
    }
}

} // verus!
