//! The values that listings are made of.

use vstd::prelude::*;
use vstd::string::StringExecFns;
use crate::decimal::{decimal, digit_char, format_u128};

verus! {

/// What kind of thing a listed entry is, by its extension alone.
#[derive(Debug, Clone, Copy, PartialEq, Eq, Structural)]
pub enum EntryType {
    Directory,
    Image,
    Video,
    Audio,
    Archive,
}

/// One entry of a listing.
#[derive(Debug)]
pub struct DirectoryEntry {
    /// The entry's own name.
    pub name: String,
    /// Its path relative to the media root, or inside its archive.
    pub path: String,
    pub entry_type: EntryType,
    /// Its size in bytes.
    pub size: u64,
}

/// What a `DirectoryEntry` stands for.
pub struct EntryModel {
    pub name: Seq<char>,
    pub path: Seq<char>,
    pub entry_type: EntryType,
    pub size: u64,
}

impl View for DirectoryEntry {
    type V = EntryModel;

    open spec fn view(&self) -> EntryModel {
        EntryModel {
            name: self.name@,
            path: self.path@,
            entry_type: self.entry_type,
            size: self.size,
        }
    }
}

/// What a vector of entries stands for.
pub open spec fn entries_view(entries: Seq<DirectoryEntry>) -> Seq<EntryModel> {
    entries.map_values(|e: DirectoryEntry| e@)
}

/// A directory, or an archive, as it is shown.
#[derive(Debug)]
pub struct DirectoryListing {
    pub current_path: String,
    pub parent_path: Option<String>,
    pub entries: Vec<DirectoryEntry>,
}

/// The index of the unit in which a size is written: bytes below 1024,
/// then KB, MB, GB, and TB from 1024 to the fourth on.
pub open spec fn unit_index(bytes: u64) -> int {
    if bytes < 1024 {
        0
    } else if bytes < 1048576 {
        1
    } else if bytes < 1073741824 {
        2
    } else if bytes < 1099511627776 {
        3
    } else {
        4
    }
}

/// The number of bytes in one unit.
pub open spec fn unit_size(index: int) -> int {
    if index == 0 {
        1
    } else if index == 1 {
        1024
    } else if index == 2 {
        1048576
    } else if index == 3 {
        1073741824
    } else {
        1099511627776
    }
}

/// The name of a unit.
pub open spec fn unit_name(index: int) -> Seq<char> {
    if index == 0 {
        "B"@
    } else if index == 1 {
        "KB"@
    } else if index == 2 {
        "MB"@
    } else if index == 3 {
        "GB"@
    } else {
        "TB"@
    }
}

/// `n / d` rounded to the nearest whole number, a tie to the even one.
pub open spec fn rounded_ratio(n: int, d: int) -> int {
    let q = n / d;
    let r = n % d;
    if 2 * r > d || (2 * r == d && q % 2 == 1) {
        q + 1
    } else {
        q
    }
}

/// The distance between neighbouring numbers that keep 53 significant
/// bits, at the size of `n`.
pub open spec fn precision_step(n: int) -> int
    decreases n,
{
    if n < 9007199254740992 {
        1
    } else {
        2 * precision_step(n / 2)
    }
}

/// A size as it is measured: kept to 53 significant bits, the nearest such
/// number, a tie to the even one. Sizes below 2 to the 53rd are exact.
pub open spec fn measured(bytes: u64) -> int {
    rounded_ratio(bytes as int, precision_step(bytes as int)) * precision_step(bytes as int)
}

/// The hundredths of its unit that a size is written with.
pub open spec fn hundredths(bytes: u64) -> int {
    rounded_ratio(measured(bytes) * 100, unit_size(unit_index(bytes)))
}

/// A size as text: the number of units with two decimals, a space, and the
/// unit; `0 B` for nothing.
pub open spec fn size_text(bytes: u64) -> Seq<char> {
    if bytes == 0 {
        "0 B"@
    } else {
        let h = hundredths(bytes);
        decimal((h / 100) as nat) + "."@ + seq![digit_char((h / 10) % 10), digit_char(h % 10)]
            + " "@ + unit_name(unit_index(bytes))
    }
}

/// Rounds `n / d` to the nearest whole number, a tie to the even one.
fn round_ratio(n: u128, d: u128) -> (q: u128)
    requires
        d > 0,
        n < u128::MAX,
    ensures
        q == rounded_ratio(n as int, d as int),
        q <= n / d + 1,
{
    let q = n / d;
    let r = n % d;
    assert(q <= n) by (nonlinear_arith)
        requires
            q == n / d,
            d > 0,
            n >= 0,
    ;
    if r > d - r || (r == d - r && q % 2 == 1) {
        q + 1
    } else {
        q
    }
}

/// A size as it is measured.
fn measure(bytes: u64) -> (m: u128)
    ensures
        m == measured(bytes),
        m <= 36893488147419103232,
{
    let mut step: u64 = 1;
    let mut rest: u64 = bytes;
    while rest >= 9007199254740992
        invariant
            1 <= step,
            step == 1 || step * 4503599627370496 <= bytes,
            rest * step <= bytes,
            precision_step(bytes as int) == step * precision_step(rest as int),
        decreases rest,
    {
        let ghost p = precision_step((rest / 2) as int);
        assert(precision_step(rest as int) == 2 * p);
        assert(step * 9007199254740992 <= bytes && (rest / 2) * (step * 2) <= bytes && step * (2
            * p) == (step * 2) * p) by (nonlinear_arith)
            requires
                1 <= step,
                rest * step <= bytes,
                rest >= 9007199254740992,
        ;
        rest = rest / 2;
        step = step * 2;
    }
    assert(precision_step(rest as int) == 1);
    assert(step <= 4096);
    let q = round_ratio(bytes as u128, step as u128);
    assert(q * step <= bytes + step) by (nonlinear_arith)
        requires
            q <= bytes / step + 1,
            1 <= step,
    ;
    q * (step as u128)
}

/// Writes a size in bytes as text in the largest fitting unit.
pub fn format_bytes(bytes: u64) -> (text: String)
    ensures
        text@ == size_text(bytes),
{
    if bytes == 0 {
        return "0 B".to_owned();
    }
    let (unit, name) = if bytes < 1024 {
        (1u128, "B")
    } else if bytes < 1048576 {
        (1024u128, "KB")
    } else if bytes < 1073741824 {
        (1048576u128, "MB")
    } else if bytes < 1099511627776 {
        (1073741824u128, "GB")
    } else {
        (1099511627776u128, "TB")
    };
    let m = measure(bytes);
    let h = round_ratio(m * 100, unit);
    let mut text = format_u128(h / 100);
    text.append(".");
    text.append(crate::decimal::digit_text(((h / 10) % 10) as u64));
    text.append(crate::decimal::digit_text((h % 10) as u64));
    text.append(" ");
    text.append(name);
    text
}

impl DirectoryEntry {
    /// The entry's size as text.
    pub fn formatted_size(&self) -> (text: String)
        ensures
            text@ == size_text(self.size),
    {
        format_bytes(self.size)
    }

    pub fn is_directory(&self) -> (r: bool)
        ensures
            r == (self.entry_type == EntryType::Directory),
    {
        matches!(self.entry_type, EntryType::Directory)
    }

    pub fn is_image(&self) -> (r: bool)
        ensures
            r == (self.entry_type == EntryType::Image),
    {
        matches!(self.entry_type, EntryType::Image)
    }

    pub fn is_video(&self) -> (r: bool)
        ensures
            r == (self.entry_type == EntryType::Video),
    {
        matches!(self.entry_type, EntryType::Video)
    }

    pub fn is_audio(&self) -> (r: bool)
        ensures
            r == (self.entry_type == EntryType::Audio),
    {
        matches!(self.entry_type, EntryType::Audio)
    }

    pub fn is_archive(&self) -> (r: bool)
        ensures
            r == (self.entry_type == EntryType::Archive),
    {
        matches!(self.entry_type, EntryType::Archive)
    }
}

} // verus!
