//! Names and places of snapshots on disk.
use chrono::{Datelike, Timelike};
use vstd::prelude::*;

use crate::resolver::{join_chars, join_path};
use crate::text::{chars_of, decimal, decimal_chars, digit, digit_char, extend_chars, string_of};

verus! {

/// What `char::is_alphanumeric` says of a character (Unicode's alphabetic or numeric).
pub uninterp spec fn is_alphanumeric(c: char) -> bool;

/// Relies on `char::is_alphanumeric`.
#[verifier::external_body]
fn char_is_alphanumeric(c: char) -> (r: bool)
    ensures
        r == is_alphanumeric(c),
{
    c.is_alphanumeric()
}

/// The character that stands for `c` in a sanitized title name.
pub open spec fn sanitized_char_of(c: char, alphanumeric: bool) -> char {
    if alphanumeric || c == ' ' {
        c
    } else {
        '_'
    }
}

/// A title name with every character that is neither alphanumeric nor a space replaced by `_`.
pub open spec fn sanitized(name: Seq<char>) -> Seq<char> {
    name.map_values(|c: char| sanitized_char_of(c, is_alphanumeric(c)))
}

/// The character that stands for `c` in a sanitized name, given whether `c` is alphanumeric.
pub fn sanitize_char(c: char, alphanumeric: bool) -> (r: char)
    ensures
        r == sanitized_char_of(c, alphanumeric),
{
    if alphanumeric || c == ' ' {
        c
    } else {
        '_'
    }
}

/// The directory name of a title's snapshots.
pub fn sanitize_name(name: &str) -> (r: String)
    ensures
        r@ == sanitized(name@),
{
    let s = chars_of(name);
    let mut out: Vec<char> = Vec::new();
    let mut i: usize = 0;
    while i < s.len()
        invariant
            i <= s.len(),
            out@ == sanitized(s@).take(i as int),
        decreases s.len() - i,
    {
        let c = s[i];
        out.push(sanitize_char(c, char_is_alphanumeric(c)));
        i += 1;
        assert(out@ =~= sanitized(s@).take(i as int));
    }
    assert(out@ =~= sanitized(s@));
    string_of(&out)
}

/// A local date and time to the second.
#[derive(Clone, Copy, Debug, PartialEq, Eq, Structural)]
pub struct Timestamp {
    pub year: u32,
    pub month: u32,
    pub day: u32,
    pub hour: u32,
    pub minute: u32,
    pub second: u32,
}

impl Timestamp {
    /// Each field lies within the range that a four-digit year and the clock allow.
    pub open spec fn wf(self) -> bool {
        &&& self.year <= 9999
        &&& 1 <= self.month <= 12
        &&& 1 <= self.day <= 31
        &&& self.hour <= 23
        &&& self.minute <= 59
        &&& self.second <= 59
    }
}

/// Two decimal digits of `n`.
pub open spec fn two_digits(n: nat) -> Seq<char> {
    seq![digit_char((n / 10) % 10), digit_char(n % 10)]
}

/// Four decimal digits of `n`.
pub open spec fn four_digits(n: nat) -> Seq<char> {
    seq![digit_char((n / 1000) % 10), digit_char((n / 100) % 10)] + two_digits(n % 100)
}

/// `YYYY-MM-DD_HH-MM-SS`: fixed width, so names sort in time order.
pub open spec fn timestamp_text(t: Timestamp) -> Seq<char> {
    four_digits(t.year as nat) + seq!['-'] + two_digits(t.month as nat) + seq!['-'] + two_digits(
        t.day as nat,
    ) + seq!['_'] + two_digits(t.hour as nat) + seq!['-'] + two_digits(t.minute as nat) + seq![
        '-',
    ] + two_digits(t.second as nat)
}

fn push_two_digits(out: &mut Vec<char>, n: u32)
    ensures
        final(out)@ == old(out)@ + two_digits(n as nat),
{
    let n = n as u64;
    out.push(digit((n / 10) % 10));
    out.push(digit(n % 10));
    assert(final(out)@ =~= old(out)@ + two_digits(n as nat));
}

impl Timestamp {
    /// The timestamp in the fixed-width form `YYYY-MM-DD_HH-MM-SS`.
    pub fn format(&self) -> (r: String)
        ensures
            r@ == timestamp_text(*self),
    {
        let mut out: Vec<char> = Vec::new();
        let y = self.year as u64;
        out.push(digit((y / 1000) % 10));
        out.push(digit((y / 100) % 10));
        push_two_digits(&mut out, self.year % 100);
        out.push('-');
        push_two_digits(&mut out, self.month);
        out.push('-');
        push_two_digits(&mut out, self.day);
        out.push('_');
        push_two_digits(&mut out, self.hour);
        out.push('-');
        push_two_digits(&mut out, self.minute);
        out.push('-');
        push_two_digits(&mut out, self.second);
        assert(out@ =~= timestamp_text(*self));
        string_of(&out)
    }
}

/// Relies on `std::time::SystemTime::now` and `duration_since(UNIX_EPOCH)`: whole seconds
/// since 1970, or `None` where the system clock reads earlier.
#[verifier::external_body]
fn unix_seconds_now() -> (r: Option<u64>) {
    match std::time::SystemTime::now().duration_since(std::time::UNIX_EPOCH) {
        Ok(d) => Some(d.as_secs()),
        Err(_) => None,
    }
}

/// Relies on `chrono::DateTime::from_timestamp` and `with_timezone(&chrono::Local)`, read
/// through `Datelike` and `Timelike`: the local date and time `secs` seconds after 1970
/// (`None` beyond chrono's range), whose month, day, hour, minute and second lie in the
/// documented ranges. Where no local time type can be determined, chrono itself panics.
#[verifier::external_body]
fn local_parts_at(secs: i64) -> (r: Option<(i32, u32, u32, u32, u32, u32)>)
    ensures
        r matches Some(p) ==> 1 <= p.1 <= 12 && 1 <= p.2 <= 31 && p.3 <= 23 && p.4 <= 59 && p.5
            <= 59,
{
    match chrono::DateTime::from_timestamp(secs, 0) {
        Some(utc) => {
            let n = utc.with_timezone(&chrono::Local);
            Some((n.year(), n.month(), n.day(), n.hour(), n.minute(), n.second()))
        },
        None => None,
    }
}

impl Timestamp {
    /// The timestamp of the given local date and time, where its year has four digits.
    pub fn from_parts(year: i32, month: u32, day: u32, hour: u32, minute: u32, second: u32) -> (r:
        Option<Timestamp>)
        requires
            1 <= month <= 12,
            1 <= day <= 31,
            hour <= 23,
            minute <= 59,
            second <= 59,
        ensures
            (r is Some) == (0 <= year <= 9999),
            r matches Some(t) ==> t.wf() && t.year == year as u32 && t.month == month && t.day
                == day && t.hour == hour && t.minute == minute && t.second == second,
    {
        if year < 0 || year > 9999 {
            None
        } else {
            Some(Timestamp { year: year as u32, month, day, hour, minute, second })
        }
    }

    /// The local time now, to the second; `None` where the clock reads before 1970 or in a
    /// year that four digits cannot write.
    pub fn now() -> (r: Option<Timestamp>)
        ensures
            r matches Some(t) ==> t.wf(),
    {
        match unix_seconds_now() {
            Some(secs) => {
                if secs > i64::MAX as u64 {
                    return None;
                }
                match local_parts_at(secs as i64) {
                    Some((y, mo, d, h, mi, s)) => Timestamp::from_parts(y, mo, d, h, mi, s),
                    None => None,
                }
            },
            None => None,
        }
    }
}

/// Directory under the documents root that holds all snapshots.
pub open spec fn backups_dir(docs: Seq<char>) -> Seq<char> {
    join_path(docs, "SaveManagerBackups"@)
}

/// Directory of a title's snapshots.
pub open spec fn title_dir(docs: Seq<char>, title_name: Seq<char>) -> Seq<char> {
    join_path(backups_dir(docs), sanitized(title_name))
}

/// Directory of one snapshot.
pub open spec fn snapshot_dir(docs: Seq<char>, title_name: Seq<char>, stamp: Seq<char>) -> Seq<
    char,
> {
    join_path(title_dir(docs, title_name), stamp)
}

/// Archive file of one snapshot, beside its directory.
pub open spec fn archive_file(docs: Seq<char>, title_name: Seq<char>, stamp: Seq<char>) -> Seq<
    char,
> {
    join_path(title_dir(docs, title_name), stamp + ".zip"@)
}

/// The directory of all snapshots under the documents root `docs`.
pub fn backups_dir_path(docs: &str) -> (r: String)
    ensures
        r@ == backups_dir(docs@),
{
    string_of(&join_chars(&chars_of(docs), &chars_of("SaveManagerBackups")))
}

/// The directory of a title's snapshots under the documents root `docs`.
pub fn title_dir_path(docs: &str, title_name: &str) -> (r: String)
    ensures
        r@ == title_dir(docs@, title_name@),
{
    let base = join_chars(&chars_of(docs), &chars_of("SaveManagerBackups"));
    let name = chars_of(sanitize_name(title_name).as_str());
    string_of(&join_chars(&base, &name))
}

/// The directory of the snapshot `stamp` of a title.
pub fn snapshot_dir_path(docs: &str, title_name: &str, stamp: &str) -> (r: String)
    ensures
        r@ == snapshot_dir(docs@, title_name@, stamp@),
{
    let dir = chars_of(title_dir_path(docs, title_name).as_str());
    string_of(&join_chars(&dir, &chars_of(stamp)))
}

/// The archive file of the snapshot `stamp` of a title.
pub fn archive_file_path(docs: &str, title_name: &str, stamp: &str) -> (r: String)
    ensures
        r@ == archive_file(docs@, title_name@, stamp@),
{
    let dir = chars_of(title_dir_path(docs, title_name).as_str());
    let mut file = chars_of(stamp);
    extend_chars(&mut file, &chars_of(".zip"));
    string_of(&join_chars(&dir, &file))
}

/// Where in a snapshot a save source is stored.
#[derive(Clone, Copy, Debug, PartialEq, Eq, Structural)]
pub enum SourceSlot {
    /// The user's own override location.
    Custom,
    /// The manifest's location of the given position.
    Manifest(usize),
    /// The library's per-user cloud folder.
    Cloud,
}

/// Name of a slot's subdirectory within a snapshot.
pub open spec fn slot_name(slot: SourceSlot) -> Seq<char> {
    match slot {
        SourceSlot::Custom => "Custom_Saves"@,
        SourceSlot::Manifest(i) => "Game_Data_"@ + decimal(i as nat),
        SourceSlot::Cloud => "Steam_Cloud"@,
    }
}

impl SourceSlot {
    /// Name of the slot's subdirectory within a snapshot.
    pub fn dir_name(&self) -> (r: String)
        ensures
            r@ == slot_name(*self),
    {
        match self {
            SourceSlot::Custom => string_of(&chars_of("Custom_Saves")),
            SourceSlot::Manifest(i) => {
                let mut v = chars_of("Game_Data_");
                extend_chars(&mut v, &decimal_chars(*i as u64));
                string_of(&v)
            },
            SourceSlot::Cloud => string_of(&chars_of("Steam_Cloud")),
        }
    }
}

} // verus!
