//! The text that archive tools print: times as listings show them, the detail columns of a
//! verbose listing, escaped paths, and the entries read from a pair of listings.
use vstd::prelude::*;
use vstd::utf8::encode_scalar;
use crate::contents::ArchiveEntry;
use crate::entries::{
    archive_entry_has_unsafe_path, archive_entry_is_executable, archive_entry_is_hidden,
    spec_archive_entry_has_unsafe_path, spec_archive_entry_is_executable,
    spec_archive_entry_is_hidden,
};
use crate::formats::{extension_label, file_kind, spec_extension_label, spec_file_kind};
use crate::paths::{file_name, file_name_of};
use crate::text::{
    extend_str, is_blank, lines, lines_of, parse_u64, slice_chars, trim, trim_end_char,
    trim_end_char_chars, views, words, words_of,
    digit_value, from_utf8_lossy, push_utf8, utf8_lossy, chars_eq_str, chars_of, decimal, decimal2, parse_i32, parse_signed, parse_u32, parse_unsigned,
    push_decimal, push_decimal2, push_signed_decimal, signed_decimal, split_once,
    split_once_chars, string_of,
};

verus! {

// ---------------------------------------------------------------------------
// Times
// ---------------------------------------------------------------------------

/// The number of an English month abbreviation as listings print it (`Jan` is 1).
pub open spec fn month_number(m: Seq<char>) -> Option<nat> {
    if m == "Jan"@ {
        Some(1)
    } else if m == "Feb"@ {
        Some(2)
    } else if m == "Mar"@ {
        Some(3)
    } else if m == "Apr"@ {
        Some(4)
    } else if m == "May"@ {
        Some(5)
    } else if m == "Jun"@ {
        Some(6)
    } else if m == "Jul"@ {
        Some(7)
    } else if m == "Aug"@ {
        Some(8)
    } else if m == "Sep"@ {
        Some(9)
    } else if m == "Oct"@ {
        Some(10)
    } else if m == "Nov"@ {
        Some(11)
    } else if m == "Dec"@ {
        Some(12)
    } else {
        None
    }
}

/// The number of an English month abbreviation.
pub fn archive_month_number(value: &str) -> (r: Option<u32>)
    ensures
        match r {
            Some(n) => month_number(value@) == Some(n as nat),
            None => month_number(value@) is None,
        },
{
    let v = chars_of(value);
    if chars_eq_str(&v, "Jan") {
        Some(1)
    } else if chars_eq_str(&v, "Feb") {
        Some(2)
    } else if chars_eq_str(&v, "Mar") {
        Some(3)
    } else if chars_eq_str(&v, "Apr") {
        Some(4)
    } else if chars_eq_str(&v, "May") {
        Some(5)
    } else if chars_eq_str(&v, "Jun") {
        Some(6)
    } else if chars_eq_str(&v, "Jul") {
        Some(7)
    } else if chars_eq_str(&v, "Aug") {
        Some(8)
    } else if chars_eq_str(&v, "Sep") {
        Some(9)
    } else if chars_eq_str(&v, "Oct") {
        Some(10)
    } else if chars_eq_str(&v, "Nov") {
        Some(11)
    } else if chars_eq_str(&v, "Dec") {
        Some(12)
    } else {
        None
    }
}

/// Whether a word is an English month abbreviation.
pub fn is_archive_month(value: &str) -> (r: bool)
    ensures
        r == (month_number(value@) is Some),
{
    archive_month_number(value).is_some()
}

/// An `hour:minute` time: the text before and after the first colon, each a `u32`.
pub open spec fn spec_parse_hour_minute(value: Seq<char>) -> Option<(nat, nat)> {
    match split_once(value, ':') {
        Some((h, m)) => match (parse_unsigned(h, u32::MAX as nat), parse_unsigned(m, u32::MAX as nat)) {
            (Some(hv), Some(mv)) => Some((hv, mv)),
            _ => None,
        },
        None => None,
    }
}

/// An `hour:minute` time.
pub fn parse_hour_minute(value: &str) -> (r: Option<(u32, u32)>)
    ensures
        match r {
            Some((h, m)) => spec_parse_hour_minute(value@) == Some((h as nat, m as nat)),
            None => spec_parse_hour_minute(value@) is None,
        },
{
    let v = chars_of(value);
    match split_once_chars(&v, ':') {
        Some((h, m)) => match (parse_u32(&h), parse_u32(&m)) {
            (Some(hv), Some(mv)) => Some((hv, mv)),
            _ => None,
        },
        None => None,
    }
}

/// A date and time as the interface shows it: `<year>年<month>月<day>日 <hh>:<mm>`.
pub open spec fn time_label(year: int, month: nat, day: nat, hour: nat, minute: nat) -> Seq<char> {
    signed_decimal(year) + "年"@ + decimal(month) + "月"@ + decimal(day) + "日 "@ + decimal2(hour)
        + seq![':'] + decimal2(minute)
}

/// A date and time as the interface shows it.
pub fn format_time_label(year: i64, month: u64, day: u64, hour: u64, minute: u64) -> (r: String)
    ensures
        r@ == time_label(year as int, month as nat, day as nat, hour as nat, minute as nat),
{
    let mut v: Vec<char> = Vec::new();
    push_signed_decimal(&mut v, year);
    crate::text::extend_str(&mut v, "年");
    push_decimal(&mut v, month);
    crate::text::extend_str(&mut v, "月");
    push_decimal(&mut v, day);
    crate::text::extend_str(&mut v, "日 ");
    push_decimal2(&mut v, hour);
    v.push(':');
    push_decimal2(&mut v, minute);
    string_of(&v)
}

/// The time of a listing's line, from its month, day and year-or-time columns, when the
/// current year is `current_year`: an unknown month counts as January and an unreadable day as
/// the first; a time of day belongs to the current year, and a year without a time to
/// midnight (an unreadable year counts as the current one).
pub open spec fn spec_archive_listing_time_label(
    month: Seq<char>,
    day: Seq<char>,
    year_or_time: Seq<char>,
    current_year: int,
) -> Seq<char> {
    let m = match month_number(month) {
        Some(n) => n,
        None => 1,
    };
    let d = match parse_unsigned(day, u32::MAX as nat) {
        Some(n) => n,
        None => 1,
    };
    match spec_parse_hour_minute(year_or_time) {
        Some((h, mi)) => time_label(current_year, m, d, h, mi),
        None => {
            let y = match parse_signed(year_or_time, i32::MIN as int, i32::MAX as int) {
                Some(y) => y,
                None => current_year,
            };
            time_label(y, m, d, 0, 0)
        },
    }
}

/// The time of a listing's line when the current year is `current_year`.
pub fn archive_listing_time_label_in_year(
    month: &str,
    day: &str,
    year_or_time: &str,
    current_year: i32,
) -> (r: String)
    ensures
        r@ == spec_archive_listing_time_label(month@, day@, year_or_time@, current_year as int),
{
    let m = match archive_month_number(month) {
        Some(n) => n,
        None => 1,
    };
    let dc = chars_of(day);
    let d = match parse_u32(&dc) {
        Some(n) => n,
        None => 1,
    };
    if let Some((h, mi)) = parse_hour_minute(year_or_time) {
        return format_time_label(current_year as i64, m as u64, d as u64, h as u64, mi as u64);
    }
    let yc = chars_of(year_or_time);
    let y = match parse_i32(&yc) {
        Some(y) => y,
        None => current_year,
    };
    format_time_label(y as i64, m as u64, d as u64, 0, 0)
}

/// `chrono::Local::now().year()`: the current year in the machine's time zone. It depends on
/// the clock and the time zone, so nothing is stated of it.
#[verifier::external_body]
fn current_local_year() -> (r: i32) {
    chrono::Datelike::year(&chrono::Local::now())
}

/// The time of a listing's line, in the current year where the line leaves the year open.
pub fn archive_listing_time_label(month: &str, day: &str, year_or_time: &str) -> (r: String)
    ensures
        exists|y: i32| r@ == spec_archive_listing_time_label(month@, day@, year_or_time@, y as int),
{
    let y = current_local_year();
    archive_listing_time_label_in_year(month, day, year_or_time, y)
}

/// The calendar fields of a Unix time in the machine's time zone, as
/// `chrono::DateTime::from_timestamp(secs, 0)` turned to `Local` gives them: year, month
/// (1 to 12), day (1 to 31), hour (below 24) and minute (below 60); `None` only outside the
/// range of dates that chrono represents (years beyond about ±262,000), so a time within
/// ±8,000,000,000,000 seconds of 1970 always gives fields. Which fields come out depends on
/// the time zone, so nothing more is stated of them.
#[verifier::external_body]
fn local_date_time_fields(secs: i64) -> (r: Option<(i32, u32, u32, u32, u32)>)
    ensures
        match r {
            Some((_, mo, d, h, mi)) => 1 <= mo <= 12 && 1 <= d <= 31 && h < 24 && mi < 60,
            None => !(-8_000_000_000_000 <= secs <= 8_000_000_000_000),
        },
{
    let t = chrono::DateTime::from_timestamp(secs, 0)?;
    let l = t.with_timezone(&chrono::Local);
    Some((
        chrono::Datelike::year(&l),
        chrono::Datelike::month(&l),
        chrono::Datelike::day(&l),
        chrono::Timelike::hour(&l),
        chrono::Timelike::minute(&l),
    ))
}

/// A Unix time (in seconds) as the interface shows it, in the machine's time zone; `None`
/// outside the range of dates that chrono represents.
pub fn format_system_time(secs: i64) -> (r: Option<String>)
    ensures
        match r {
            Some(s) => exists|y: i32, mo: u32, d: u32, h: u32, mi: u32|
                1 <= mo <= 12 && 1 <= d <= 31 && h < 24 && mi < 60 && s@ == time_label(
                    y as int,
                    mo as nat,
                    d as nat,
                    h as nat,
                    mi as nat,
                ),
            None => !(-8_000_000_000_000 <= secs <= 8_000_000_000_000),
        },
{
    match local_date_time_fields(secs) {
        Some((y, mo, d, h, mi)) => Some(
            format_time_label(y as i64, mo as u64, d as u64, h as u64, mi as u64),
        ),
        None => None,
    }
}

// ---------------------------------------------------------------------------
// Escaped paths
// ---------------------------------------------------------------------------

pub open spec fn is_octal_digit(c: char) -> bool {
    '0' <= c <= '7'
}

/// The value of the three octal digits after the backslash at the start of `s`.
pub open spec fn octal_escape_value(s: Seq<char>) -> nat {
    64 * digit_value(s[1]) + 8 * digit_value(s[2]) + digit_value(s[3])
}

/// Whether `s` starts with an escaped byte: a backslash and three octal digits worth at most
/// 255.
pub open spec fn is_byte_escape(s: Seq<char>) -> bool {
    s.len() >= 4 && s[0] == '\\' && is_octal_digit(s[1]) && is_octal_digit(s[2]) && is_octal_digit(
        s[3],
    ) && octal_escape_value(s) <= 255
}

/// The bytes that a listed path stands for: each escaped byte is that byte, and every other
/// character (a backslash that starts no escaped byte among them) its UTF-8 encoding.
pub open spec fn listing_path_bytes(s: Seq<char>) -> Seq<u8>
    decreases s.len(),
{
    if s.len() == 0 {
        Seq::<u8>::empty()
    } else if is_byte_escape(s) {
        seq![octal_escape_value(s) as u8] + listing_path_bytes(s.skip(4))
    } else {
        encode_scalar(s[0] as u32) + listing_path_bytes(s.drop_first())
    }
}

/// A path as an archive listing prints it, decoded: escaped bytes put back, and the bytes read
/// as UTF-8; where they are valid UTF-8 that is the text they encode, and otherwise invalid
/// sequences are replaced (as `String::from_utf8_lossy` does).
pub open spec fn spec_decode_archive_listing_path(path: Seq<char>) -> Seq<char> {
    let b = listing_path_bytes(path);
    if vstd::utf8::valid_utf8(b) {
        vstd::utf8::decode_utf8(b)
    } else {
        utf8_lossy(b)
    }
}

fn octal_digit(c: char) -> (r: Option<u32>)
    ensures
        match r {
            Some(v) => is_octal_digit(c) && v == digit_value(c),
            None => !is_octal_digit(c),
        },
{
    if '0' <= c && c <= '7' {
        Some(c as u32 - 48)
    } else {
        None
    }
}

/// The bytes that a listed path stands for.
pub fn listing_path_bytes_of(s: &[char]) -> (r: Vec<u8>)
    ensures
        r@ == listing_path_bytes(s@),
{
    let mut bytes: Vec<u8> = Vec::new();
    let mut i: usize = 0;
    assert(s@.skip(0) == s@);
    while i < s.len()
        invariant
            i <= s.len(),
            bytes@ + listing_path_bytes(s@.skip(i as int)) == listing_path_bytes(s@),
        decreases s.len() - i,
    {
        let ghost rest = s@.skip(i as int);
        if s[i] == '\\' && s.len() - i >= 4 {
            let a = octal_digit(s[i + 1]);
            let b = octal_digit(s[i + 2]);
            let c = octal_digit(s[i + 3]);
            if let (Some(x), Some(y), Some(z)) = (a, b, c) {
                let v = 64 * x + 8 * y + z;
                if v <= 255 {
                    assert(rest[1] == s@[i + 1] && rest[2] == s@[i + 2] && rest[3] == s@[i + 3]);
                    assert(is_byte_escape(rest));
                    assert(rest.skip(4) == s@.skip(i + 4));
                    let ghost old_bytes = bytes@;
                    bytes.push(v as u8);
                    assert(bytes@ == old_bytes + seq![octal_escape_value(rest) as u8]);
                    assert(bytes@ + listing_path_bytes(s@.skip(i + 4)) == listing_path_bytes(s@));
                    i = i + 4;
                    continue;
                }
            }
        }
        proof {
            if is_byte_escape(rest) {
                assert(rest[1] == s@[i + 1] && rest[2] == s@[i + 2] && rest[3] == s@[i + 3]);
            }
            assert(rest.drop_first() == s@.skip(i + 1));
        }
        let ghost old_bytes = bytes@;
        push_utf8(&mut bytes, s[i]);
        assert(bytes@ + listing_path_bytes(s@.skip(i + 1)) == listing_path_bytes(s@)) by {
            assert(bytes@ == old_bytes + encode_scalar(s@[i as int] as u32));
        }
        i = i + 1;
    }
    assert(bytes@ + listing_path_bytes(s@.skip(s.len() as int)) == bytes@ + Seq::<u8>::empty());
    assert(bytes@ + Seq::<u8>::empty() == bytes@);
    bytes
}

proof fn lemma_plain_path_bytes(s: Seq<char>)
    requires
        !s.contains('\\'),
    ensures
        listing_path_bytes(s) == vstd::utf8::encode_utf8(s),
    decreases s.len(),
{
    if s.len() > 0 {
        assert(!s.drop_first().contains('\\')) by {
            if s.drop_first().contains('\\') {
                let k = choose|k: int| 0 <= k < s.drop_first().len() && s.drop_first()[k] == '\\';
                assert(s[k + 1] == '\\');
            }
        }
        assert(s[0] != '\\') by {
            if s[0] == '\\' {
                assert(s.contains('\\'));
            }
        }
        lemma_plain_path_bytes(s.drop_first());
    }
}

/// A path as an archive listing prints it, decoded. A path without a backslash escapes
/// nothing and comes back as it is; bytes that are not valid UTF-8 leave a replacement
/// character in it.
pub fn decode_archive_listing_path(path: &str) -> (r: String)
    ensures
        r@ == spec_decode_archive_listing_path(path@),
        !path@.contains('\\') ==> r@ == path@,
        !vstd::utf8::valid_utf8(listing_path_bytes(path@)) ==> r@.contains('\u{FFFD}'),
{
    let c = chars_of(path);
    let b = listing_path_bytes_of(&c);
    proof {
        if !path@.contains('\\') {
            lemma_plain_path_bytes(path@);
            vstd::utf8::encode_utf8_valid_utf8(path@);
            vstd::utf8::encode_utf8_decode_utf8(path@);
        }
    }
    from_utf8_lossy(&b)
}

// ---------------------------------------------------------------------------
// Verbose listings
// ---------------------------------------------------------------------------

/// The columns of a verbose listing's line that an entry takes: its permission string, its
/// size and its time.
#[derive(Debug)]
pub struct ArchiveListingDetail {
    pub permissions: String,
    pub size: u64,
    pub modified_label: String,
}

/// The index of the first of `parts`, from the `k`-th on, that is a month abbreviation, or -1.
pub open spec fn first_month_from(parts: Seq<Seq<char>>, k: int) -> int
    decreases parts.len() - k,
{
    if k < 0 || k >= parts.len() {
        -1
    } else if month_number(parts[k]) is Some {
        k
    } else {
        first_month_from(parts, k + 1)
    }
}

/// The detail of a verbose listing's line: its first word is the permission string; the
/// month abbreviation that comes first (not as the first word) starts the time columns
/// (month, day, year or time), and the word before it is the size (0 when unreadable). Without
/// such a month, or with fewer than two words after it, the size is 0 and the time `-`. An
/// empty line has none.
pub open spec fn spec_parse_archive_listing_detail(line: Seq<char>, current_year: int) -> Option<
    (Seq<char>, nat, Seq<char>),
> {
    let parts = words(line);
    if parts.len() == 0 {
        None
    } else {
        let di = first_month_from(parts, 0);
        if di < 1 || parts.len() <= di + 2 {
            Some((parts[0], 0nat, "-"@))
        } else {
            Some(
                (
                    parts[0],
                    match parse_unsigned(parts[di - 1], u64::MAX as nat) {
                        Some(v) => v,
                        None => 0nat,
                    },
                    spec_archive_listing_time_label(
                        parts[di],
                        parts[di + 1],
                        parts[di + 2],
                        current_year,
                    ),
                ),
            )
        }
    }
}

/// The view of a parsed detail.
pub open spec fn detail_view(d: Option<ArchiveListingDetail>) -> Option<(Seq<char>, nat, Seq<char>)> {
    match d {
        Some(x) => Some((x.permissions@, x.size as nat, x.modified_label@)),
        None => None,
    }
}

proof fn lemma_first_month_from_bounds(parts: Seq<Seq<char>>, k: int)
    requires
        0 <= k,
    ensures
        first_month_from(parts, k) == -1 || (k <= first_month_from(parts, k) < parts.len()),
    decreases parts.len() - k,
{
    if k < parts.len() && month_number(parts[k]) is None {
        lemma_first_month_from_bounds(parts, k + 1);
    }
}

/// The detail of a verbose listing's line when the current year is `current_year`.
pub fn parse_archive_listing_detail(line: &str, current_year: i32) -> (r: Option<ArchiveListingDetail>)
    ensures
        detail_view(r) == spec_parse_archive_listing_detail(line@, current_year as int),
{
    let lc = chars_of(line);
    let parts = words_of(&lc);
    let ghost pv = views(parts@);
    if parts.len() == 0 {
        return None;
    }
    let permissions = string_of(&parts[0]);
    let mut k: usize = 0;
    let mut di: Option<usize> = None;
    while k < parts.len()
        invariant
            k <= parts.len(),
            pv == views(parts@),
            di is None ==> first_month_from(pv, 0) == first_month_from(pv, k as int),
            di matches Some(d) ==> first_month_from(pv, 0) == d && d < parts.len(),
        decreases parts.len() - k,
    {
        if di.is_none() {
            let w = string_of(&parts[k]);
            if is_archive_month(w.as_str()) {
                di = Some(k);
            }
        }
        k = k + 1;
    }
    proof {
        lemma_first_month_from_bounds(pv, 0);
    }
    let d = match di {
        Some(d) => d,
        None => {
            return Some(ArchiveListingDetail { permissions, size: 0, modified_label: String::from_str("-") });
        },
    };
    if d < 1 || parts.len() - d <= 2 {
        return Some(ArchiveListingDetail { permissions, size: 0, modified_label: String::from_str("-") });
    }
    let size = match parse_u64(&parts[d - 1]) {
        Some(v) => v,
        None => 0,
    };
    let m = string_of(&parts[d]);
    let dd = string_of(&parts[d + 1]);
    let y = string_of(&parts[d + 2]);
    let label = archive_listing_time_label_in_year(m.as_str(), dd.as_str(), y.as_str(), current_year);
    Some(ArchiveListingDetail { permissions, size, modified_label: label })
}

/// `entry` is what a listing says of the path `path` (already decoded) with the detail
/// `detail`: its name is the last component of the path without trailing slashes; it is a
/// folder when its permissions start with `d` or its path ends with `/`; its kind, type label,
/// size, time and flags follow from these.
pub open spec fn listing_entry_matches(
    e: ArchiveEntry,
    path: Seq<char>,
    detail: Option<(Seq<char>, nat, Seq<char>)>,
) -> bool {
    let permissions = match detail {
        Some(d) => d.0,
        None => Seq::<char>::empty(),
    };
    let display = trim_end_char(path, '/');
    let name = match file_name(display) {
        Some(n) => n,
        None => display,
    };
    let is_folder = (permissions.len() > 0 && permissions[0] == 'd') || (path.len() > 0
        && path.last() == '/');
    &&& e.name@ == name
    &&& e.path@ == path
    &&& e.kind@ == if is_folder {
        "folder"@
    } else {
        spec_file_kind(name)
    }
    &&& e.type_label@ == if is_folder {
        "文件夹"@
    } else {
        spec_extension_label(name) + " 文件"@
    }
    &&& e.size == match detail {
        Some(d) => d.1,
        None => 0,
    }
    &&& e.modified_label@ == match detail {
        Some(d) => d.2,
        None => "-"@,
    }
    &&& e.crc is None
    &&& e.method is None
    &&& !e.is_encrypted
    &&& e.is_hidden == spec_archive_entry_is_hidden(display)
    &&& e.is_executable == (!is_folder && spec_archive_entry_is_executable(display, permissions))
    &&& e.is_unsafe_path == spec_archive_entry_has_unsafe_path(path)
}

/// The entry that a listing shows for `path` with the detail `detail`.
pub fn listing_entry(path: String, detail: &Option<ArchiveListingDetail>) -> (e: ArchiveEntry)
    ensures
        listing_entry_matches(e, path@, detail_view(*detail)),
{
    let permissions = match detail {
        Some(d) => chars_of(d.permissions.as_str()),
        None => Vec::new(),
    };
    let pc = chars_of(path.as_str());
    let display = trim_end_char_chars(&pc, '/');
    let name = match file_name_of(&display) {
        Some(n) => n,
        None => slice_chars(&display, 0, display.len()),
    };
    assert(name@ == match file_name(display@) {
        Some(n) => n,
        None => display@,
    });
    let ds = string_of(&display);
    let ns = string_of(&name);
    let is_folder = (permissions.len() > 0 && permissions[0] == 'd') || (pc.len() > 0 && pc[pc.len()
        - 1] == '/');
    let kind = if is_folder {
        String::from_str("folder")
    } else {
        file_kind(ns.as_str())
    };
    let type_label = if is_folder {
        String::from_str("文件夹")
    } else {
        let mut t = chars_of(extension_label(ns.as_str()).as_str());
        extend_str(&mut t, " 文件");
        string_of(&t)
    };
    let ps = string_of(&permissions);
    let is_hidden = archive_entry_is_hidden(ds.as_str());
    let is_executable = !is_folder && archive_entry_is_executable(ds.as_str(), ps.as_str());
    let is_unsafe_path = archive_entry_has_unsafe_path(path.as_str());
    let (size, modified_label) = match detail {
        Some(d) => (d.size, d.modified_label.clone()),
        None => (0, String::from_str("-")),
    };
    ArchiveEntry {
        name: ns,
        path,
        kind,
        type_label,
        size,
        modified_label,
        crc: None,
        method: None,
        is_encrypted: false,
        is_hidden,
        is_executable,
        is_unsafe_path,
    }
}

/// The detail of the `i`-th line of a verbose listing, when there is such a line.
pub open spec fn listing_detail_at(detail_output: Seq<char>, i: int, current_year: int) -> Option<
    (Seq<char>, nat, Seq<char>),
> {
    let dl = lines(detail_output);
    if 0 <= i < dl.len() {
        spec_parse_archive_listing_detail(dl[i], current_year)
    } else {
        None
    }
}

/// The entries among the first `n` lines of a path listing: for each line whose decoded path
/// (without trailing carriage returns) is not blank, its index and that path, in order.
pub open spec fn listing_rows(path_lines: Seq<Seq<char>>, n: int) -> Seq<(int, Seq<char>)>
    decreases n,
{
    if n <= 0 {
        Seq::<(int, Seq<char>)>::empty()
    } else {
        let p = spec_decode_archive_listing_path(trim_end_char(path_lines[n - 1], '\r'));
        if trim(p).len() > 0 {
            listing_rows(path_lines, n - 1).push((n - 1, p))
        } else {
            listing_rows(path_lines, n - 1)
        }
    }
}

/// The entries of an archive read from its path listing and, line for line, its verbose
/// listing, when the current year is `current_year`.
pub open spec fn listing_matches(
    r: Seq<ArchiveEntry>,
    path_output: Seq<char>,
    detail_output: Seq<char>,
    current_year: int,
) -> bool {
    let rows = listing_rows(lines(path_output), lines(path_output).len() as int);
    &&& r.len() == rows.len()
    &&& forall|k: int|
        0 <= k < r.len() ==> listing_entry_matches(
            #[trigger] r[k],
            rows[k].1,
            listing_detail_at(detail_output, rows[k].0, current_year),
        )
}

/// The entries of an archive read from its listings when the current year is `current_year`.
pub fn parse_archive_listing_in_year(path_output: &str, detail_output: &str, current_year: i32) -> (r:
    Vec<ArchiveEntry>)
    ensures
        listing_matches(r@, path_output@, detail_output@, current_year as int),
{
    let dc = chars_of(detail_output);
    let dls = lines_of(&dc);
    let pc = chars_of(path_output);
    let pls = lines_of(&pc);
    let ghost pl = lines(path_output@);
    let mut r: Vec<ArchiveEntry> = Vec::new();
    let mut i: usize = 0;
    while i < pls.len()
        invariant
            i <= pls.len(),
            views(pls@) == pl,
            pl == lines(path_output@),
            views(dls@) == lines(detail_output@),
            r@.len() == listing_rows(pl, i as int).len(),
            forall|k: int|
                0 <= k < r@.len() ==> listing_entry_matches(
                    #[trigger] r@[k],
                    listing_rows(pl, i as int)[k].1,
                    listing_detail_at(detail_output@, listing_rows(pl, i as int)[k].0, current_year as int),
                ),
        decreases pls.len() - i,
    {
        let raw = trim_end_char_chars(&pls[i], '\r');
        let rs = string_of(&raw);
        let path = decode_archive_listing_path(rs.as_str());
        assert(pls@[i as int]@ == pl[i as int]);
        if !is_blank(path.as_str()) {
            let detail = if i < dls.len() {
                let ls = string_of(&dls[i]);
                assert(dls@[i as int]@ == lines(detail_output@)[i as int]);
                parse_archive_listing_detail(ls.as_str(), current_year)
            } else {
                None
            };
            let e = listing_entry(path, &detail);
            r.push(e);
        }
        i = i + 1;
    }
    r
}

/// The entries of an archive read from its path listing and its verbose listing.
pub fn parse_archive_listing(path_output: &str, detail_output: &str) -> (r: Vec<ArchiveEntry>)
    ensures
        exists|y: i32| listing_matches(r@, path_output@, detail_output@, y as int),
{
    let y = current_local_year();
    parse_archive_listing_in_year(path_output, detail_output, y)
}


// ---------------------------------------------------------------------------
// A single compressed stream
// ---------------------------------------------------------------------------

/// The one entry that a single compressed stream lists: the file it decompresses to, with the
/// compressed file's size and time, and the stream's format as its method.
pub open spec fn is_single_stream_entry(
    e: ArchiveEntry,
    path: Seq<char>,
    is_zip_container: bool,
    size: u64,
    modified_label: Seq<char>,
) -> bool {
    let n = crate::formats::spec_single_stream_output_name(path);
    &&& e.name@ == n
    &&& e.path@ == n
    &&& e.kind@ == spec_file_kind(n)
    &&& e.type_label@ == spec_extension_label(n) + " 文件"@
    &&& e.size == size
    &&& e.modified_label@ == modified_label
    &&& e.crc is None
    &&& e.method matches Some(m) && m@ == crate::formats::spec_archive_format(path, is_zip_container)
    &&& !e.is_encrypted
    &&& e.is_hidden == spec_archive_entry_is_hidden(n)
    &&& e.is_executable == spec_archive_entry_is_executable(n, Seq::<char>::empty())
    &&& e.is_unsafe_path == spec_archive_entry_has_unsafe_path(n)
}

/// The one entry that the single compressed stream at `path` lists; `size` and
/// `modified_label` are those of the compressed file.
pub fn single_stream_entry(path: &str, is_zip_container: bool, size: u64, modified_label: String) -> (e:
    ArchiveEntry)
    ensures
        is_single_stream_entry(e, path@, is_zip_container, size, modified_label@),
{
    let n = crate::formats::single_stream_output_name(path);
    let kind = file_kind(n.as_str());
    let mut t = chars_of(extension_label(n.as_str()).as_str());
    extend_str(&mut t, " 文件");
    let is_hidden = archive_entry_is_hidden(n.as_str());
    let is_executable = archive_entry_is_executable(n.as_str(), "");
    proof {
        reveal_strlit("");
        assert(""@ =~= Seq::<char>::empty());
    }
    let is_unsafe_path = archive_entry_has_unsafe_path(n.as_str());
    let method = crate::formats::archive_format(path, is_zip_container);
    ArchiveEntry {
        name: n.clone(),
        path: n,
        kind,
        type_label: string_of(&t),
        size,
        modified_label,
        crc: None,
        method: Some(method),
        is_encrypted: false,
        is_hidden,
        is_executable,
        is_unsafe_path,
    }
}

} // verus!
