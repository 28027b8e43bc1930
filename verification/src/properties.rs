//! Per-entry details that `zipinfo -v` reports (CRC, method, encryption) and the properties of
//! an archive summed up from its entries.
use vstd::prelude::*;
use crate::contents::ArchiveEntry;
use crate::text::{
    contains, contains_str, decimal, extend_chars, extend_str, insert_sorted, push_decimal,
    slice_chars, str_eq, strictly_sorted, ascii_lower_chars,
    copy_opt_string, opt_view, ascii_lower, ascii_upper, ascii_upper_chars, chars_eq, chars_eq_str, chars_of,
    eq_ignore_ascii_case, lines, lines_of, split_once, split_once_chars, starts_with,
    starts_with_str, string_of, trim, trim_chars, trim_end_char, trim_end_char_chars, views,
};

verus! {

/// What `zipinfo -v` reports of an entry.
#[derive(Debug)]
pub struct ArchiveEntryDetail {
    pub crc: Option<String>,
    pub method: Option<String>,
    pub is_encrypted: bool,
}

/// The view of an entry's detail: CRC, method and whether it is encrypted.
pub type DetailView = (Option<Seq<char>>, Option<Seq<char>>, bool);

pub open spec fn detail_view(d: ArchiveEntryDetail) -> DetailView {
    (opt_view(d.crc), opt_view(d.method), d.is_encrypted)
}

/// The details of a list of entries, by name.
pub open spec fn details_view(v: Seq<(String, ArchiveEntryDetail)>) -> Seq<(Seq<char>, DetailView)> {
    Seq::new(v.len(), |i: int| (v[i].0@, detail_view(v[i].1)))
}

/// The index of the first detail for the entry `name`, or -1.
pub open spec fn detail_index(ds: Seq<(Seq<char>, DetailView)>, name: Seq<char>) -> int
    decreases ds.len(),
{
    if ds.len() == 0 {
        -1
    } else if detail_index(ds.drop_last(), name) >= 0 {
        detail_index(ds.drop_last(), name)
    } else if ds.last().0 == name {
        ds.len() - 1
    } else {
        -1
    }
}

proof fn lemma_detail_index(ds: Seq<(Seq<char>, DetailView)>, name: Seq<char>)
    ensures
        -1 <= detail_index(ds, name) < ds.len(),
        detail_index(ds, name) >= 0 ==> ds[detail_index(ds, name)].0 == name,
        detail_index(ds, name) == -1 ==> forall|i: int| 0 <= i < ds.len() ==> #[trigger] ds[i].0 != name,
        detail_index(ds, name) >= 0 ==> forall|i: int|
            0 <= i < detail_index(ds, name) ==> #[trigger] ds[i].0 != name,
    decreases ds.len(),
{
    if ds.len() > 0 {
        let p = ds.drop_last();
        lemma_detail_index(p, name);
        assert forall|i: int| 0 <= i < p.len() implies #[trigger] ds[i] == p[i] by {}
        if detail_index(ds, name) == -1 {
            assert forall|i: int| 0 <= i < ds.len() implies #[trigger] ds[i].0 != name by {
                if i < p.len() {
                    assert(ds[i] == p[i]);
                }
            }
        }
        if detail_index(ds, name) >= 0 {
            assert forall|i: int| 0 <= i < detail_index(ds, name) implies #[trigger] ds[i].0 != name by {
                assert(ds[i] == p[i]);
            }
        }
    }
}

/// The details with one for `name` added (no CRC, no method, not encrypted) when there is none.
pub open spec fn ensure_detail(ds: Seq<(Seq<char>, DetailView)>, name: Seq<char>) -> Seq<
    (Seq<char>, DetailView),
> {
    if detail_index(ds, name) >= 0 {
        ds
    } else {
        ds.push((name, (None, None, false)))
    }
}

/// A detail after the line `label: value` of its entry.
pub open spec fn apply_detail_line(d: DetailView, label: Seq<char>, value: Seq<char>) -> DetailView {
    if label == "compression method"@ {
        (d.0, Some(value), d.2)
    } else if label == "file security status"@ {
        (d.0, d.1, ascii_lower(value) == ascii_lower("encrypted"@))
    } else if label == "32-bit CRC value (hex)"@ {
        (Some(ascii_upper(value)), d.1, d.2)
    } else {
        d
    }
}

/// Reading `zipinfo -v`: the entry being described (if any), whether its name is awaited,
/// and the details so far.
pub type ZipDetailState = (Option<Seq<char>>, bool, Seq<(Seq<char>, DetailView)>);

/// The reading after one more line: a `Central directory entry #` line starts an entry whose
/// name is the next line that is neither blank nor starts with `-` (trimmed, without trailing
/// slashes); after that, each `label: value` line (both trimmed) sets a detail of that entry.
pub open spec fn zip_detail_step(st: ZipDetailState, line: Seq<char>) -> ZipDetailState {
    let t = trim(line);
    if starts_with(t, "Central directory entry #"@) {
        (None, true, st.2)
    } else if st.1 {
        if t.len() == 0 || t[0] == '-' {
            st
        } else {
            let name = trim_end_char(t, '/');
            (Some(name), false, ensure_detail(st.2, name))
        }
    } else {
        match st.0 {
            None => st,
            Some(name) => match split_once(t, ':') {
                None => st,
                Some((label, value)) => {
                    let ds = ensure_detail(st.2, name);
                    let j = detail_index(ds, name);
                    (
                        st.0,
                        st.1,
                        ds.update(j, (name, apply_detail_line(ds[j].1, trim(label), trim(value)))),
                    )
                },
            },
        }
    }
}

/// The reading after the first `n` lines.
pub open spec fn zip_detail_fold(ls: Seq<Seq<char>>, n: int) -> ZipDetailState
    decreases n,
{
    if n <= 0 {
        (None, false, Seq::<(Seq<char>, DetailView)>::empty())
    } else {
        zip_detail_step(zip_detail_fold(ls, n - 1), ls[n - 1])
    }
}

/// The details that the output of `zipinfo -v` gives, by entry name, in the order the entries
/// come.
pub open spec fn spec_parse_zip_entry_details(output: Seq<char>) -> Seq<(Seq<char>, DetailView)> {
    zip_detail_fold(lines(output), lines(output).len() as int).2
}

fn find_detail(ds: &Vec<(String, ArchiveEntryDetail)>, name: &[char]) -> (r: Option<usize>)
    ensures
        match r {
            Some(j) => j as int == detail_index(details_view(ds@), name@) && j < ds@.len()
                && details_view(ds@)[j as int].0 == name@,
            None => detail_index(details_view(ds@), name@) == -1,
        },
{
    proof {
        lemma_detail_index(details_view(ds@), name@);
    }
    let mut j: usize = 0;
    while j < ds.len()
        invariant
            j <= ds.len(),
            forall|i: int| 0 <= i < j ==> #[trigger] details_view(ds@)[i].0 != name@,
            -1 <= detail_index(details_view(ds@), name@) < ds@.len(),
            detail_index(details_view(ds@), name@) >= 0 ==> details_view(ds@)[detail_index(
                details_view(ds@),
                name@,
            )].0 == name@,
            detail_index(details_view(ds@), name@) == -1 ==> forall|i: int|
                0 <= i < ds@.len() ==> #[trigger] details_view(ds@)[i].0 != name@,
            detail_index(details_view(ds@), name@) >= 0 ==> forall|i: int|
                0 <= i < detail_index(details_view(ds@), name@) ==> #[trigger] details_view(
                    ds@,
                )[i].0 != name@,
        decreases ds.len() - j,
    {
        let n = chars_of(ds[j].0.as_str());
        if chars_eq(&n, name) {
            assert(details_view(ds@)[j as int].0 == name@);
            return Some(j);
        }
        j = j + 1;
    }
    None
}

fn ensure_detail_of(ds: &mut Vec<(String, ArchiveEntryDetail)>, name: &[char]) -> (j: usize)
    ensures
        details_view(final(ds)@) == ensure_detail(details_view(old(ds)@), name@),
        j as int == detail_index(details_view(final(ds)@), name@),
        j < final(ds)@.len(),
        details_view(final(ds)@)[j as int].0 == name@,
{
    proof {
        lemma_detail_index(details_view(old(ds)@), name@);
    }
    match find_detail(ds, name) {
        Some(j) => j,
        None => {
            let ghost old_v = details_view(ds@);
            ds.push((string_of(name), ArchiveEntryDetail { crc: None, method: None, is_encrypted: false }));
            assert(details_view(ds@) =~= old_v.push((name@, (None, None, false))));
            proof {
                lemma_detail_index(details_view(ds@), name@);
                assert(details_view(ds@).drop_last() == old_v);
            }
            ds.len() - 1
        },
    }
}

/// The details that the output of `zipinfo -v` gives, by entry name.
pub fn parse_zip_entry_details(output: &str) -> (r: Vec<(String, ArchiveEntryDetail)>)
    ensures
        details_view(r@) == spec_parse_zip_entry_details(output@),
{
    let oc = chars_of(output);
    let ls = lines_of(&oc);
    let ghost lv = lines(output@);
    let mut ds: Vec<(String, ArchiveEntryDetail)> = Vec::new();
    let mut current: Option<Vec<char>> = None;
    let mut waiting = false;
    let mut i: usize = 0;
    assert(details_view(ds@) =~= Seq::<(Seq<char>, DetailView)>::empty());
    while i < ls.len()
        invariant
            i <= ls.len(),
            views(ls@) == lv,
            lv == lines(output@),
            zip_detail_fold(lv, i as int) == (
                match current {
                    Some(c) => Some(c@),
                    None => None::<Seq<char>>,
                },
                waiting,
                details_view(ds@),
            ),
        decreases ls.len() - i,
    {
        assert(ls@[i as int]@ == lv[i as int]);
        let t = trim_chars(&ls[i]);
        if starts_with_str(&t, "Central directory entry #") {
            current = None;
            waiting = true;
        } else if waiting {
            if t.len() == 0 || t[0] == '-' {
            } else {
                let name = trim_end_char_chars(&t, '/');
                let _ = ensure_detail_of(&mut ds, &name);
                current = Some(name);
                waiting = false;
            }
        } else {
            match &current {
                None => {},
                Some(name) => {
                    match split_once_chars(&t, ':') {
                        None => {},
                        Some((label, value)) => {
                            let j = ensure_detail_of(&mut ds, name);
                            let lt = trim_chars(&label);
                            let vt = trim_chars(&value);
                            let crc = copy_opt_string(&ds[j].1.crc);
                            let method = copy_opt_string(&ds[j].1.method);
                            let enc = ds[j].1.is_encrypted;
                            let d = if chars_eq_str(&lt, "compression method") {
                                ArchiveEntryDetail { crc, method: Some(string_of(&vt)), is_encrypted: enc }
                            } else if chars_eq_str(&lt, "file security status") {
                                ArchiveEntryDetail { crc, method, is_encrypted: eq_ignore_ascii_case(&vt, "encrypted") }
                            } else if chars_eq_str(&lt, "32-bit CRC value (hex)") {
                                let u = ascii_upper_chars(&vt);
                                ArchiveEntryDetail { crc: Some(string_of(&u)), method, is_encrypted: enc }
                            } else {
                                ArchiveEntryDetail { crc, method, is_encrypted: enc }
                            };
                            let ghost before = details_view(ds@);
                            assert(detail_view(d) == apply_detail_line(before[j as int].1, lt@, vt@));
                            let n = ds[j].0.clone();
                            ds.set(j, (n, d));
                            assert(details_view(ds@) =~= before.update(
                                j as int,
                                (name@, apply_detail_line(before[j as int].1, lt@, vt@)),
                            ));
                        },
                    }
                },
            }
        }
        i = i + 1;
    }
    ds
}

/// The entries with their details: each entry whose path, without trailing slashes, has a
/// detail takes its CRC, method and encryption from the first such detail.
pub open spec fn with_details(
    e: ArchiveEntry,
    old_e: ArchiveEntry,
    ds: Seq<(Seq<char>, DetailView)>,
) -> bool {
    let j = detail_index(ds, trim_end_char(old_e.path@, '/'));
    &&& e.name == old_e.name
    &&& e.path == old_e.path
    &&& e.kind == old_e.kind
    &&& e.type_label == old_e.type_label
    &&& e.size == old_e.size
    &&& e.modified_label == old_e.modified_label
    &&& e.is_hidden == old_e.is_hidden
    &&& e.is_executable == old_e.is_executable
    &&& e.is_unsafe_path == old_e.is_unsafe_path
    &&& if j >= 0 {
        opt_view(e.crc) == ds[j].1.0 && opt_view(e.method) == ds[j].1.1 && e.is_encrypted
            == ds[j].1.2
    } else {
        e.crc == old_e.crc && e.method == old_e.method && e.is_encrypted == old_e.is_encrypted
    }
}

/// Gives each entry the details reported for it.
pub fn apply_archive_entry_details(
    entries: &mut Vec<ArchiveEntry>,
    details: &Vec<(String, ArchiveEntryDetail)>,
)
    ensures
        final(entries)@.len() == old(entries)@.len(),
        forall|k: int|
            0 <= k < final(entries)@.len() ==> with_details(
                #[trigger] final(entries)@[k],
                old(entries)@[k],
                details_view(details@),
            ),
{
    let mut k: usize = 0;
    while k < entries.len()
        invariant
            k <= entries@.len(),
            entries@.len() == old(entries)@.len(),
            forall|t: int|
                0 <= t < k ==> with_details(
                    #[trigger] entries@[t],
                    old(entries)@[t],
                    details_view(details@),
                ),
            forall|t: int| k <= t < entries@.len() ==> #[trigger] entries@[t] == old(entries)@[t],
        decreases entries@.len() - k,
    {
        let pc = chars_of(entries[k].path.as_str());
        let key = trim_end_char_chars(&pc, '/');
        if let Some(j) = find_detail(details, &key) {
            let crc = copy_opt_string(&details[j].1.crc);
            let method = copy_opt_string(&details[j].1.method);
            let enc = details[j].1.is_encrypted;
            let old_e = &entries[k];
            let e = ArchiveEntry {
                name: old_e.name.clone(),
                path: old_e.path.clone(),
                kind: old_e.kind.clone(),
                type_label: old_e.type_label.clone(),
                size: old_e.size,
                modified_label: old_e.modified_label.clone(),
                crc,
                method,
                is_encrypted: enc,
                is_hidden: old_e.is_hidden,
                is_executable: old_e.is_executable,
                is_unsafe_path: old_e.is_unsafe_path,
            };
            entries.set(k, e);
        }
        k = k + 1;
    }
}

// ---------------------------------------------------------------------------
// Encryption
// ---------------------------------------------------------------------------

/// Whether a tool's error says that a password is wrong or missing: it mentions a password,
/// passphrase, decryption or encryption (in English, ignoring ASCII case, or in Chinese).
pub open spec fn spec_is_archive_password_error_message(message: Seq<char>) -> bool {
    let l = ascii_lower(message);
    contains(l, "password"@) || contains(l, "passphrase"@) || contains(l, "decrypt"@) || contains(
        l,
        "encrypted"@,
    ) || contains(message, "密码"@) || contains(message, "口令"@)
}

/// Whether a tool's error says that a password is wrong or missing.
pub fn is_archive_password_error_message(message: &str) -> (r: bool)
    ensures
        r == spec_is_archive_password_error_message(message@),
{
    let m = chars_of(message);
    let l = ascii_lower_chars(&m);
    contains_str(&l, "password") || contains_str(&l, "passphrase") || contains_str(&l, "decrypt")
        || contains_str(&l, "encrypted") || contains_str(&m, "密码") || contains_str(&m, "口令")
}

/// How to tell whether an archive is encrypted: known from its entries or the password, or to
/// be found by trying to read the entry at the given path.
#[derive(Debug)]
pub enum EncryptionCheck {
    Known(bool),
    Probe(String),
}

/// The first entry that is not a folder.
pub open spec fn first_file_entry(es: Seq<ArchiveEntry>) -> Option<ArchiveEntry>
    decreases es.len(),
{
    if es.len() == 0 {
        None
    } else if es[0].kind@ != "folder"@ {
        Some(es[0])
    } else {
        first_file_entry(es.drop_first())
    }
}

/// How to tell whether an archive is encrypted: it is when an entry is marked encrypted, or
/// when a password was given for a 7Z archive; it is not when it has no files or is a single
/// compressed stream; otherwise its first file is to be read.
pub open spec fn spec_encryption_check(
    entries: Seq<ArchiveEntry>,
    has_password: bool,
    archive_format: Seq<char>,
    is_single_stream: bool,
) -> Option<Result<bool, Seq<char>>> {
    if exists|i: int| 0 <= i < entries.len() && (#[trigger] entries[i]).is_encrypted {
        Some(Ok(true))
    } else if has_password && archive_format == "7Z"@ {
        Some(Ok(true))
    } else {
        match first_file_entry(entries) {
            None => Some(Ok(false)),
            Some(e) => if is_single_stream {
                Some(Ok(false))
            } else {
                Some(Err(e.path@))
            },
        }
    }
}

/// The view of an encryption check: `Ok` for a known answer, `Err` with the path to read.
pub open spec fn encryption_check_view(c: EncryptionCheck) -> Option<Result<bool, Seq<char>>> {
    match c {
        EncryptionCheck::Known(b) => Some(Ok(b)),
        EncryptionCheck::Probe(p) => Some(Err(p@)),
    }
}

/// How to tell whether an archive is encrypted.
pub fn encryption_check(
    entries: &[ArchiveEntry],
    has_password: bool,
    archive_format: &str,
    is_single_stream: bool,
) -> (r: EncryptionCheck)
    ensures
        encryption_check_view(r) == spec_encryption_check(
            entries@,
            has_password,
            archive_format@,
            is_single_stream,
        ),
{
    let mut i: usize = 0;
    while i < entries.len()
        invariant
            i <= entries.len(),
            forall|j: int| 0 <= j < i ==> !(#[trigger] entries@[j]).is_encrypted,
        decreases entries.len() - i,
    {
        if entries[i].is_encrypted {
            assert(entries@[i as int].is_encrypted);
            return EncryptionCheck::Known(true);
        }
        i = i + 1;
    }
    if has_password && str_eq(archive_format, "7Z") {
        return EncryptionCheck::Known(true);
    }
    let mut k: usize = 0;
    assert(entries@.skip(0) == entries@);
    while k < entries.len()
        invariant
            k <= entries.len(),
            forall|j: int| 0 <= j < entries@.len() ==> !(#[trigger] entries@[j]).is_encrypted,
            !(has_password && archive_format@ == "7Z"@),
            first_file_entry(entries@) == first_file_entry(entries@.skip(k as int)),
        decreases entries.len() - k,
    {
        assert(entries@.skip(k as int).drop_first() == entries@.skip(k + 1));
        assert(entries@.skip(k as int)[0] == entries@[k as int]);
        if !str_eq(entries[k].kind.as_str(), "folder") {
            if is_single_stream {
                return EncryptionCheck::Known(false);
            }
            return EncryptionCheck::Probe(entries[k].path.clone());
        }
        k = k + 1;
    }
    EncryptionCheck::Known(false)
}

// ---------------------------------------------------------------------------
// Properties
// ---------------------------------------------------------------------------

/// What an archive's entries add up to.
#[derive(Debug)]
pub struct ArchiveProperties {
    pub uncompressed_size: u64,
    pub method_summary: String,
    pub crc_available: bool,
    pub is_encrypted: bool,
    pub encrypted_count: usize,
}

/// The bytes of the entries that are files.
pub open spec fn file_bytes(es: Seq<ArchiveEntry>) -> nat
    decreases es.len(),
{
    if es.len() == 0 {
        0
    } else {
        file_bytes(es.drop_last()) + if es.last().kind@ != "folder"@ {
            es.last().size as nat
        } else {
            0
        }
    }
}

/// The number of files that are marked encrypted.
pub open spec fn encrypted_files(es: Seq<ArchiveEntry>) -> nat
    decreases es.len(),
{
    if es.len() == 0 {
        0
    } else {
        encrypted_files(es.drop_last()) + if es.last().kind@ != "folder"@ && es.last().is_encrypted {
            1nat
        } else {
            0nat
        }
    }
}

/// `m` is the method of one of the entries, and is not blank.
pub open spec fn is_entry_method(es: Seq<ArchiveEntry>, m: Seq<char>) -> bool {
    exists|i: int| 0 <= i < es.len() && opt_view((#[trigger] es[i]).method) == Some(m) && trim(m).len() > 0
}

/// The summary of an archive's methods, given all of them sorted: the archive's format when
/// there are none, one or two of them joined with `、`, or the first and how many there are.
pub open spec fn method_summary(methods: Seq<Seq<char>>, archive_format: Seq<char>) -> Seq<char> {
    if methods.len() == 0 {
        archive_format
    } else if methods.len() == 1 {
        methods[0]
    } else if methods.len() == 2 {
        methods[0] + "、"@ + methods[1]
    } else {
        methods[0] + " 等 "@ + decimal(methods.len()) + " 种"@
    }
}

proof fn lemma_counts_bounded(es: Seq<ArchiveEntry>)
    ensures
        encrypted_files(es) <= es.len(),
    decreases es.len(),
{
    if es.len() > 0 {
        lemma_counts_bounded(es.drop_last());
    }
}

proof fn lemma_file_bytes_prefix(es: Seq<ArchiveEntry>, i: int)
    requires
        0 <= i <= es.len(),
    ensures
        file_bytes(es.take(i)) <= file_bytes(es),
    decreases es.len() - i,
{
    if i < es.len() {
        lemma_file_bytes_prefix(es, i + 1);
        assert(es.take(i + 1).drop_last() == es.take(i));
    } else {
        assert(es.take(i) == es);
    }
}

/// What an archive's entries add up to: the bytes of its files, a summary of its compression
/// methods (see `method_summary`), whether a CRC is known, and how many files are encrypted.
pub fn archive_properties(entries: &[ArchiveEntry], archive_format: &str, is_encrypted: bool) -> (r:
    ArchiveProperties)
    requires
        file_bytes(entries@) <= u64::MAX,
    ensures
        r.uncompressed_size == file_bytes(entries@),
        exists|ms: Seq<Seq<char>>|
            strictly_sorted(ms) && (forall|m: Seq<char>| #[trigger]
                ms.contains(m) <==> is_entry_method(entries@, m)) && r.method_summary@
                == method_summary(ms, archive_format@),
        r.crc_available == exists|i: int| 0 <= i < entries@.len() && (#[trigger] entries@[i]).crc is Some,
        r.is_encrypted == is_encrypted,
        r.encrypted_count == encrypted_files(entries@),
{
    let mut size: u64 = 0;
    let mut count: usize = 0;
    let mut crc = false;
    let mut methods: Vec<Vec<char>> = Vec::new();
    let mut i: usize = 0;
    while i < entries.len()
        invariant
            i <= entries.len(),
            file_bytes(entries@) <= u64::MAX,
            size == file_bytes(entries@.take(i as int)),
            count == encrypted_files(entries@.take(i as int)),
            crc == exists|j: int| 0 <= j < i && (#[trigger] entries@[j]).crc is Some,
            strictly_sorted(views(methods@)),
            forall|m: Seq<char>| #[trigger]
                views(methods@).contains(m) <==> is_entry_method(entries@.take(i as int), m),
        decreases entries.len() - i,
    {
        let ghost before = entries@.take(i as int);
        proof {
            assert(entries@.take(i + 1).drop_last() == before);
            assert(entries@.take(i + 1).last() == entries@[i as int]);
            lemma_file_bytes_prefix(entries@, i + 1);
            lemma_counts_bounded(before);
        }
        let e = &entries[i];
        let is_file = !str_eq(e.kind.as_str(), "folder");
        if is_file {
            size = size + e.size;
            if e.is_encrypted {
                count = count + 1;
            }
        }
        if e.crc.is_some() {
            crc = true;
        }
        let ghost old_methods = views(methods@);
        if let Some(m) = &e.method {
            let mc = chars_of(m.as_str());
            let t = trim_chars(&mc);
            if t.len() > 0 {
                insert_sorted(&mut methods, mc);
            }
        }
        proof {
            let after = entries@.take(i + 1);
            assert forall|m: Seq<char>| #[trigger]
                views(methods@).contains(m) <==> is_entry_method(after, m) by {
                if is_entry_method(after, m) {
                    let j = choose|j: int|
                        0 <= j < after.len() && opt_view((#[trigger] after[j]).method) == Some(m)
                            && trim(m).len() > 0;
                    if j < i {
                        assert(before[j] == after[j]);
                        assert(is_entry_method(before, m));
                    }
                }
                if is_entry_method(before, m) {
                    let j = choose|j: int|
                        0 <= j < before.len() && opt_view((#[trigger] before[j]).method) == Some(m)
                            && trim(m).len() > 0;
                    assert(after[j] == before[j]);
                    assert(is_entry_method(after, m));
                }
                if views(methods@).contains(m) && !old_methods.contains(m) {
                    assert(opt_view(after[i as int].method) == Some(m));
                }
            }
            assert(crc == exists|j: int| 0 <= j < i + 1 && (#[trigger] entries@[j]).crc is Some);
        }
        i = i + 1;
    }
    assert(entries@.take(entries.len() as int) == entries@);
    let n = methods.len();
    let summary = if n == 0 {
        String::from_str(archive_format)
    } else if n == 1 {
        string_of(&methods[0])
    } else if n == 2 {
        let mut v = slice_chars(&methods[0], 0, methods[0].len());
        extend_str(&mut v, "、");
        extend_chars(&mut v, &methods[1]);
        string_of(&v)
    } else {
        let mut v = slice_chars(&methods[0], 0, methods[0].len());
        extend_str(&mut v, " 等 ");
        push_decimal(&mut v, n as u64);
        extend_str(&mut v, " 种");
        string_of(&v)
    };
    proof {
        let ms = views(methods@);
        assert(summary@ == method_summary(ms, archive_format@));
    }
    ArchiveProperties {
        uncompressed_size: size,
        method_summary: summary,
        crc_available: crc,
        is_encrypted,
        encrypted_count: count,
    }
}


// ---------------------------------------------------------------------------
// What a listing adds up to
// ---------------------------------------------------------------------------

/// Marks every file (not folder) as encrypted when the archive is; otherwise leaves the
/// entries as they are.
pub fn mark_encrypted_files(entries: &mut Vec<ArchiveEntry>, archive_is_encrypted: bool)
    ensures
        final(entries)@.len() == old(entries)@.len(),
        forall|k: int|
            0 <= k < final(entries)@.len() ==> {
                let e = #[trigger] final(entries)@[k];
                let o = old(entries)@[k];
                &&& e.is_encrypted == (o.is_encrypted || (archive_is_encrypted && o.kind@
                    != "folder"@))
                &&& e.name == o.name
                &&& e.path == o.path
                &&& e.kind == o.kind
                &&& e.type_label == o.type_label
                &&& e.size == o.size
                &&& e.modified_label == o.modified_label
                &&& e.crc == o.crc
                &&& e.method == o.method
                &&& e.is_hidden == o.is_hidden
                &&& e.is_executable == o.is_executable
                &&& e.is_unsafe_path == o.is_unsafe_path
            },
{
    if !archive_is_encrypted {
        return;
    }
    let ghost before = entries@;
    let mut i: usize = 0;
    while i < entries.len()
        invariant
            i <= entries@.len(),
            entries@.len() == before.len(),
            archive_is_encrypted,
            forall|k: int|
                0 <= k < entries@.len() ==> {
                    let e = #[trigger] entries@[k];
                    let o = before[k];
                    &&& e.is_encrypted == if k < i {
                        o.is_encrypted || o.kind@ != "folder"@
                    } else {
                        o.is_encrypted
                    }
                    &&& e.name == o.name
                    &&& e.path == o.path
                    &&& e.kind == o.kind
                    &&& e.type_label == o.type_label
                    &&& e.size == o.size
                    &&& e.modified_label == o.modified_label
                    &&& e.crc == o.crc
                    &&& e.method == o.method
                    &&& e.is_hidden == o.is_hidden
                    &&& e.is_executable == o.is_executable
                    &&& e.is_unsafe_path == o.is_unsafe_path
                },
        decreases entries.len() - i,
    {
        if !str_eq(entries[i].kind.as_str(), "folder") {
            let mut e = entries.remove(i);
            e.is_encrypted = true;
            entries.insert(i, e);
        }
        i = i + 1;
    }
}

/// The number of files (entries that are not folders).
pub open spec fn file_count(es: Seq<ArchiveEntry>) -> nat
    decreases es.len(),
{
    if es.len() == 0 {
        0
    } else {
        file_count(es.drop_last()) + if es.last().kind@ != "folder"@ {
            1nat
        } else {
            0nat
        }
    }
}

/// How many entries are files and how many are folders.
pub fn count_entry_kinds(entries: &[ArchiveEntry]) -> (r: (usize, usize))
    ensures
        r.0 == file_count(entries@),
        r.1 == entries@.len() - file_count(entries@),
{
    let mut files: usize = 0;
    let mut i: usize = 0;
    while i < entries.len()
        invariant
            i <= entries.len(),
            files == file_count(entries@.take(i as int)),
            files <= i,
        decreases entries.len() - i,
    {
        assert(entries@.take(i + 1).drop_last() == entries@.take(i as int));
        if !str_eq(entries[i].kind.as_str(), "folder") {
            files = files + 1;
        }
        i = i + 1;
    }
    assert(entries@.take(entries.len() as int) == entries@);
    (files, entries.len() - files)
}

} // verus!
