//! What the desktop shows of files: their icons, the applications that open them, and the
//! type a dragged file is promised as.
use vstd::prelude::*;
use crate::paths::{extension, extension_of, file_stem, file_stem_of};
use crate::text::{
    ascii_lower, ascii_lower_chars, chars_eq_str, chars_of, extend_str, opt_view, str_eq,
    string_of, string_views, trim, trim_chars,
};

verus! {

// ---------------------------------------------------------------------------
// Icons
// ---------------------------------------------------------------------------

/// A file whose icon is asked for.
#[derive(Debug)]
pub struct SystemIconRequest {
    pub key: String,
    pub path: Option<String>,
    pub name: String,
    pub kind: String,
}

/// The icon of a file, as a data URL, when there is one.
#[derive(Debug)]
pub struct SystemIconResult {
    pub key: String,
    pub data_url: Option<String>,
}

/// The icons of files where the system offers none: each file keeps its key and gets no icon.
pub fn system_file_icons(items: Vec<SystemIconRequest>) -> (r: Vec<SystemIconResult>)
    ensures
        r@.len() == items@.len(),
        forall|i: int|
            0 <= i < r@.len() ==> (#[trigger] r@[i]).key@ == items@[i].key@ && r@[i].data_url is None,
{
    let mut r: Vec<SystemIconResult> = Vec::new();
    let mut i: usize = 0;
    while i < items.len()
        invariant
            i <= items.len(),
            r@.len() == i,
            forall|j: int|
                0 <= j < i ==> (#[trigger] r@[j]).key@ == items@[j].key@ && r@[j].data_url is None,
        decreases items.len() - i,
    {
        r.push(SystemIconResult { key: items[i].key.clone(), data_url: None });
        i = i + 1;
    }
    r
}

/// The icon kept for a file: a folder keeps any icon; a file keeps one unless it is the
/// generic icon of data files.
pub open spec fn spec_kept_icon(
    kind: Seq<char>,
    data_url: Option<Seq<char>>,
    generic: Option<Seq<char>>,
) -> Option<Seq<char>> {
    match data_url {
        None => None,
        Some(u) => if kind == "folder"@ || generic != Some(u) {
            Some(u)
        } else {
            None
        },
    }
}

/// The icon kept for a file.
pub fn kept_icon(kind: &str, data_url: Option<String>, generic: &Option<String>) -> (r: Option<
    String,
>)
    ensures
        opt_view(r) == spec_kept_icon(kind@, opt_view(data_url), opt_view(*generic)),
{
    match data_url {
        None => None,
        Some(u) => {
            let same = match generic {
                Some(g) => str_eq(g.as_str(), u.as_str()),
                None => false,
            };
            if str_eq(kind, "folder") || !same {
                Some(u)
            } else {
                None
            }
        },
    }
}

/// The type an icon is looked up by for a file that is not on disk: its extension when that
/// is not blank, else generic data.
pub open spec fn spec_icon_file_type(name: Seq<char>) -> Seq<char> {
    match extension(name) {
        Some(e) => if trim(e).len() > 0 {
            e
        } else {
            "public.data"@
        },
        None => "public.data"@,
    }
}

/// The type an icon is looked up by for a file that is not on disk.
pub fn icon_file_type(name: &str) -> (r: String)
    ensures
        r@ == spec_icon_file_type(name@),
{
    let n = chars_of(name);
    match extension_of(&n) {
        Some(e) => {
            let t = trim_chars(&e);
            if t.len() > 0 {
                string_of(&e)
            } else {
                String::from_str("public.data")
            }
        },
        None => String::from_str("public.data"),
    }
}

/// The character of a base64 digit (standard alphabet).
pub open spec fn b64_char(v: nat) -> char {
    if v < 26 {
        (('A' as u32) + v) as char
    } else if v < 52 {
        (('a' as u32) + (v - 26)) as char
    } else if v < 62 {
        (('0' as u32) + (v - 52)) as char
    } else if v == 62 {
        '+'
    } else {
        '/'
    }
}

/// Base64 with the standard alphabet and padding (RFC 4648): every three bytes become four
/// digits of six bits; one or two bytes left over become two or three digits and `=` padding.
pub open spec fn base64_standard(b: Seq<u8>) -> Seq<char>
    decreases b.len(),
{
    if b.len() == 0 {
        Seq::<char>::empty()
    } else if b.len() == 1 {
        seq![b64_char(b[0] as nat / 4), b64_char((b[0] as nat % 4) * 16), '=', '=']
    } else if b.len() == 2 {
        seq![
            b64_char(b[0] as nat / 4),
            b64_char((b[0] as nat % 4) * 16 + b[1] as nat / 16),
            b64_char((b[1] as nat % 16) * 4),
            '=',
        ]
    } else {
        seq![
            b64_char(b[0] as nat / 4),
            b64_char((b[0] as nat % 4) * 16 + b[1] as nat / 16),
            b64_char((b[1] as nat % 16) * 4 + b[2] as nat / 64),
            b64_char(b[2] as nat % 64),
        ] + base64_standard(b.skip(3))
    }
}

/// `base64::engine::general_purpose::STANDARD.encode`: standard base64 with padding. Its
/// documentation says it encodes with the standard alphabet and padding; it panics only when
/// the encoded length overflows `usize`, which the length bound rules out.
#[verifier::external_body]
fn base64_encode(bytes: &[u8]) -> (r: String)
    requires
        bytes@.len() <= usize::MAX / 2,
    ensures
        r@ == base64_standard(bytes@),
{
    base64::Engine::encode(&base64::engine::general_purpose::STANDARD, bytes)
}

/// A PNG image as a data URL.
pub fn png_data_url(png: &[u8]) -> (r: String)
    requires
        png@.len() <= usize::MAX / 2,
    ensures
        r@ == "data:image/png;base64,"@ + base64_standard(png@),
{
    let mut v = chars_of("data:image/png;base64,");
    let e = base64_encode(png);
    extend_str(&mut v, e.as_str());
    string_of(&v)
}

// ---------------------------------------------------------------------------
// Applications that open a file
// ---------------------------------------------------------------------------

/// An application that can open a file.
#[derive(Debug)]
pub struct OpenWithApplication {
    pub name: String,
    pub path: String,
    pub is_default: bool,
}

/// The name an application is shown by: its file stem, unless that is blank.
pub open spec fn spec_application_name(path: Seq<char>) -> Seq<char> {
    match file_stem(path) {
        Some(s) => if trim(s).len() > 0 {
            s
        } else {
            "应用程序"@
        },
        None => "应用程序"@,
    }
}

/// The name an application is shown by.
pub fn application_name(path: &str) -> (r: String)
    ensures
        r@ == spec_application_name(path@),
{
    let p = chars_of(path);
    match file_stem_of(&p) {
        Some(s) => {
            let t = trim_chars(&s);
            if t.len() > 0 {
                string_of(&s)
            } else {
                String::from_str("应用程序")
            }
        },
        None => String::from_str("应用程序"),
    }
}

/// The views of a list of applications.
pub open spec fn apps_view(v: Seq<OpenWithApplication>) -> Seq<(Seq<char>, Seq<char>, bool)> {
    Seq::new(v.len(), |i: int| (v[i].name@, v[i].path@, v[i].is_default))
}

/// The list of applications and the paths seen after adding the application at `path`: by
/// its trimmed path, unless that is blank or already seen.
pub open spec fn app_step(
    apps: Seq<(Seq<char>, Seq<char>, bool)>,
    seen: Seq<Seq<char>>,
    path: Seq<char>,
    is_default: bool,
) -> (Seq<(Seq<char>, Seq<char>, bool)>, Seq<Seq<char>>) {
    let clean = trim(path);
    if clean.len() == 0 || seen.contains(clean) {
        (apps, seen)
    } else {
        (apps.push((spec_application_name(clean), clean, is_default)), seen.push(clean))
    }
}

/// Adds an application to the list, by its trimmed path, unless the path is blank or already
/// listed.
pub fn push_application(
    apps: &mut Vec<OpenWithApplication>,
    seen: &mut Vec<String>,
    path: &str,
    is_default: bool,
)
    ensures
        (apps_view(final(apps)@), string_views(final(seen)@)) == app_step(
            apps_view(old(apps)@),
            string_views(old(seen)@),
            path@,
            is_default,
        ),
{
    let p = chars_of(path);
    let clean = trim_chars(&p);
    if clean.len() == 0 {
        return;
    }
    let cs = string_of(&clean);
    let mut i: usize = 0;
    while i < seen.len()
        invariant
            i <= seen.len(),
            cs@ == trim(path@),
            forall|j: int| 0 <= j < i ==> #[trigger] string_views(seen@)[j] != cs@,
        decreases seen.len() - i,
    {
        if str_eq(seen[i].as_str(), cs.as_str()) {
            assert(string_views(seen@)[i as int] == cs@);
            return;
        }
        i = i + 1;
    }
    let ghost before_apps = apps_view(apps@);
    let name = application_name(cs.as_str());
    apps.push(OpenWithApplication { name, path: cs.clone(), is_default });
    assert(apps_view(apps@) =~= before_apps.push((spec_application_name(cs@), cs@, is_default)));
    crate::text::push_string(seen, cs);
}

/// The applications that open a file where the system offers none: there are none.
pub fn suggest_open_with_apps(path: &str) -> (r: Vec<OpenWithApplication>)
    ensures
        r@.len() == 0,
{
    Vec::new()
}

/// Opening a file with a chosen application where the system offers no such choice: refused.
pub fn open_file_with_application(path: &str, application_path: Option<&str>) -> (r: Result<
    (),
    String,
>)
    ensures
        r matches Err(m) && m@ == "当前平台暂不支持选择打开方式。"@,
{
    Err(String::from_str("当前平台暂不支持选择打开方式。"))
}

/// The arguments of `open` that open a file: with `-a` and the application when one is chosen,
/// then the file.
pub open spec fn spec_open_with_args(path: Seq<char>, application_path: Option<Seq<char>>) -> Seq<
    Seq<char>,
> {
    match application_path {
        Some(a) => seq!["-a"@, a, path],
        None => seq![path],
    }
}

/// The command that opens a file where the system opens files with `/usr/bin/open`: the
/// program and its arguments.
pub fn open_with_command(path: &str, application_path: Option<&str>) -> (r: (String, Vec<String>))
    ensures
        r.0@ == "/usr/bin/open"@,
        string_views(r.1@) == spec_open_with_args(
            path@,
            match application_path {
                Some(a) => Some(a@),
                None => None,
            },
        ),
{
    let args = match application_path {
        Some(a) => crate::formats::strings3("-a", a, path),
        None => {
            let mut v: Vec<String> = Vec::new();
            crate::text::push_string(&mut v, String::from_str(path));
            assert(string_views(v@) =~= seq![path@]);
            v
        },
    };
    (String::from_str("/usr/bin/open"), args)
}

/// The applications and paths after the default application and the first `n` others.
pub open spec fn choices_fold(default_path: Option<Seq<char>>, paths: Seq<Seq<char>>, n: int) -> (
    Seq<(Seq<char>, Seq<char>, bool)>,
    Seq<Seq<char>>,
)
    decreases n,
{
    if n <= 0 {
        match default_path {
            Some(d) => app_step(Seq::empty(), Seq::empty(), d, true),
            None => (Seq::empty(), Seq::empty()),
        }
    } else {
        let acc = choices_fold(default_path, paths, n - 1);
        app_step(acc.0, acc.1, paths[n - 1], default_path == Some(paths[n - 1]))
    }
}

/// The applications that open a file, from the system's default application and the other
/// applications it offers: the default first, then the others in order, each path once
/// (trimmed, blank ones left out); an application is the default when its path is exactly the
/// default's.
pub fn open_with_choices(default_path: Option<String>, app_paths: &Vec<String>) -> (r: Vec<
    OpenWithApplication,
>)
    ensures
        apps_view(r@) == choices_fold(
            opt_view(default_path),
            string_views(app_paths@),
            app_paths@.len() as int,
        ).0,
{
    let mut apps: Vec<OpenWithApplication> = Vec::new();
    let mut seen: Vec<String> = Vec::new();
    assert(apps_view(apps@) =~= Seq::<(Seq<char>, Seq<char>, bool)>::empty());
    assert(string_views(seen@) =~= Seq::<Seq<char>>::empty());
    if let Some(d) = &default_path {
        push_application(&mut apps, &mut seen, d.as_str(), true);
    }
    let ghost dv = opt_view(default_path);
    let ghost pv = string_views(app_paths@);
    let mut i: usize = 0;
    while i < app_paths.len()
        invariant
            i <= app_paths.len(),
            dv == opt_view(default_path),
            pv == string_views(app_paths@),
            (apps_view(apps@), string_views(seen@)) == choices_fold(dv, pv, i as int),
        decreases app_paths.len() - i,
    {
        let p = app_paths[i].as_str();
        let is_default = match &default_path {
            Some(d) => str_eq(d.as_str(), p),
            None => false,
        };
        assert(pv[i as int] == p@);
        push_application(&mut apps, &mut seen, p, is_default);
        i = i + 1;
    }
    apps
}

/// The error of an application that failed to open a file: what it wrote to standard error,
/// trimmed, or a message saying the file could not be opened with it.
pub open spec fn spec_open_failure_message(stderr: Seq<char>) -> Seq<char> {
    if trim(stderr).len() == 0 {
        "无法用所选应用打开文件。"@
    } else {
        trim(stderr)
    }
}

/// The error of an application that failed to open a file.
pub fn open_failure_message(stderr: &str) -> (r: String)
    ensures
        r@ == spec_open_failure_message(stderr@),
{
    let c = chars_of(stderr);
    let t = trim_chars(&c);
    if t.len() == 0 {
        String::from_str("无法用所选应用打开文件。")
    } else {
        string_of(&t)
    }
}

// ---------------------------------------------------------------------------
// Dragged files
// ---------------------------------------------------------------------------

/// The uniform type a dragged file is promised as: a folder, or by the file's extension
/// (ignoring ASCII case), generic data when the extension is not known.
pub open spec fn spec_file_promise_type(name: Seq<char>, is_dir: bool) -> Seq<char> {
    let e = ascii_lower(
        match extension(name) {
            Some(e) => e,
            None => Seq::<char>::empty(),
        },
    );
    if is_dir {
        "public.folder"@
    } else if e == "txt"@ || e == "md"@ || e == "csv"@ || e == "log"@ {
        "public.plain-text"@
    } else if e == "json"@ {
        "public.json"@
    } else if e == "pdf"@ {
        "com.adobe.pdf"@
    } else if e == "png"@ {
        "public.png"@
    } else if e == "jpg"@ || e == "jpeg"@ {
        "public.jpeg"@
    } else if e == "gif"@ {
        "com.compuserve.gif"@
    } else if e == "webp"@ {
        "org.webmproject.webp"@
    } else if e == "zip"@ {
        "public.zip-archive"@
    } else if e == "tar"@ {
        "public.tar-archive"@
    } else if e == "gz"@ {
        "org.gnu.gnu-zip-archive"@
    } else if e == "doc"@ || e == "docx"@ {
        "com.microsoft.word.doc"@
    } else if e == "xls"@ || e == "xlsx"@ {
        "com.microsoft.excel.xls"@
    } else {
        "public.data"@
    }
}

/// The uniform type a dragged file is promised as.
pub fn file_promise_type(name: &str, is_dir: bool) -> (r: String)
    ensures
        r@ == spec_file_promise_type(name@, is_dir),
{
    if is_dir {
        return String::from_str("public.folder");
    }
    let n = chars_of(name);
    let raw = match extension_of(&n) {
        Some(e) => e,
        None => Vec::new(),
    };
    let e = ascii_lower_chars(&raw);
    if chars_eq_str(&e, "txt") || chars_eq_str(&e, "md") || chars_eq_str(&e, "csv")
        || chars_eq_str(&e, "log") {
        String::from_str("public.plain-text")
    } else if chars_eq_str(&e, "json") {
        String::from_str("public.json")
    } else if chars_eq_str(&e, "pdf") {
        String::from_str("com.adobe.pdf")
    } else if chars_eq_str(&e, "png") {
        String::from_str("public.png")
    } else if chars_eq_str(&e, "jpg") || chars_eq_str(&e, "jpeg") {
        String::from_str("public.jpeg")
    } else if chars_eq_str(&e, "gif") {
        String::from_str("com.compuserve.gif")
    } else if chars_eq_str(&e, "webp") {
        String::from_str("org.webmproject.webp")
    } else if chars_eq_str(&e, "zip") {
        String::from_str("public.zip-archive")
    } else if chars_eq_str(&e, "tar") {
        String::from_str("public.tar-archive")
    } else if chars_eq_str(&e, "gz") {
        String::from_str("org.gnu.gnu-zip-archive")
    } else if chars_eq_str(&e, "doc") || chars_eq_str(&e, "docx") {
        String::from_str("com.microsoft.word.doc")
    } else if chars_eq_str(&e, "xls") || chars_eq_str(&e, "xlsx") {
        String::from_str("com.microsoft.excel.xls")
    } else {
        String::from_str("public.data")
    }
}

// ---------------------------------------------------------------------------
// Opening files from the system
// ---------------------------------------------------------------------------

/// What the program does with files the system asks it to open: show its main window when
/// there are none, show each archive when every file is one it can read, and otherwise offer
/// to compress them all.
#[derive(Debug)]
pub enum OpenRoute {
    FocusMain,
    ExtractEach(Vec<String>),
    Compress(Vec<String>),
}

/// What the program does with files the system asks it to open (those that exist, each once),
/// given for each whether it is an archive the program can read.
pub open spec fn spec_open_route(paths: Seq<Seq<char>>, readable: Seq<bool>) -> Result<
    Seq<Seq<char>>,
    Seq<Seq<char>>,
> {
    if forall|i: int| 0 <= i < paths.len() ==> readable[i] {
        Ok(paths)
    } else {
        Err(paths)
    }
}

/// What the program does with files the system asks it to open.
pub fn route_open_paths(paths: Vec<String>, readable: &Vec<bool>) -> (r: OpenRoute)
    requires
        readable@.len() == paths@.len(),
    ensures
        paths@.len() == 0 ==> r is FocusMain,
        paths@.len() > 0 ==> match r {
            OpenRoute::ExtractEach(v) => spec_open_route(string_views(paths@), readable@) == Ok::<
                Seq<Seq<char>>,
                Seq<Seq<char>>,
            >(string_views(v@)),
            OpenRoute::Compress(v) => spec_open_route(string_views(paths@), readable@) == Err::<
                Seq<Seq<char>>,
                Seq<Seq<char>>,
            >(string_views(v@)),
            OpenRoute::FocusMain => false,
        },
{
    if paths.len() == 0 {
        return OpenRoute::FocusMain;
    }
    let mut i: usize = 0;
    while i < readable.len()
        invariant
            i <= readable@.len(),
            readable@.len() == paths@.len(),
            forall|j: int| 0 <= j < i ==> readable@[j],
        decreases readable.len() - i,
    {
        if !readable[i] {
            assert(!readable@[i as int]);
            return OpenRoute::Compress(paths);
        }
        i = i + 1;
    }
    OpenRoute::ExtractEach(paths)
}

/// The nearest of a path and the folders holding it (each as `Path::ancestors` gives it, from
/// the path's first `k` components) whose extension is `app`.
pub open spec fn app_bundle_among(cs: Seq<Seq<char>>, k: int) -> Option<Seq<char>>
    decreases k,
{
    if k <= 0 || k > cs.len() {
        None
    } else if extension(crate::paths::join_all(cs.take(k))) == Some("app"@) {
        Some(crate::paths::join_all(cs.take(k)))
    } else {
        app_bundle_among(cs, k - 1)
    }
}

/// The application bundle (`.app` folder) that a path lies in, or is.
pub open spec fn spec_macos_app_bundle_path(path: Seq<char>) -> Option<Seq<char>> {
    app_bundle_among(crate::paths::components(path), crate::paths::components(path).len() as int)
}

/// The application bundle (`.app` folder) that a path lies in, or is.
pub fn macos_app_bundle_path(path: &str) -> (r: Option<String>)
    ensures
        match r {
            Some(b) => spec_macos_app_bundle_path(path@) == Some(b@),
            None => spec_macos_app_bundle_path(path@) is None,
        },
{
    let p = chars_of(path);
    let cs = crate::paths::components_of(&p);
    let ghost csv = crate::text::views(cs@);
    let mut k: usize = cs.len();
    while k > 0
        invariant
            k <= cs@.len(),
            csv == crate::text::views(cs@),
            csv == crate::paths::components(path@),
            csv.len() == cs@.len(),
            app_bundle_among(csv, csv.len() as int) == app_bundle_among(csv, k as int),
        decreases k,
    {
        let mut prefix: Vec<Vec<char>> = Vec::new();
        let mut j: usize = 0;
        while j < k
            invariant
                j <= k,
                k <= cs@.len(),
                csv == crate::text::views(cs@),
                crate::text::views(prefix@) == csv.take(j as int),
            decreases k - j,
        {
            let piece = crate::text::slice_chars(&cs[j], 0, cs[j].len());
            assert(piece@ =~= cs@[j as int]@);
            assert(csv[j as int] == cs@[j as int]@);
            let ghost pre = prefix@;
            prefix.push(piece);
            proof {
                crate::text::lemma_views_snoc(prefix@);
                assert(prefix@.drop_last() == pre);
                assert(csv.take(j + 1) =~= csv.take(j as int).push(csv[j as int]));
            }
            assert(crate::text::views(prefix@) =~= csv.take(j + 1));
            j = j + 1;
        }
        let a = crate::paths::join_all_of(&prefix);
        let is_app = match extension_of(&a) {
            Some(e) => chars_eq_str(&e, "app"),
            None => false,
        };
        assert(crate::text::views(prefix@) == csv.take(k as int));
        if is_app {
            assert(extension(crate::paths::join_all(csv.take(k as int))) == Some("app"@));
            return Some(string_of(&a));
        }
        k = k - 1;
    }
    None
}

// ---------------------------------------------------------------------------
// Files shown before compressing
// ---------------------------------------------------------------------------

/// A file or folder as the interface lists it.
#[derive(Debug)]
pub struct FileInfo {
    pub path: String,
    pub name: String,
    /// `folder`, or the kind of file its extension names.
    pub kind: String,
    pub size: u64,
    pub modified_label: String,
}

/// What a file or folder shows: its path and file name, `folder` or the kind its extension
/// names, a size (see the callers), and its time.
pub open spec fn is_file_info(
    f: FileInfo,
    path: Seq<char>,
    is_dir: bool,
    size: u64,
    modified_label: Seq<char>,
) -> bool {
    &&& f.path@ == path
    &&& f.name@ == match crate::paths::file_name(path) {
        Some(n) => n,
        None => Seq::<char>::empty(),
    }
    &&& f.kind@ == if is_dir {
        "folder"@
    } else {
        crate::formats::spec_file_kind(path)
    }
    &&& f.size == size
    &&& f.modified_label@ == modified_label
}

fn file_info(path: &str, is_dir: bool, size: u64, modified_label: String) -> (r: FileInfo)
    ensures
        is_file_info(r, path@, is_dir, size, modified_label@),
{
    FileInfo {
        path: String::from_str(path),
        name: crate::paths::file_name_string(path),
        kind: if is_dir {
            String::from_str("folder")
        } else {
            crate::formats::file_kind(path)
        },
        size,
        modified_label,
    }
}

/// A source of a compression as it is listed: a file with its length, anything else with no
/// size.
pub fn describe_compress_path(path: &str, is_dir: bool, is_file: bool, len: u64, modified_label: String) -> (r:
    FileInfo)
    ensures
        is_file_info(
            r,
            path@,
            is_dir,
            if is_file {
                len
            } else {
                0
            },
            modified_label@,
        ),
{
    file_info(
        path,
        is_dir,
        if is_file {
            len
        } else {
            0
        },
        modified_label,
    )
}

/// A path as it is listed: a file with its length, a folder with the size of everything in it
/// (`contents_size`).
pub fn describe_path(
    path: &str,
    is_dir: bool,
    is_file: bool,
    len: u64,
    contents_size: u64,
    modified_label: String,
) -> (r: FileInfo)
    ensures
        is_file_info(
            r,
            path@,
            is_dir,
            if is_file {
                len
            } else {
                contents_size
            },
            modified_label@,
        ),
{
    file_info(
        path,
        is_dir,
        if is_file {
            len
        } else {
            contents_size
        },
        modified_label,
    )
}

/// Whether a path is listed among the sources of a compression: it exists and is not excluded,
/// a `.DS_Store` file or macOS metadata that is to be left out.
pub fn is_listed_compress_source(
    path: &str,
    exists: bool,
    excluded_paths: &Vec<String>,
    skip_ds_store: bool,
    skip_macos_metadata: bool,
) -> (r: bool)
    ensures
        r == (exists && !crate::sources::spec_is_path_excluded(path@, string_views(excluded_paths@))
            && !crate::sources::spec_is_ds_store_path(path@, skip_ds_store)
            && !crate::sources::spec_is_macos_metadata_path(path@, skip_macos_metadata)),
{
    exists && !crate::sources::is_path_excluded(path, excluded_paths)
        && !crate::sources::is_ds_store_path(path, skip_ds_store)
        && !crate::sources::is_macos_metadata_path(path, skip_macos_metadata)
}

} // verus!
