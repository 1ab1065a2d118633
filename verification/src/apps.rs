//! Application discovery: the XDG data directories to search, which found
//! files are desktop entries and under which id, which entries become
//! launchable applications and in what order, and where each one is
//! launched from, decoded from each desktop file's text. Reading the
//! environment, walking the directories and reading the files are the
//! caller's.
use freedesktop_desktop_entry::DesktopEntry;
use vstd::prelude::*;
use vstd::utf8::{decode_utf8, valid_utf8};

use crate::hyprland::{path_join, path_join_exec};
use crate::ipc::utf8_string;
use crate::protocol::{app_view, app_views, opt_view, string_views, Application};
use crate::text::{chars_of, pieces, split_on, string_of, text_le, text_le_exec, trim, trim_chars, views};

verus! {

/// Searched after the user's data directory when `XDG_DATA_DIRS` is unset
/// or empty.
pub const DEFAULT_XDG_DATA_DIRS: &'static str = "/usr/local/share:/usr/share";

/// Resolving the directories needs a place for the user's data.
#[derive(Debug, Clone, Copy, PartialEq, Eq, Structural)]
pub enum AppsError {
    /// Neither `HOME` nor an absolute `XDG_DATA_HOME` is set.
    MissingUserDataLocation,
}

impl AppsError {
    pub fn message(&self) -> (m: &'static str)
        ensures
            m@ == "HOME or an absolute XDG_DATA_HOME is required"@,
    {
        "HOME or an absolute XDG_DATA_HOME is required"
    }
}

pub open spec fn is_absolute(p: Seq<char>) -> bool {
    p.len() > 0 && p[0] == '/'
}

pub open spec fn opt_str_view(s: Option<&str>) -> Option<Seq<char>> {
    match s {
        Some(v) => Some(v@),
        None => None,
    }
}

/// The user's data directory: an absolute `XDG_DATA_HOME`, else
/// `$HOME/.local/share`.
pub open spec fn user_data_directory(home: Option<Seq<char>>, data_home: Option<Seq<char>>) -> Option<Seq<char>> {
    match data_home {
        Some(d) if is_absolute(d) => Some(d),
        _ => match home {
            Some(h) => Some(path_join(h, ".local/share"@)),
            None => None,
        },
    }
}

/// The system data directories list: `XDG_DATA_DIRS` unless unset or empty.
pub open spec fn system_data_value(data_dirs: Option<Seq<char>>) -> Seq<char> {
    match data_dirs {
        Some(v) if v.len() > 0 => v,
        _ => DEFAULT_XDG_DATA_DIRS@,
    }
}

/// The `applications` directories of the absolute entries of a
/// colon-separated list, in order.
pub open spec fn system_application_directories(parts: Seq<Seq<char>>) -> Seq<Seq<char>>
    decreases parts.len(),
{
    if parts.len() == 0 {
        Seq::empty()
    } else {
        let rest = system_application_directories(parts.drop_last());
        if is_absolute(parts.last()) {
            rest.push(path_join(parts.last(), "applications"@))
        } else {
            rest
        }
    }
}

/// The sequence with every repeated entry after its first removed.
pub open spec fn first_occurrences(s: Seq<Seq<char>>) -> Seq<Seq<char>>
    decreases s.len(),
{
    if s.len() == 0 {
        Seq::empty()
    } else {
        let rest = first_occurrences(s.drop_last());
        if rest.contains(s.last()) {
            rest
        } else {
            rest.push(s.last())
        }
    }
}

/// The application directories to search, highest precedence first.
pub open spec fn application_directories_for(user: Seq<char>, data_dirs: Option<Seq<char>>) -> Seq<Seq<char>> {
    first_occurrences(
        seq![path_join(user, "applications"@)] + system_application_directories(
            pieces(system_data_value(data_dirs), ':'),
        ),
    )
}

fn contains_text(v: &Vec<Vec<char>>, t: &Vec<char>) -> (b: bool)
    ensures
        b == views(v@).contains(t@),
{
    let mut i: usize = 0;
    while i < v.len()
        invariant
            i <= v@.len(),
            forall|j: int| 0 <= j < i ==> views(v@)[j] != t@,
        decreases v@.len() - i,
    {
        assert(views(v@)[i as int] == v@[i as int]@);
        if crate::text::chars_eq(v[i].as_slice(), t.as_slice()) {
            return true;
        }
        i = i + 1;
    }
    false
}

/// The XDG application directories from `HOME`, `XDG_DATA_HOME` and
/// `XDG_DATA_DIRS`: the user's first, then each absolute system data
/// directory's, each once.
pub fn resolve_application_directories(
    home: Option<&str>,
    data_home: Option<&str>,
    data_dirs: Option<&str>,
) -> (r: Result<Vec<String>, AppsError>)
    ensures
        match user_data_directory(opt_str_view(home), opt_str_view(data_home)) {
            Some(user) => r matches Ok(dirs) && crate::protocol::string_views(dirs@)
                == application_directories_for(user, opt_str_view(data_dirs)),
            None => r == Err::<Vec<String>, AppsError>(AppsError::MissingUserDataLocation),
        },
{
    let absolute_home: Option<Vec<char>> = match data_home {
        Some(d) => {
            let dc = chars_of(d);
            if dc.len() > 0 && dc[0] == '/' {
                Some(dc)
            } else {
                None
            }
        },
        None => None,
    };
    let user: Vec<char> = match absolute_home {
        Some(dc) => dc,
        None => match home {
            Some(h) => path_join_exec(chars_of(h).as_slice(), ".local/share"),
            None => return Err(AppsError::MissingUserDataLocation),
        },
    };
    let given: Option<Vec<char>> = match data_dirs {
        Some(v) => {
            let vc = chars_of(v);
            if vc.len() > 0 {
                Some(vc)
            } else {
                None
            }
        },
        None => None,
    };
    let system: Vec<char> = match given {
        Some(vc) => vc,
        None => chars_of(DEFAULT_XDG_DATA_DIRS),
    };
    assert(Some(user@) == user_data_directory(opt_str_view(home), opt_str_view(data_home)));
    assert(system@ == system_data_value(opt_str_view(data_dirs)));
    let parts = split_on(system.as_slice(), ':');
    let mut all: Vec<Vec<char>> = Vec::new();
    all.push(path_join_exec(user.as_slice(), "applications"));
    let ghost head = views(all@);
    assert(head =~= seq![path_join(user@, "applications"@)]);
    let mut i: usize = 0;
    while i < parts.len()
        invariant
            i <= parts@.len(),
            views(all@) == head + system_application_directories(views(parts@).take(i as int)),
        decreases parts@.len() - i,
    {
        assert(views(parts@).take(i + 1).drop_last() =~= views(parts@).take(i as int));
        assert(views(parts@).take(i + 1).last() == parts@[i as int]@);
        let part = &parts[i];
        if part.len() > 0 && part[0] == '/' {
            let ghost before = views(all@);
            all.push(path_join_exec(part.as_slice(), "applications"));
            assert(views(all@) =~= before.push(path_join(parts@[i as int]@, "applications"@)));
        }
        i = i + 1;
    }
    assert(views(parts@).take(i as int) =~= views(parts@));
    let ghost every = views(all@);
    let mut kept: Vec<Vec<char>> = Vec::new();
    let mut j: usize = 0;
    while j < all.len()
        invariant
            j <= all@.len(),
            every == views(all@),
            views(kept@) == first_occurrences(every.take(j as int)),
        decreases all@.len() - j,
    {
        assert(every.take(j + 1).drop_last() =~= every.take(j as int));
        assert(every.take(j + 1).last() == all@[j as int]@);
        if !contains_text(&kept, &all[j]) {
            let ghost before = views(kept@);
            let copy = all[j].clone();
            kept.push(copy);
            assert(views(kept@) =~= before.push(all@[j as int]@));
        }
        j = j + 1;
    }
    assert(every.take(j as int) =~= every);
    let mut out: Vec<String> = Vec::new();
    let mut k: usize = 0;
    while k < kept.len()
        invariant
            k <= kept@.len(),
            crate::protocol::string_views(out@) == views(kept@).take(k as int),
        decreases kept@.len() - k,
    {
        let ghost before = crate::protocol::string_views(out@);
        assert(views(kept@)[k as int] == kept@[k as int]@);
        let t = string_of(kept[k].as_slice());
        out.push(t);
        assert(crate::protocol::string_views(out@) =~= before.push(t@));
        assert(views(kept@).take(k + 1) =~= views(kept@).take(k as int).push(kept@[k as int]@));
        k = k + 1;
    }
    assert(views(kept@).take(k as int) =~= views(kept@));
    assert(views(parts@) == pieces(system@, ':'));
    assert(every == seq![path_join(user@, "applications"@)] + system_application_directories(pieces(system@, ':')));
    Ok(out)
}


/// A desktop entry file found under an application directory: its id and
/// its path.
#[derive(Debug, Clone, PartialEq, Eq)]
pub struct DesktopFile {
    pub id: String,
    pub path: String,
}

/// A non-directory entry met while walking an application directory: the
/// names leading to it from the directory (the file's own name last), and
/// whether it is a regular file or a symbolic link.
#[derive(Debug, Clone)]
pub struct FoundFile {
    pub components: Vec<Vec<u8>>,
    pub is_file: bool,
}

/// One application directory and what its walk found, in walk order
/// (each directory's entries by name, a subdirectory's contents where the
/// subdirectory stands).
#[derive(Debug, Clone)]
pub struct DirectoryScan {
    pub root: String,
    pub files: Vec<FoundFile>,
}

pub type FoundView = (Seq<char>, Seq<Seq<u8>>, bool);

pub open spec fn byte_views(v: Seq<Vec<u8>>) -> Seq<Seq<u8>> {
    v.map_values(|b: Vec<u8>| b@)
}

pub open spec fn scan_entries(s: DirectoryScan) -> Seq<FoundView> {
    s.files@.map_values(|f: FoundFile| (s.root@, byte_views(f.components@), f.is_file))
}

/// Every found file of every scan, in order.
pub open spec fn all_entries(scans: Seq<DirectoryScan>) -> Seq<FoundView>
    decreases scans.len(),
{
    if scans.len() == 0 {
        Seq::empty()
    } else {
        all_entries(scans.drop_last()) + scan_entries(scans.last())
    }
}

/// The bytes of `".desktop"`.
pub open spec fn desktop_suffix() -> Seq<u8> {
    seq![46u8, 100u8, 101u8, 115u8, 107u8, 116u8, 111u8, 112u8]
}

/// `Path::extension` is `desktop`: the name ends in `.desktop` after a
/// non-empty stem.
pub open spec fn has_desktop_extension(name: Seq<u8>) -> bool {
    name.len() > 8 && name.subrange(name.len() - 8, name.len() as int) == desktop_suffix()
}

pub open spec fn all_utf8(comps: Seq<Seq<u8>>) -> bool {
    forall|i: int| 0 <= i < comps.len() ==> valid_utf8(#[trigger] comps[i])
}

pub open spec fn decoded(comps: Seq<Seq<u8>>) -> Seq<Seq<char>> {
    comps.map_values(|c: Seq<u8>| decode_utf8(c))
}

/// The parts joined with `-` between them.
pub open spec fn join_dashed(parts: Seq<Seq<char>>) -> Seq<char>
    decreases parts.len(),
{
    if parts.len() == 0 {
        Seq::empty()
    } else if parts.len() == 1 {
        parts[0]
    } else {
        join_dashed(parts.drop_last()) + seq!['-'] + parts.last()
    }
}

/// The names joined onto `root` as path components.
pub open spec fn joined_path(root: Seq<char>, parts: Seq<Seq<char>>) -> Seq<char>
    decreases parts.len(),
{
    if parts.len() == 0 {
        root
    } else {
        path_join(joined_path(root, parts.drop_last()), parts.last())
    }
}

/// What a found file contributes: a desktop file id (its relative path
/// with `-` for separators) and path, when it is a file or link named
/// `*.desktop` whose names are all UTF-8.
pub open spec fn desktop_entry_of(e: FoundView) -> Option<(Seq<char>, Seq<char>)> {
    if e.2 && e.1.len() > 0 && has_desktop_extension(e.1.last()) && all_utf8(e.1) {
        Some((join_dashed(decoded(e.1)), joined_path(e.0, decoded(e.1))))
    } else {
        None
    }
}

pub open spec fn ids_of(d: Seq<(Seq<char>, Seq<char>)>) -> Seq<Seq<char>> {
    d.map_values(|p: (Seq<char>, Seq<char>)| p.0)
}

/// The desktop files in discovery order; an id met again later (a lower
/// precedence directory) is skipped.
pub open spec fn discovered(es: Seq<FoundView>) -> Seq<(Seq<char>, Seq<char>)>
    decreases es.len(),
{
    if es.len() == 0 {
        Seq::empty()
    } else {
        let d = discovered(es.drop_last());
        match desktop_entry_of(es.last()) {
            Some(p) => if ids_of(d).contains(p.0) {
                d
            } else {
                d.push(p)
            },
            None => d,
        }
    }
}

pub open spec fn desktop_file_views(v: Seq<DesktopFile>) -> Seq<(Seq<char>, Seq<char>)> {
    v.map_values(|f: DesktopFile| (f.id@, f.path@))
}

fn has_desktop_extension_exec(name: &Vec<u8>) -> (b: bool)
    ensures
        b == has_desktop_extension(name@),
{
    let suffix: [u8; 8] = [46u8, 100u8, 101u8, 115u8, 107u8, 116u8, 111u8, 112u8];
    if name.len() <= 8 {
        return false;
    }
    let start = name.len() - 8;
    let mut i: usize = 0;
    while i < 8
        invariant
            i <= 8,
            name@.len() > 8,
            name@.len() == name.len(),
            start == name@.len() - 8,
            suffix@ == desktop_suffix(),
            forall|j: int| 0 <= j < i ==> name@[start + j] == desktop_suffix()[j],
        decreases 8 - i,
    {
        if name[start + i] != suffix[i] {
            assert(name@.subrange(start as int, name@.len() as int)[i as int] != desktop_suffix()[i as int]);
            return false;
        }
        i = i + 1;
    }
    assert(name@.subrange(start as int, name@.len() as int) =~= desktop_suffix());
    true
}

/// The id and path of a found file, when it is a desktop entry.
fn desktop_entry_exec(root: &String, file: &FoundFile) -> (r: Option<(String, String)>)
    ensures
        match r {
            Some(p) => desktop_entry_of((root@, byte_views(file.components@), file.is_file)) == Some(
                (p.0@, p.1@),
            ),
            None => desktop_entry_of((root@, byte_views(file.components@), file.is_file)) is None,
        },
{
    let ghost comps = byte_views(file.components@);
    let n = file.components.len();
    if !file.is_file || n == 0 {
        return None;
    }
    assert(comps.last() == file.components@[n - 1]@);
    if !has_desktop_extension_exec(&file.components[n - 1]) {
        return None;
    }
    let mut id: Vec<char> = Vec::new();
    let mut path: Vec<char> = chars_of(root.as_str());
    let mut i: usize = 0;
    while i < n
        invariant
            n == file.components@.len() == comps.len(),
            comps == byte_views(file.components@),
            i <= n,
            all_utf8(comps.take(i as int)),
            id@ == join_dashed(decoded(comps.take(i as int))),
            path@ == joined_path(root@, decoded(comps.take(i as int))),
        decreases n - i,
    {
        let bytes = file.components[i].clone();
        assert(bytes@ =~= comps[i as int]);
        let part = match utf8_string(bytes) {
            Some(t) => t,
            None => {
                assert(!all_utf8(comps));
                return None;
            },
        };
        let pc = chars_of(part.as_str());
        proof {
            assert(comps.take(i + 1).drop_last() =~= comps.take(i as int));
            assert(decoded(comps.take(i + 1)).drop_last() =~= decoded(comps.take(i as int)));
            assert(decoded(comps.take(i + 1)).last() == pc@);
            assert forall|j: int| 0 <= j < i + 1 implies valid_utf8(#[trigger] comps.take(i + 1)[j]) by {
                if j < i {
                    assert(comps.take(i as int)[j] == comps.take(i + 1)[j]);
                }
            }
        }
        if i > 0 {
            id.push('-');
        }
        crate::text::append_chars(&mut id, pc.as_slice());
        path = path_join_exec(path.as_slice(), part.as_str());
        proof {
            if i == 0 {
                assert(id@ =~= pc@);
            } else {
                assert(id@ =~= join_dashed(decoded(comps.take(i as int))) + seq!['-'] + pc@);
            }
        }
        i = i + 1;
    }
    assert(comps.take(n as int) =~= comps);
    Some((string_of(id.as_slice()), string_of(path.as_slice())))
}

fn contains_id(files: &Vec<DesktopFile>, id: &String) -> (b: bool)
    ensures
        b == ids_of(desktop_file_views(files@)).contains(id@),
{
    let ghost ids = ids_of(desktop_file_views(files@));
    let mut i: usize = 0;
    while i < files.len()
        invariant
            i <= files@.len(),
            ids == ids_of(desktop_file_views(files@)),
            forall|j: int| 0 <= j < i ==> ids[j] != id@,
        decreases files@.len() - i,
    {
        assert(ids[i as int] == files@[i as int].id@);
        if files[i].id == *id {
            return true;
        }
        i = i + 1;
    }
    false
}

/// The desktop files of the application directories' walks, highest
/// precedence first: each found `*.desktop` file or link gets an id made
/// of its path below its directory with `-` between the names; an id
/// already found earlier is skipped.
pub fn discover_desktop_files(scans: &[DirectoryScan]) -> (r: Vec<DesktopFile>)
    ensures
        desktop_file_views(r@) == discovered(all_entries(scans@)),
{
    let mut out: Vec<DesktopFile> = Vec::new();
    let mut i: usize = 0;
    while i < scans.len()
        invariant
            i <= scans@.len(),
            desktop_file_views(out@) == discovered(all_entries(scans@.take(i as int))),
        decreases scans@.len() - i,
    {
        let scan = &scans[i];
        let ghost before = all_entries(scans@.take(i as int));
        let ghost es = scan_entries(*scan);
        assert(scans@.take(i + 1).drop_last() =~= scans@.take(i as int));
        assert(all_entries(scans@.take(i + 1)) == before + es);
        let mut j: usize = 0;
        assert(before + es.take(0) =~= before);
        while j < scan.files.len()
            invariant
                i < scans@.len(),
                *scan == scans@[i as int],
                es == scan_entries(*scan),
                j <= scan.files@.len(),
                desktop_file_views(out@) == discovered(before + es.take(j as int)),
            decreases scan.files@.len() - j,
        {
            let ghost prefix = before + es.take(j as int);
            assert((before + es.take(j + 1)).drop_last() =~= prefix);
            assert((before + es.take(j + 1)).last() == es[j as int]);
            let found = desktop_entry_exec(&scan.root, &scan.files[j]);
            match found {
                Some((id, path)) => {
                    if !contains_id(&out, &id) {
                        let ghost prev = desktop_file_views(out@);
                        out.push(DesktopFile { id, path });
                        assert(desktop_file_views(out@) =~= prev.push((id@, path@)));
                    }
                },
                None => {},
            }
            j = j + 1;
        }
        assert(es.take(j as int) =~= es);
        i = i + 1;
    }
    assert(scans@.take(i as int) =~= scans@);
    out
}

/// The desktop files that became applications, as (id, path) pairs in
/// discovery order: where each application is launched from.
pub open spec fn launch_pairs(files: Seq<(Seq<char>, Seq<char>)>, app_ids: Seq<Seq<char>>) -> Seq<(Seq<char>, Seq<char>)>
    decreases files.len(),
{
    if files.len() == 0 {
        Seq::empty()
    } else {
        let rest = launch_pairs(files.drop_last(), app_ids);
        if app_ids.contains(files.last().0) {
            rest.push(files.last())
        } else {
            rest
        }
    }
}

pub open spec fn application_ids(apps: Seq<Application>) -> Seq<Seq<char>> {
    apps.map_values(|a: Application| a.id@)
}

pub open spec fn pair_views(v: Seq<(String, String)>) -> Seq<(Seq<char>, Seq<char>)> {
    v.map_values(|p: (String, String)| (p.0@, p.1@))
}

/// The launch path of each desktop file that became an application.
pub fn launch_paths(desktop_files: &[DesktopFile], applications: &[Application]) -> (r: Vec<(String, String)>)
    ensures
        pair_views(r@) == launch_pairs(desktop_file_views(desktop_files@), application_ids(applications@)),
{
    let ghost files = desktop_file_views(desktop_files@);
    let ghost ids = application_ids(applications@);
    let mut out: Vec<(String, String)> = Vec::new();
    let mut i: usize = 0;
    while i < desktop_files.len()
        invariant
            i <= desktop_files@.len(),
            files == desktop_file_views(desktop_files@),
            ids == application_ids(applications@),
            pair_views(out@) == launch_pairs(files.take(i as int), ids),
        decreases desktop_files@.len() - i,
    {
        assert(files.take(i + 1).drop_last() =~= files.take(i as int));
        assert(files.take(i + 1).last() == files[i as int]);
        let file = &desktop_files[i];
        let mut found = false;
        let mut k: usize = 0;
        while k < applications.len()
            invariant
                k <= applications@.len(),
                ids == application_ids(applications@),
                found == (exists|m: int| 0 <= m < k && ids[m] == file.id@),
            decreases applications@.len() - k,
        {
            assert(ids[k as int] == applications@[k as int].id@);
            if applications[k].id == file.id {
                found = true;
            }
            k = k + 1;
        }
        assert(found == ids.contains(files[i as int].0));
        if found {
            let ghost prev = pair_views(out@);
            out.push((file.id.clone(), file.path.clone()));
            assert(pair_views(out@) =~= prev.push(files[i as int]));
        }
        i = i + 1;
    }
    assert(files.take(i as int) =~= files);
    out
}


/// What the application model reads of a decoded desktop entry: `Type`,
/// `Hidden`, `NoDisplay`, the `Name` for the user's locales, `Exec`,
/// `Icon`, `Categories` and `Terminal`.
#[derive(Debug, Clone)]
pub struct ApplicationEntry {
    pub type_: Option<String>,
    pub hidden: bool,
    pub no_display: bool,
    pub name: Option<String>,
    pub exec_value: Option<String>,
    pub icon: Option<String>,
    pub categories: Option<Vec<String>>,
    pub terminal: bool,
}

pub type AppView = (Seq<char>, Seq<char>, Seq<char>, Option<Seq<char>>, Seq<Seq<char>>, bool);

/// The texts trimmed, the empty ones dropped.
pub open spec fn trimmed_nonempty(v: Seq<Seq<char>>) -> Seq<Seq<char>>
    decreases v.len(),
{
    if v.len() == 0 {
        Seq::empty()
    } else {
        let rest = trimmed_nonempty(v.drop_last());
        if trim(v.last()).len() > 0 {
            rest.push(trim(v.last()))
        } else {
            rest
        }
    }
}

pub open spec fn icon_of(icon: Option<Seq<char>>) -> Option<Seq<char>> {
    match icon {
        Some(i) => if trim(i).len() > 0 {
            Some(trim(i))
        } else {
            None
        },
        None => None,
    }
}

/// The categories of an entry, by view.
pub open spec fn opt_strings_view(c: Option<Vec<String>>) -> Option<Seq<Seq<char>>> {
    match c {
        Some(v) => Some(string_views(v@)),
        None => None,
    }
}

/// What the application model reads of a decoded entry, by view: `Type`,
/// `Hidden`, `NoDisplay`, `Name`, `Exec`, `Icon`, `Categories` and
/// `Terminal`.
pub open spec fn entry_view(e: ApplicationEntry) -> (
    Option<Seq<char>>,
    bool,
    bool,
    Option<Seq<char>>,
    Option<Seq<char>>,
    Option<Seq<char>>,
    Option<Seq<Seq<char>>>,
    bool,
) {
    (
        opt_view(e.type_),
        e.hidden,
        e.no_display,
        opt_view(e.name),
        opt_view(e.exec_value),
        opt_view(e.icon),
        opt_strings_view(e.categories),
        e.terminal,
    )
}

/// The application an entry's fields describe: only a visible
/// `Application` with a non-blank name and command; names, commands, icon
/// and categories trimmed.
pub open spec fn application_of_view(
    id: Seq<char>,
    e: (
        Option<Seq<char>>,
        bool,
        bool,
        Option<Seq<char>>,
        Option<Seq<char>>,
        Option<Seq<char>>,
        Option<Seq<Seq<char>>>,
        bool,
    ),
) -> Option<AppView> {
    if e.0 != Some("Application"@) || e.1 || e.2 {
        None
    } else {
        match (e.3, e.4) {
            (Some(n), Some(x)) => if trim(n).len() == 0 || trim(x).len() == 0 {
                None
            } else {
                Some(
                    (
                        id,
                        trim(n),
                        trim(x),
                        icon_of(e.5),
                        match e.6 {
                            Some(c) => trimmed_nonempty(c),
                            None => Seq::empty(),
                        },
                        e.7,
                    ),
                )
            },
            _ => None,
        }
    }
}

/// The application an entry describes.
pub open spec fn application_of(id: Seq<char>, e: ApplicationEntry) -> Option<AppView> {
    application_of_view(id, entry_view(e))
}

fn trimmed(s: &String) -> (r: String)
    ensures
        r@ == trim(s@),
{
    let t = trim_chars(chars_of(s.as_str()).as_slice());
    string_of(t.as_slice())
}

fn trimmed_categories(v: &Vec<String>) -> (r: Vec<String>)
    ensures
        string_views(r@) == trimmed_nonempty(string_views(v@)),
{
    let ghost sv = string_views(v@);
    let mut out: Vec<String> = Vec::new();
    let mut i: usize = 0;
    while i < v.len()
        invariant
            i <= v@.len(),
            sv == string_views(v@),
            string_views(out@) == trimmed_nonempty(sv.take(i as int)),
        decreases v@.len() - i,
    {
        assert(sv.take(i + 1).drop_last() =~= sv.take(i as int));
        assert(sv.take(i + 1).last() == v@[i as int]@);
        let t = trimmed(&v[i]);
        if crate::text::chars_of(t.as_str()).len() > 0 {
            let ghost prev = string_views(out@);
            out.push(t);
            assert(string_views(out@) =~= prev.push(t@));
        }
        i = i + 1;
    }
    assert(sv.take(i as int) =~= sv);
    out
}

/// The application a desktop entry describes, or `None` when it is not a
/// visible application with a usable name and command.
pub fn parse_application(id: &str, entry: &ApplicationEntry) -> (r: Option<Application>)
    ensures
        match r {
            Some(a) => application_of(id@, *entry) == Some(app_view(a)),
            None => application_of(id@, *entry) is None,
        },
{
    let is_application = match &entry.type_ {
        Some(t) => crate::text::eq_str(chars_of(t.as_str()).as_slice(), "Application"),
        None => false,
    };
    if !is_application || entry.hidden || entry.no_display {
        return None;
    }
    let (name, exec_line) = match (&entry.name, &entry.exec_value) {
        (Some(n), Some(x)) => (trimmed(n), trimmed(x)),
        _ => return None,
    };
    if chars_of(name.as_str()).len() == 0 || chars_of(exec_line.as_str()).len() == 0 {
        return None;
    }
    let icon = match &entry.icon {
        Some(i) => {
            let t = trimmed(i);
            if chars_of(t.as_str()).len() > 0 {
                Some(t)
            } else {
                None
            }
        },
        None => None,
    };
    let categories = match &entry.categories {
        Some(c) => trimmed_categories(c),
        None => Vec::new(),
    };
    proof {
        if entry.categories is None {
            assert(string_views(categories@) =~= Seq::<Seq<char>>::empty());
        }
    }
    Some(Application {
        id: id.to_owned(),
        name,
        exec_line,
        icon,
        categories,
        terminal: entry.terminal,
    })
}

/// The lowercase form of a text (`str::to_lowercase`, by the Unicode
/// `Lowercase` mapping).
pub uninterp spec fn lowercase(s: Seq<char>) -> Seq<char>;

/// `str::to_lowercase` (std). The result is named (`lowercase`), a function
/// of the text alone; the Unicode case mapping itself is not stated.
#[verifier::external_body]
fn to_lowercase(s: &str) -> (r: String)
    ensures
        r@ == lowercase(s@),
{
    s.to_lowercase()
}

/// The applications' order: by lowercase name, then by id.
pub open spec fn app_le(a: AppView, b: AppView) -> bool {
    if lowercase(a.1) == lowercase(b.1) {
        text_le(a.0, b.0)
    } else {
        text_le(lowercase(a.1), lowercase(b.1))
    }
}

/// `p` inserted after every application that does not order after it.
pub open spec fn insert_app(s: Seq<AppView>, p: AppView) -> Seq<AppView>
    decreases s.len(),
{
    if s.len() == 0 {
        seq![p]
    } else if app_le(s.last(), p) {
        s.push(p)
    } else {
        insert_app(s.drop_last(), p).push(s.last())
    }
}

/// A stable sort by lowercase name, then id.
pub open spec fn sort_apps(s: Seq<AppView>) -> Seq<AppView>
    decreases s.len(),
{
    if s.len() == 0 {
        Seq::empty()
    } else {
        insert_app(sort_apps(s.drop_last()), s.last())
    }
}

/// The applications of the entries, in entry order.
pub open spec fn parsed_applications(es: Seq<(String, ApplicationEntry)>) -> Seq<AppView>
    decreases es.len(),
{
    if es.len() == 0 {
        Seq::empty()
    } else {
        let rest = parsed_applications(es.drop_last());
        match application_of(es.last().0@, es.last().1) {
            Some(a) => rest.push(a),
            None => rest,
        }
    }
}

proof fn lemma_insert_app_at(s: Seq<AppView>, p: AppView, pos: int)
    requires
        0 <= pos <= s.len(),
        pos == 0 || app_le(s[pos - 1], p),
        forall|k: int| pos <= k < s.len() ==> !app_le(#[trigger] s[k], p),
    ensures
        insert_app(s, p) == s.take(pos).push(p) + s.skip(pos),
    decreases s.len(),
{
    if s.len() == pos {
        assert(s.skip(pos) =~= Seq::<AppView>::empty());
        if pos == 0 {
            assert(s.take(pos).push(p) =~= seq![p]);
        } else {
            assert(s.take(pos) =~= s);
        }
        assert(s.take(pos).push(p) + s.skip(pos) =~= s.take(pos).push(p));
    } else {
        let d = s.drop_last();
        assert(!app_le(s[s.len() - 1], p));
        assert forall|k: int| pos <= k < d.len() implies !app_le(#[trigger] d[k], p) by {
            assert(d[k] == s[k]);
        }
        if pos > 0 {
            assert(d[pos - 1] == s[pos - 1]);
        }
        lemma_insert_app_at(d, p, pos);
        assert(d.take(pos) =~= s.take(pos));
        assert((d.take(pos).push(p) + d.skip(pos)).push(s.last()) =~= s.take(pos).push(p) + s.skip(
            pos,
        ));
    }
}

fn app_le_exec(a_lower: &String, a: &Application, b_lower: &String, b: &Application) -> (r: bool)
    requires
        a_lower@ == lowercase(a.name@),
        b_lower@ == lowercase(b.name@),
    ensures
        r == app_le(app_view(*a), app_view(*b)),
{
    if *a_lower == *b_lower {
        text_le_exec(&a.id, &b.id)
    } else {
        text_le_exec(a_lower, b_lower)
    }
}

pub open spec fn keyed_apps(v: Seq<(String, Application)>) -> Seq<AppView> {
    v.map_values(|p: (String, Application)| app_view(p.1))
}

/// The visible applications of the decoded entries (each with its desktop
/// file id), ordered by lowercase name and then id; entries that are not
/// launchable applications are skipped.
pub fn applications_from(entries: &[(String, ApplicationEntry)]) -> (r: Vec<Application>)
    ensures
        app_views(r@) == sort_apps(parsed_applications(entries@)),
{
    let ghost all = parsed_applications(entries@);
    let mut out: Vec<(String, Application)> = Vec::new();
    let mut i: usize = 0;
    assert(entries@.take(0) =~= Seq::<(String, ApplicationEntry)>::empty());
    while i < entries.len()
        invariant
            i <= entries@.len(),
            all == parsed_applications(entries@),
            keyed_apps(out@) == sort_apps(parsed_applications(entries@.take(i as int))),
            forall|k: int| 0 <= k < out@.len() ==> (#[trigger] out@[k]).0@ == lowercase(out@[k].1.name@),
        decreases entries@.len() - i,
    {
        assert(entries@.take(i + 1).drop_last() =~= entries@.take(i as int));
        assert(entries@.take(i + 1).last() == entries@[i as int]);
        let (id, entry) = &entries[i];
        match parse_application(id.as_str(), entry) {
            Some(app) => {
                let lower = to_lowercase(app.name.as_str());
                let ghost ov = keyed_apps(out@);
                let mut pos: usize = out.len();
                while pos > 0 && !app_le_exec(&out[pos - 1].0, &out[pos - 1].1, &lower, &app)
                    invariant
                        pos <= out@.len(),
                        ov == keyed_apps(out@),
                        lower@ == lowercase(app.name@),
                        forall|k: int| 0 <= k < out@.len() ==> (#[trigger] out@[k]).0@ == lowercase(out@[k].1.name@),
                        forall|j: int| pos <= j < ov.len() ==> !app_le(#[trigger] ov[j], app_view(app)),
                    decreases pos,
                {
                    assert(ov[pos - 1] == app_view(out@[pos - 1].1));
                    pos = pos - 1;
                }
                proof {
                    if pos > 0 {
                        assert(ov[pos - 1] == app_view(out@[pos - 1].1));
                    }
                    lemma_insert_app_at(ov, app_view(app), pos as int);
                }
                let ghost av = app_view(app);
                let ghost old_out = out@;
                out.insert(pos, (lower, app));
                proof {
                    let before = parsed_applications(entries@.take(i as int));
                    assert(parsed_applications(entries@.take(i + 1)) == before.push(av));
                    assert(before.push(av).drop_last() =~= before);
                    assert(keyed_apps(out@) =~= ov.take(pos as int).push(av) + ov.skip(pos as int));
                    assert forall|k: int| 0 <= k < out@.len() implies (#[trigger] out@[k]).0@ == lowercase(out@[k].1.name@) by {
                        if k < pos {
                            assert(out@[k] == old_out[k]);
                        } else if k > pos {
                            assert(out@[k] == old_out[k - 1]);
                        }
                    }
                }
            },
            None => {
                assert(parsed_applications(entries@.take(i + 1)) == parsed_applications(entries@.take(i as int)));
            },
        }
        i = i + 1;
    }
    assert(entries@.take(i as int) =~= entries@);
    let mut result: Vec<Application> = Vec::new();
    let ghost sorted = keyed_apps(out@);
    let ghost mut k: int = 0;
    while out.len() > 0
        invariant
            0 <= k,
            sorted.len() == k + out@.len(),
            app_views(result@) == sorted.take(k),
            keyed_apps(out@) == sorted.skip(k),
        decreases out@.len(),
    {
        let (_, app) = out.remove(0);
        proof {
            assert(sorted.skip(k)[0] == app_view(app));
            assert(sorted.skip(k).drop_first() =~= sorted.skip(k + 1));
            assert(keyed_apps(out@) =~= sorted.skip(k + 1));
        }
        let ghost prev = app_views(result@);
        result.push(app);
        proof {
            assert(app_views(result@) =~= prev.push(app_view(app)));
            assert(sorted.take(k + 1) =~= sorted.take(k).push(app_view(app)));
            k = k + 1;
        }
    }
    assert(sorted.take(k) =~= sorted);
    result
}


/// What `DesktopEntry::from_str` (freedesktop-desktop-entry) makes of the
/// text of the desktop file at `path` for the user's `locales`: the fields
/// the application model reads (`Type`, `Hidden`, `NoDisplay`, the `Name`
/// chosen from the locales, `Exec`, `Icon`, `Categories` split at `;`,
/// `Terminal`) and `TryExec`; or the decoder's error text.
pub uninterp spec fn desktop_entry_fields(path: Seq<char>, text: Seq<char>, locales: Seq<Seq<char>>) -> Result<
    (
        (
            Option<Seq<char>>,
            bool,
            bool,
            Option<Seq<char>>,
            Option<Seq<char>>,
            Option<Seq<char>>,
            Option<Seq<Seq<char>>>,
            bool,
        ),
        Option<Seq<char>>,
    ),
    Seq<char>,
>;

/// `DesktopEntry::from_str` of freedesktop-desktop-entry on a desktop file's
/// text, with the user's locales as the filter, then its accessors `type_`,
/// `hidden`, `no_display`, `name`, `exec`, `icon`, `categories`, `terminal`
/// and `try_exec`. The crate is built without its `gettext` feature, so the
/// decoding is a function of the path, the text and the locales alone; the
/// contract names it (`desktop_entry_fields`).
#[verifier::external_body]
pub(crate) fn decode_desktop_entry(path: &str, text: &str, locales: &[String]) -> (r: Result<(ApplicationEntry, Option<String>), String>)
    ensures
        match desktop_entry_fields(path@, text@, string_views(locales@)) {
            Ok(f) => r matches Ok(d) && entry_view(d.0) == f.0 && opt_view(d.1) == f.1,
            Err(m) => r matches Err(x) && x@ == m,
        },
{
    let e = match DesktopEntry::from_str(path, text, Some(locales)) { Ok(e) => e, Err(error) => return Err(error.to_string()) };
    let categories = e.categories().map(|c| c.into_iter().map(String::from).collect());
    let fields = ApplicationEntry { type_: e.type_().map(String::from), hidden: e.hidden(), no_display: e.no_display(),
        name: e.name(locales).map(|n| n.into_owned()), exec_value: e.exec().map(String::from),
        icon: e.icon().map(String::from), categories, terminal: e.terminal() };
    Ok((fields, e.try_exec().map(String::from)))
}

pub open spec fn opt_app_view(a: Option<Application>) -> Option<AppView> {
    match a {
        Some(x) => Some(app_view(x)),
        None => None,
    }
}

/// The application a desktop file describes, from the file's text: `None`
/// for a file that does not decode, otherwise the application its decoded
/// fields describe.
pub fn load_application(id: &str, path: &str, text: &str, locales: &[String]) -> (r: Option<Application>)
    ensures
        opt_app_view(r) == match desktop_entry_fields(path@, text@, string_views(locales@)) {
            Err(_) => None,
            Ok(f) => application_of_view(id@, f.0),
        },
{
    match decode_desktop_entry(path, text, locales) {
        Ok((entry, _)) => parse_application(id, &entry),
        Err(_) => None,
    }
}

/// A desktop file to load: its desktop file id, its path and its text.
#[derive(Debug, Clone)]
pub struct DesktopSource {
    pub id: String,
    pub path: String,
    pub text: String,
}

/// The entries the sources decode to, each with its desktop file id, in
/// source order; sources that do not decode contribute nothing.
pub open spec fn decoded_entries(sources: Seq<DesktopSource>, locales: Seq<Seq<char>>) -> Seq<(Seq<char>, (
    Option<Seq<char>>,
    bool,
    bool,
    Option<Seq<char>>,
    Option<Seq<char>>,
    Option<Seq<char>>,
    Option<Seq<Seq<char>>>,
    bool,
))>
    decreases sources.len(),
{
    if sources.len() == 0 {
        Seq::empty()
    } else {
        let last = sources.last();
        let rest = decoded_entries(sources.drop_last(), locales);
        match desktop_entry_fields(last.path@, last.text@, locales) {
            Err(_) => rest,
            Ok(f) => rest.push((last.id@, f.0)),
        }
    }
}

/// The applications of the entries (each with its desktop file id), in
/// entry order.
pub open spec fn parsed_views(es: Seq<(Seq<char>, (
    Option<Seq<char>>,
    bool,
    bool,
    Option<Seq<char>>,
    Option<Seq<char>>,
    Option<Seq<char>>,
    Option<Seq<Seq<char>>>,
    bool,
))>) -> Seq<AppView>
    decreases es.len(),
{
    if es.len() == 0 {
        Seq::empty()
    } else {
        let rest = parsed_views(es.drop_last());
        match application_of_view(es.last().0, es.last().1) {
            Some(a) => rest.push(a),
            None => rest,
        }
    }
}

pub open spec fn keyed_entry_views(es: Seq<(String, ApplicationEntry)>) -> Seq<(Seq<char>, (
    Option<Seq<char>>,
    bool,
    bool,
    Option<Seq<char>>,
    Option<Seq<char>>,
    Option<Seq<char>>,
    Option<Seq<Seq<char>>>,
    bool,
))> {
    es.map_values(|p: (String, ApplicationEntry)| (p.0@, entry_view(p.1)))
}

proof fn lemma_parsed_views(es: Seq<(String, ApplicationEntry)>)
    ensures
        parsed_applications(es) == parsed_views(keyed_entry_views(es)),
    decreases es.len(),
{
    if es.len() > 0 {
        lemma_parsed_views(es.drop_last());
        assert(keyed_entry_views(es).drop_last() =~= keyed_entry_views(es.drop_last()));
    }
}

/// The registry of the desktop files, from their texts: each file decoded
/// for the user's locales, the visible applications kept, ordered by
/// lowercase name and then id; a file that does not decode is skipped.
pub fn applications_from_texts(sources: &[DesktopSource], locales: &[String]) -> (r: Vec<Application>)
    ensures
        app_views(r@) == sort_apps(parsed_views(decoded_entries(sources@, string_views(locales@)))),
{
    let ghost lv = string_views(locales@);
    let mut entries: Vec<(String, ApplicationEntry)> = Vec::new();
    let mut i: usize = 0;
    while i < sources.len()
        invariant
            i <= sources@.len(),
            lv == string_views(locales@),
            keyed_entry_views(entries@) == decoded_entries(sources@.take(i as int), lv),
        decreases sources@.len() - i,
    {
        assert(sources@.take(i + 1).drop_last() =~= sources@.take(i as int));
        assert(sources@.take(i + 1).last() == sources@[i as int]);
        let source = &sources[i];
        match decode_desktop_entry(source.path.as_str(), source.text.as_str(), locales) {
            Ok((entry, _)) => {
                let ghost before = keyed_entry_views(entries@);
                entries.push((source.id.clone(), entry));
                assert(keyed_entry_views(entries@) =~= before.push((source.id@, entry_view(entry))));
            },
            Err(_) => {},
        }
        i = i + 1;
    }
    assert(sources@.take(i as int) =~= sources@);
    let r = applications_from(entries.as_slice());
    proof {
        lemma_parsed_views(entries@);
    }
    r
}


/// A desktop entry becomes an application exactly when it is a visible
/// `Application` with a non-blank name and command; the application then
/// carries the entry's desktop id, its trimmed name and command, and the
/// entry's own `Terminal` flag, so a terminal program stays marked as one.
pub proof fn lemma_application_reflects_entry(
    id: Seq<char>,
    e: (
        Option<Seq<char>>,
        bool,
        bool,
        Option<Seq<char>>,
        Option<Seq<char>>,
        Option<Seq<char>>,
        Option<Seq<Seq<char>>>,
        bool,
    ),
)
    ensures
        match application_of_view(id, e) {
            Some(a) => {
                &&& a.0 == id
                &&& a.5 == e.7
                &&& e.0 == Some("Application"@)
                &&& !e.1
                &&& !e.2
                &&& e.3 is Some && a.1 == trim(e.3.unwrap()) && a.1.len() > 0
                &&& e.4 is Some && a.2 == trim(e.4.unwrap()) && a.2.len() > 0
            },
            None => e.0 != Some("Application"@) || e.1 || e.2 || e.3 is None || e.4 is None || trim(
                e.3.unwrap(),
            ).len() == 0 || trim(e.4.unwrap()).len() == 0,
        },
{
}

} // verus!
