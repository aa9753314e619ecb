//! Reading an archive: which entries are kept, which one is the database, and
//! the media list that the manifest describes.
use crate::domains::Media;
use crate::error::Error;
use crate::manifest::{json_string_members, order_manifest, ordered_members, pairs_view, parse_manifest};
use crate::text::{contains_char, ends_with, has_suffix, join_path, path_join, same_text};
use vstd::prelude::*;

verus! {

/// The extension of the legacy database file.
pub open spec fn legacy_ext() -> Seq<char> {
    seq!['.', 'a', 'n', 'k', 'i', '2']
}

/// The extension of the current database file.
pub open spec fn current_ext() -> Seq<char> {
    seq!['.', 'a', 'n', 'k', 'i', '2', '1']
}

/// The name of the manifest entry.
pub open spec fn manifest_name() -> Seq<char> {
    seq!['m', 'e', 'd', 'i', 'a']
}

/// What an archive entry is, by its name.
#[derive(Debug, Clone, Copy, PartialEq, Eq)]
pub enum EntryKind {
    LegacyDatabase,
    Database,
    Manifest,
    Other,
}

/// The kind of the entry named `name`.
pub open spec fn kind_of(name: Seq<char>) -> EntryKind {
    if has_suffix(name, legacy_ext()) {
        EntryKind::LegacyDatabase
    } else if has_suffix(name, current_ext()) {
        EntryKind::Database
    } else if name == manifest_name() {
        EntryKind::Manifest
    } else {
        EntryKind::Other
    }
}

/// Tells the kind of the entry named `name`.
pub fn classify_entry(name: &str) -> (r: EntryKind)
    ensures
        r == kind_of(name@),
{
    proof {
        reveal_strlit(".anki2");
        reveal_strlit(".anki21");
        reveal_strlit("media");
        assert(".anki2"@ =~= legacy_ext());
        assert(".anki21"@ =~= current_ext());
        assert("media"@ =~= manifest_name());
    }
    if ends_with(name, ".anki2") {
        EntryKind::LegacyDatabase
    } else if ends_with(name, ".anki21") {
        EntryKind::Database
    } else if same_text(name, "media") {
        EntryKind::Manifest
    } else {
        EntryKind::Other
    }
}

/// Whether `n` names a file directly inside a directory: not empty, not `.` or
/// `..`, and free of path separators and NUL.
pub open spec fn is_safe_name(n: Seq<char>) -> bool {
    &&& n.len() > 0
    &&& n != seq!['.']
    &&& n != seq!['.', '.']
    &&& !n.contains('/')
    &&& !n.contains('\\')
    &&& !n.contains('\0')
}

/// Whether `n` names a file directly inside a directory.
pub fn is_safe_file_name(n: &str) -> (r: bool)
    ensures
        r == is_safe_name(n@),
{
    proof {
        reveal_strlit(".");
        reveal_strlit("..");
        assert("."@ =~= seq!['.']);
        assert(".."@ =~= seq!['.', '.']);
    }
    n.unicode_len() > 0 && !same_text(n, ".") && !same_text(n, "..") && !contains_char(n, '/')
        && !contains_char(n, '\\') && !contains_char(n, '\0')
}

/// One entry of an archive: its file name, when the archive gives one that is
/// enclosed in the archive, and its bytes.
#[derive(Debug, Clone, PartialEq, Eq, Default)]
pub struct ArchiveEntry {
    pub name: Option<String>,
    pub data: Vec<u8>,
}

/// The name under which an entry is kept, if it is kept.
pub open spec fn entry_name(e: ArchiveEntry) -> Option<Seq<char>> {
    match e.name {
        Some(n) => if is_safe_name(n@) {
            Some(n@)
        } else {
            None
        },
        None => None,
    }
}

/// Whether entry `k` is a kept current database file.
pub open spec fn is_current_at(es: Seq<ArchiveEntry>, k: int) -> bool {
    0 <= k < es.len() && entry_name(es[k]) is Some && kind_of(entry_name(es[k])->Some_0)
        == EntryKind::Database
}

/// Whether entry `k` is a kept legacy database file.
pub open spec fn is_legacy_at(es: Seq<ArchiveEntry>, k: int) -> bool {
    0 <= k < es.len() && entry_name(es[k]) is Some && kind_of(entry_name(es[k])->Some_0)
        == EntryKind::LegacyDatabase
}

/// Whether the archive holds a database file of either kind.
pub open spec fn has_database(es: Seq<ArchiveEntry>) -> bool {
    exists|k: int| is_current_at(es, k) || is_legacy_at(es, k)
}

/// Whether entry `k` is the database to load: the last current database file,
/// or, when there is none, the first legacy one.
pub open spec fn is_chosen(es: Seq<ArchiveEntry>, k: int) -> bool {
    ||| is_current_at(es, k) && forall|j: int| k < j < es.len() ==> !is_current_at(es, j)
    ||| (forall|j: int| 0 <= j < es.len() ==> !is_current_at(es, j)) && is_legacy_at(es, k) && (
    forall|j: int| 0 <= j < k ==> !is_legacy_at(es, j))
}

/// The name under which an entry is kept, if it is kept.
pub fn kept_name(e: &ArchiveEntry) -> (r: Option<&String>)
    ensures
        r matches Some(n) ==> entry_name(*e) == Some(n@),
        r is None ==> entry_name(*e) is None,
{
    match &e.name {
        Some(n) => if is_safe_file_name(n.as_str()) {
            Some(n)
        } else {
            None
        },
        None => None,
    }
}

/// The entry that holds the database to load: the last current database file,
/// or, when there is none, the first legacy one.
pub fn select_database(entries: &Vec<ArchiveEntry>) -> (r: Option<usize>)
    ensures
        r is None <==> !has_database(entries@),
        r matches Some(k) ==> is_chosen(entries@, k as int),
{
    let ghost es = entries@;
    let mut chosen: Option<usize> = None;
    let mut saw_current = false;
    let mut k: usize = 0;
    while k < entries.len()
        invariant
            es == entries@,
            k <= es.len(),
            chosen is None <==> forall|j: int|
                0 <= j < k ==> !is_current_at(es, j) && !is_legacy_at(es, j),
            saw_current <==> exists|j: int| 0 <= j < k && is_current_at(es, j),
            saw_current ==> (chosen matches Some(c) && is_current_at(es, c as int) && forall|j: int|
                c < j < k ==> !is_current_at(es, j)),
            !saw_current ==> (chosen matches Some(c) ==> is_legacy_at(es, c as int) && c < k
                && forall|j: int| 0 <= j < c ==> !is_legacy_at(es, j)),
        decreases es.len() - k,
    {
        let ghost ck = is_current_at(es, k as int);
        let ghost lk = is_legacy_at(es, k as int);
        match kept_name(&entries[k]) {
            Some(n) => {
                match classify_entry(n.as_str()) {
                    EntryKind::Database => {
                        assert(ck);
                        chosen = Some(k);
                        saw_current = true;
                    },
                    EntryKind::LegacyDatabase => {
                        assert(lk && !ck);
                        if chosen.is_none() {
                            chosen = Some(k);
                        }
                    },
                    _ => {
                        assert(!ck && !lk);
                    },
                }
            },
            None => {
                assert(!ck && !lk);
            },
        }
        proof {
            if ck {
                assert(exists|j: int| 0 <= j < k + 1 && is_current_at(es, j)) by {
                    assert(is_current_at(es, k as int));
                }
            }
            if lk {
                assert(!(forall|j: int| 0 <= j < k + 1 ==> !is_current_at(es, j) && !is_legacy_at(es, j)));
            }
        }
        k += 1;
    }
    chosen
}

/// The view of a media entry: its name and path.
pub open spec fn media_views(ms: Seq<Media>) -> Seq<(Seq<char>, Seq<char>)> {
    ms.map_values(|m: Media| (m.name@, m.path@))
}

/// The media that a manifest member describes: its name, read from the working
/// directory's file named by its key.
pub open spec fn media_of(dir: Seq<char>, member: (Seq<char>, Seq<char>)) -> (Seq<char>, Seq<char>) {
    (member.1, path_join(dir, member.0))
}

/// The media list that the manifest `members` describes, in index order.
pub open spec fn members_medias(dir: Seq<char>, members: Seq<(Seq<char>, Seq<char>)>) -> Seq<
    (Seq<char>, Seq<char>),
> {
    ordered_members(members).map_values(|m: (Seq<char>, Seq<char>)| media_of(dir, m))
}

/// The media list that one manifest file describes; empty when it is malformed.
pub open spec fn manifest_medias(dir: Seq<char>, bytes: Seq<u8>) -> Seq<(Seq<char>, Seq<char>)> {
    match json_string_members(bytes) {
        Some(members) => members_medias(dir, members),
        None => Seq::empty(),
    }
}

/// The files written while reading `es` into `dir`: each kept entry, under its
/// name, with its position.
pub open spec fn planned_files(dir: Seq<char>, es: Seq<ArchiveEntry>) -> Seq<(Seq<char>, int)>
    decreases es.len(),
{
    if es.len() == 0 {
        Seq::empty()
    } else {
        let before = planned_files(dir, es.drop_last());
        match entry_name(es.last()) {
            Some(n) => before.push((path_join(dir, n), es.len() - 1)),
            None => before,
        }
    }
}

/// The media list read from `es`: what each kept manifest entry describes, in order.
pub open spec fn planned_medias(dir: Seq<char>, es: Seq<ArchiveEntry>) -> Seq<(Seq<char>, Seq<char>)>
    decreases es.len(),
{
    if es.len() == 0 {
        Seq::empty()
    } else {
        let before = planned_medias(dir, es.drop_last());
        if entry_name(es.last()) == Some(manifest_name()) {
            before + manifest_medias(dir, es.last().data@)
        } else {
            before
        }
    }
}

/// The view of the planned files: path and entry position.
pub open spec fn files_view(v: Seq<(String, usize)>) -> Seq<(Seq<char>, int)> {
    v.map_values(|p: (String, usize)| (p.0@, p.1 as int))
}

/// What reading an archive into a working directory comes to.
#[derive(Debug, Clone, PartialEq, Default)]
pub struct ImportPlan {
    /// Where the database to load is written.
    pub database: String,
    /// Each file to write: its path and the position of the entry whose bytes it holds.
    pub files: Vec<(String, usize)>,
    /// The media list that the manifest describes.
    pub medias: Vec<Media>,
}

/// The media list that the manifest `members` describes, in index order, each
/// media read from the file of `work_dir` named by its key.
pub fn medias_from_manifest(work_dir: &str, members: Vec<(String, String)>) -> (r: Vec<Media>)
    ensures
        media_views(r@) == members_medias(work_dir@, pairs_view(members@)),
{
    let ordered = order_manifest(members);
    let ghost want = members_medias(work_dir@, pairs_view(members@));
    let mut out: Vec<Media> = Vec::new();
    let mut i: usize = 0;
    while i < ordered.len()
        invariant
            pairs_view(ordered@) == ordered_members(pairs_view(members@)),
            want == members_medias(work_dir@, pairs_view(members@)),
            want.len() == ordered@.len(),
            i <= ordered@.len(),
            out@.len() == i,
            forall|k: int| 0 <= k < i ==> (#[trigger] media_views(out@)[k]) == want[k],
        decreases ordered@.len() - i,
    {
        let path = join_path(work_dir, ordered[i].0.as_str());
        let ghost prev = out@;
        out.push(Media { name: ordered[i].1.clone(), path });
        proof {
            assert(pairs_view(ordered@)[i as int] == (ordered@[i as int].0@, ordered@[i as int].1@));
            assert forall|k: int| 0 <= k < i + 1 implies (#[trigger] media_views(out@)[k]) == want[k] by {
                if k < i {
                    assert(media_views(out@)[k] == media_views(prev)[k]);
                }
            }
        }
        i += 1;
    }
    assert(media_views(out@) =~= want);
    out
}

/// The media list that one manifest file describes; empty when it is malformed.
pub fn medias_from_manifest_file(work_dir: &str, bytes: &Vec<u8>) -> (r: Vec<Media>)
    ensures
        media_views(r@) == manifest_medias(work_dir@, bytes@),
{
    match parse_manifest(bytes) {
        Some(members) => medias_from_manifest(work_dir, members),
        None => {
            let r: Vec<Media> = Vec::new();
            assert(media_views(r@) =~= Seq::empty());
            r
        },
    }
}

/// Reads the entries of an archive into the working directory `work_dir`: every
/// kept entry is written under its name, the manifest entries give the media
/// list, and the database is the last current database file or, when there is
/// none, the first legacy one. Fails when the archive holds no database file.
pub fn plan_import(work_dir: &str, entries: &Vec<ArchiveEntry>) -> (r: Result<ImportPlan, Error>)
    ensures
        r is Err <==> !has_database(entries@),
        r matches Err(e) ==> e is NoDatabaseFound,
        r matches Ok(p) ==> exists|k: int|
            #[trigger] is_chosen(entries@, k) && p.database@ == path_join(
                work_dir@,
                entry_name(entries@[k])->Some_0,
            ),
        r matches Ok(p) ==> files_view(p.files@) == planned_files(work_dir@, entries@),
        r matches Ok(p) ==> media_views(p.medias@) == planned_medias(work_dir@, entries@),
{
    let ghost es = entries@;
    let mut files: Vec<(String, usize)> = Vec::new();
    let mut medias: Vec<Media> = Vec::new();
    let mut k: usize = 0;
    while k < entries.len()
        invariant
            es == entries@,
            k <= es.len(),
            files_view(files@) == planned_files(work_dir@, es.subrange(0, k as int)),
            media_views(medias@) == planned_medias(work_dir@, es.subrange(0, k as int)),
        decreases es.len() - k,
    {
        let ghost upto = es.subrange(0, k + 1);
        assert(upto.drop_last() =~= es.subrange(0, k as int));
        assert(upto.last() == es[k as int]);
        let ghost files_before = files@;
        let ghost medias_before = medias@;
        match kept_name(&entries[k]) {
            Some(n) => {
                let path = join_path(work_dir, n.as_str());
                files.push((path, k));
                assert(files_view(files@) =~= files_view(files_before).push((path@, k as int)));
                let is_manifest = match classify_entry(n.as_str()) {
                    EntryKind::Manifest => true,
                    _ => false,
                };
                if is_manifest {
                    let mut found = medias_from_manifest_file(work_dir, &entries[k].data);
                    let ghost found_view = found@;
                    medias.append(&mut found);
                    assert(media_views(medias@) =~= media_views(medias_before) + media_views(
                        found_view,
                    ));
                } else {
                    assert(n@ != manifest_name());
                }
            },
            None => {},
        }
        k += 1;
    }
    assert(es.subrange(0, es.len() as int) =~= es);
    match select_database(entries) {
        None => Err(Error::NoDatabaseFound),
        Some(d) => match kept_name(&entries[d]) {
            Some(n) => {
                let database = join_path(work_dir, n.as_str());
                Ok(ImportPlan { database, files, medias })
            },
            None => Err(Error::NoDatabaseFound),
        },
    }
}

} // verus!
