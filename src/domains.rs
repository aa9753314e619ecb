//! The in-memory model of one archive: notes, media, note types and the
//! collection that owns them.
use crate::error::Error;
use crate::manifest::{json_object_text, manifest_of, manifest_text, pairs_view};
use crate::text::{
    decimal, decimal_string, has_prefix, join_path, path_join, same_text, starts_with, views,
};
use vstd::prelude::*;

verus! {

/// The text that opens a sound marker.
pub open spec fn sound_prefix() -> Seq<char> {
    seq!['[', 's', 'o', 'u', 'n', 'd', ':']
}

/// The extension of the audio files, with its dot.
pub open spec fn mp3_ext() -> Seq<char> {
    seq!['.', 'm', 'p', '3']
}

/// The sound marker that plays `<sfld>.mp3`.
pub open spec fn marker(sfld: Seq<char>) -> Seq<char> {
    sound_prefix() + sfld + mp3_ext().push(']')
}

/// The fields after the single-field insertion at `ord`: unchanged when that field
/// already holds a marker, else a new marker at `ord`, the later fields shifted right.
pub open spec fn inserted_sound(fields: Seq<Seq<char>>, sfld: Seq<char>, ord: int) -> Seq<Seq<char>> {
    if ord < fields.len() && has_prefix(fields[ord], sound_prefix()) {
        fields
    } else {
        fields.insert(ord, marker(sfld))
    }
}

/// One field after marker normalization.
pub open spec fn normalized_field(field: Seq<char>, sfld: Seq<char>) -> Seq<char> {
    if has_prefix(field, sound_prefix()) {
        marker(sfld)
    } else {
        field
    }
}

/// The fields after marker normalization: every field that opens a sound marker
/// becomes the marker built from `sfld`.
pub open spec fn normalized(fields: Seq<Seq<char>>, sfld: Seq<char>) -> Seq<Seq<char>> {
    fields.map_values(|f: Seq<char>| normalized_field(f, sfld))
}

/// The name of the field that holds the sound.
pub open spec fn sound_field_name() -> Seq<char> {
    seq!['发', '音']
}

/// Builds the sound marker for `sfld`.
pub fn sound_marker(sfld: &str) -> (r: String)
    ensures
        r@ == marker(sfld@),
{
    let mut r = String::from_str("[sound:");
    r.append(sfld);
    r.append(".mp3]");
    proof {
        reveal_strlit("[sound:");
        reveal_strlit(".mp3]");
    }
    assert(r@ =~= marker(sfld@));
    r
}

/// One note: its id, its sort field and its fields in stored order.
#[derive(Debug, Clone, PartialEq, Default)]
pub struct Note {
    pub id: String,
    pub sfld: String,
    pub fields: Vec<String>,
}

impl Note {
    /// Inserts a sound marker at position `ord`, unless the field there already
    /// holds one.
    pub fn add_sound(&mut self, ord: i32) -> (r: Result<(), Error>)
        requires
            0 <= ord <= old(self).fields@.len(),
        ensures
            r is Ok,
            final(self).id == old(self).id,
            final(self).sfld == old(self).sfld,
            views(final(self).fields@) == inserted_sound(
                views(old(self).fields@),
                old(self).sfld@,
                ord as int,
            ),
    {
        let pos = ord as usize;
        let ghost before = views(self.fields@);
        if pos < self.fields.len() {
            if starts_with(self.fields[pos].as_str(), "[sound:") {
                proof {
                    reveal_strlit("[sound:");
                    assert("[sound:"@ =~= sound_prefix());
                }
                return Ok(());
            }
        }
        proof {
            reveal_strlit("[sound:");
            assert("[sound:"@ =~= sound_prefix());
        }
        let m = sound_marker(self.sfld.as_str());
        self.fields.insert(pos, m);
        assert(views(self.fields@) =~= before.insert(ord as int, marker(self.sfld@)));
        Ok(())
    }
}

/// One media file: its logical name and where its bytes are read from.
#[derive(Debug, Clone, PartialEq, Eq, Hash, Default)]
pub struct Media {
    pub name: String,
    pub path: String,
}

/// The logical names of a media list.
pub open spec fn media_names(ms: Seq<Media>) -> Seq<Seq<char>> {
    ms.map_values(|m: Media| m.name@)
}

/// One card template of a note type.
#[derive(Debug, Clone, PartialEq, Default)]
pub struct CardTemplate {
    pub name: String,
    pub ord: i32,
    pub qfmt: String,
    pub afmt: String,
}

/// One field of a note type.
#[derive(Debug, Clone, PartialEq, Default)]
pub struct NoteField {
    pub name: String,
    pub ord: i32,
    pub font: String,
    pub size: i32,
}

/// A note type: its fields and card templates in order.
#[derive(Debug, Clone, PartialEq, Default)]
pub struct NoteType {
    pub id: String,
    pub name: String,
    pub tmpls: Vec<CardTemplate>,
    pub flds: Vec<NoteField>,
}

impl NoteType {
    /// The first field named as the sound field, if any.
    pub fn find_sound_field(&self) -> (r: Option<&NoteField>)
        ensures
            r is None <==> forall|i: int|
                0 <= i < self.flds@.len() ==> (#[trigger] self.flds@[i]).name@ != sound_field_name(),
            r matches Some(f) ==> exists|i: int|
                0 <= i < self.flds@.len() && *f == self.flds@[i] && f.name@ == sound_field_name()
                    && forall|j: int|
                    0 <= j < i ==> (#[trigger] self.flds@[j]).name@ != sound_field_name(),
    {
        let wanted = "发音";
        proof {
            reveal_strlit("发音");
            assert(wanted@ =~= sound_field_name());
        }
        let mut i: usize = 0;
        while i < self.flds.len()
            invariant
                wanted@ == sound_field_name(),
                i <= self.flds@.len(),
                forall|j: int| 0 <= j < i ==> (#[trigger] self.flds@[j]).name@ != sound_field_name(),
            decreases self.flds@.len() - i,
        {
            if same_text(self.flds[i].name.as_str(), wanted) {
                return Some(&self.flds[i]);
            }
            i += 1;
        }
        None
    }
}

/// The active configuration: the selected note type.
#[derive(Debug, Clone, PartialEq, Default)]
pub struct Conf {
    pub cur_model: NoteType,
}

impl Conf {
    /// The configuration that selects `cur_model`.
    pub fn new(cur_model: NoteType) -> (r: Self)
        ensures
            r.cur_model == cur_model,
    {
        Self { cur_model }
    }

    /// The selected note type.
    pub fn get_cur_model(&self) -> (r: &NoteType)
        ensures
            *r == self.cur_model,
    {
        &self.cur_model
    }
}

/// Whether `after` is `before` with its sound markers normalized.
pub open spec fn note_normalized(after: Note, before: Note) -> bool {
    &&& after.id == before.id
    &&& after.sfld == before.sfld
    &&& views(after.fields@) == normalized(views(before.fields@), before.sfld@)
}

/// Rewrites every field that opens a sound marker into the marker built from `sfld`.
pub fn normalize_fields(fields: &Vec<String>, sfld: &str) -> (r: Vec<String>)
    ensures
        views(r@) == normalized(views(fields@), sfld@),
{
    let prefix = "[sound:";
    proof {
        reveal_strlit("[sound:");
        assert(prefix@ =~= sound_prefix());
    }
    let mut out: Vec<String> = Vec::new();
    let mut j: usize = 0;
    while j < fields.len()
        invariant
            prefix@ == sound_prefix(),
            j <= fields@.len(),
            out@.len() == j,
            forall|k: int| 0 <= k < j ==> (#[trigger] out@[k])@ == normalized_field(fields@[k]@, sfld@),
        decreases fields@.len() - j,
    {
        if starts_with(fields[j].as_str(), prefix) {
            out.push(sound_marker(sfld));
        } else {
            out.push(fields[j].clone());
        }
        j += 1;
    }
    assert(views(out@) =~= normalized(views(fields@), sfld@));
    out
}

/// The media for the audio of a note whose sort field is `sfld`: named
/// `<sfld>.mp3`, read from `<voice_dir>/<first character of sfld>/<sfld>.mp3`.
/// `None` when `sfld` is empty.
pub fn sound_media(voice_dir: &str, sfld: &str) -> (r: Option<Media>)
    ensures
        r is None <==> sfld@.len() == 0,
        r matches Some(m) ==> {
            &&& m.name@ == sfld@ + mp3_ext()
            &&& m.path@ == path_join(path_join(voice_dir@, seq![sfld@[0]]), sfld@ + mp3_ext())
        },
{
    if sfld.unicode_len() == 0 {
        return None;
    }
    let mut name = String::from_str(sfld);
    name.append(".mp3");
    proof {
        reveal_strlit(".mp3");
        assert(".mp3"@ =~= mp3_ext());
    }
    let first = sfld.substring_char(0, 1);
    assert(first@ =~= seq![sfld@[0]]);
    let bucket = join_path(voice_dir, first);
    let path = join_path(bucket.as_str(), name.as_str());
    Some(Media { name, path })
}

/// One working session: a working directory, the active configuration, and the
/// notes and media of the archive.
#[derive(Debug, Clone, PartialEq, Default)]
pub struct Collection {
    pub work_dir: String,
    pub conf: Conf,
    pub notes: Vec<Note>,
    pub medias: Vec<Media>,
}

impl Collection {
    /// A session working in `work_dir`.
    pub fn new(work_dir: String, conf: Conf, notes: Vec<Note>, medias: Vec<Media>) -> (r: Self)
        ensures
            r.work_dir == work_dir,
            r.conf == conf,
            r.notes == notes,
            r.medias == medias,
    {
        Collection { work_dir, conf, notes, medias }
    }

    /// A one-line description: the note type's name and the numbers of notes and media.
    pub fn summary(&self) -> (r: String)
        ensures
            r@ == "name: "@ + self.conf.cur_model.name@ + ", notes: "@ + decimal(
                self.notes@.len() as nat,
            ) + ", medias: "@ + decimal(self.medias@.len() as nat),
    {
        let mut r = String::from_str("name: ");
        r.append(self.conf.cur_model.name.as_str());
        r.append(", notes: ");
        let notes = decimal_string(self.notes.len() as u64);
        r.append(notes.as_str());
        r.append(", medias: ");
        let medias = decimal_string(self.medias.len() as u64);
        r.append(medias.as_str());
        r
    }

    /// Where the file `fname` of the working directory lies.
    pub fn get_file_path(&self, fname: &str) -> (r: String)
        ensures
            r@ == path_join(self.work_dir@, fname@),
    {
        join_path(self.work_dir.as_str(), fname)
    }

    /// Where the next attached media file is copied: the working directory's file
    /// named by the current number of media.
    pub fn next_media_path(&self) -> (r: String)
        ensures
            r@ == path_join(self.work_dir@, decimal(self.medias@.len() as nat)),
    {
        let idx = decimal_string(self.medias.len() as u64);
        self.get_file_path(idx.as_str())
    }

    /// Records `media` once its file has been copied to `next_media_path`;
    /// `copied` is the outcome of that copy. On a failed copy nothing changes.
    pub fn add_media(&mut self, media: Media, copied: Result<(), Error>) -> (r: Result<(), Error>)
        ensures
            final(self).work_dir == old(self).work_dir,
            final(self).conf == old(self).conf,
            final(self).notes == old(self).notes,
            copied is Ok ==> r is Ok && final(self).medias@ == old(self).medias@.push(media),
            copied is Err ==> r == copied && final(self).medias@ == old(self).medias@,
    {
        match copied {
            Ok(()) => {
                self.medias.push(media);
                Ok(())
            },
            Err(e) => Err(e),
        }
    }

    /// The manifest entries: each media's position, in decimal, with its name.
    pub fn media_manifest(&self) -> (r: Vec<(String, String)>)
        ensures
            pairs_view(r@) == manifest_of(media_names(self.medias@)),
    {
        let mut out: Vec<(String, String)> = Vec::new();
        let mut i: usize = 0;
        while i < self.medias.len()
            invariant
                i <= self.medias@.len(),
                out@.len() == i,
                forall|k: int|
                    0 <= k < i ==> (#[trigger] out@[k]).0@ == decimal(k as nat) && out@[k].1@
                        == self.medias@[k].name@,
            decreases self.medias@.len() - i,
        {
            let key = decimal_string(i as u64);
            out.push((key, self.medias[i].name.clone()));
            i += 1;
        }
        assert(pairs_view(out@) =~= manifest_of(media_names(self.medias@)));
        out
    }

    /// The text of the manifest file for the current media list.
    pub fn build_media_meta(&self) -> (r: Result<String, Error>)
        ensures
            r matches Ok(t) && t@ == json_object_text(manifest_of(media_names(self.medias@))),
    {
        let entries = self.media_manifest();
        manifest_text(&entries)
    }

    /// Normalizes the sound markers of every note: each field that opens a marker
    /// becomes the marker built from the note's sort field.
    pub fn add_sound(&mut self) -> (r: Result<(), Error>)
        ensures
            r is Ok,
            final(self).work_dir == old(self).work_dir,
            final(self).conf == old(self).conf,
            final(self).medias == old(self).medias,
            final(self).notes@.len() == old(self).notes@.len(),
            forall|i: int|
                0 <= i < old(self).notes@.len() ==> note_normalized(
                    #[trigger] final(self).notes@[i],
                    old(self).notes@[i],
                ),
    {
        let mut notes: Vec<Note> = Vec::new();
        let mut i: usize = 0;
        while i < self.notes.len()
            invariant
                i <= self.notes@.len(),
                notes@.len() == i,
                forall|k: int| 0 <= k < i ==> note_normalized(#[trigger] notes@[k], self.notes@[k]),
            decreases self.notes@.len() - i,
        {
            let note = &self.notes[i];
            let fields = normalize_fields(&note.fields, note.sfld.as_str());
            notes.push(Note { id: note.id.clone(), sfld: note.sfld.clone(), fields });
            i += 1;
        }
        self.notes = notes;
        Ok(())
    }
}

} // verus!
