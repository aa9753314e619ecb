//! The shapes of the relational store's configuration and model blobs, and their
//! mapping onto the domain model.
use crate::domains::{CardTemplate, Note, NoteField, NoteType};
use crate::domains;
use crate::error::Error;
use crate::text::{
    field_sep, join_fields, join_with, signed_decimal, signed_decimal_string, split_fields, views,
};
use vstd::prelude::*;

verus! {

/// A note type as the `models` blob stores it.
#[derive(Debug, Clone, PartialEq, Default)]
pub struct Model {
    pub id: i64,
    pub name: String,
    pub tmpls: Vec<Tmpl>,
    pub flds: Vec<Fld>,
}

/// A card template as the `models` blob stores it.
#[derive(Debug, Clone, PartialEq, Default)]
pub struct Tmpl {
    pub name: String,
    pub ord: i32,
    pub qfmt: String,
    pub afmt: String,
}

/// A note-type field as the `models` blob stores it.
#[derive(Debug, Clone, PartialEq, Default)]
pub struct Fld {
    pub name: String,
    pub ord: i32,
    pub font: String,
    pub size: i32,
}

/// The `conf` blob: the id of the current model.
#[derive(Debug, Clone, PartialEq, Default)]
pub struct Conf {
    pub cur_model: i64,
}

/// Whether `t` carries the stored template `raw`.
pub open spec fn template_from(t: CardTemplate, raw: Tmpl) -> bool {
    &&& t.name@ == raw.name@
    &&& t.ord == raw.ord
    &&& t.qfmt@ == raw.qfmt@
    &&& t.afmt@ == raw.afmt@
}

/// Whether `f` carries the stored field `raw`.
pub open spec fn field_from(f: NoteField, raw: Fld) -> bool {
    &&& f.name@ == raw.name@
    &&& f.ord == raw.ord
    &&& f.font@ == raw.font@
    &&& f.size == raw.size
}

/// Whether `nt` carries the stored model `m`, its id written in decimal.
pub open spec fn note_type_from(nt: NoteType, m: Model) -> bool {
    &&& nt.id@ == signed_decimal(m.id as int)
    &&& nt.name@ == m.name@
    &&& nt.tmpls@.len() == m.tmpls@.len()
    &&& forall|i: int| 0 <= i < m.tmpls@.len() ==> template_from(#[trigger] nt.tmpls@[i], m.tmpls@[i])
    &&& nt.flds@.len() == m.flds@.len()
    &&& forall|i: int| 0 <= i < m.flds@.len() ==> field_from(#[trigger] nt.flds@[i], m.flds@[i])
}

/// Whether some model of `models` is stored under `key`.
pub open spec fn has_model(models: Seq<(String, Model)>, key: Seq<char>) -> bool {
    exists|k: int| 0 <= k < models.len() && (#[trigger] models[k]).0@ == key
}

/// Whether `k` is the first model of `models` stored under `key`.
pub open spec fn first_model(models: Seq<(String, Model)>, key: Seq<char>, k: int) -> bool {
    &&& 0 <= k < models.len()
    &&& models[k].0@ == key
    &&& forall|j: int| 0 <= j < k ==> (#[trigger] models[j]).0@ != key
}

/// The domain note type of a stored model.
pub fn to_note_type(m: &Model) -> (r: NoteType)
    ensures
        note_type_from(r, *m),
{
    let mut tmpls: Vec<CardTemplate> = Vec::new();
    let mut i: usize = 0;
    while i < m.tmpls.len()
        invariant
            i <= m.tmpls@.len(),
            tmpls@.len() == i,
            forall|k: int| 0 <= k < i ==> template_from(#[trigger] tmpls@[k], m.tmpls@[k]),
        decreases m.tmpls@.len() - i,
    {
        let t = &m.tmpls[i];
        tmpls.push(
            CardTemplate {
                name: t.name.clone(),
                ord: t.ord,
                qfmt: t.qfmt.clone(),
                afmt: t.afmt.clone(),
            },
        );
        i += 1;
    }
    let mut flds: Vec<NoteField> = Vec::new();
    let mut j: usize = 0;
    while j < m.flds.len()
        invariant
            j <= m.flds@.len(),
            flds@.len() == j,
            forall|k: int| 0 <= k < j ==> field_from(#[trigger] flds@[k], m.flds@[k]),
        decreases m.flds@.len() - j,
    {
        let f = &m.flds[j];
        flds.push(NoteField { name: f.name.clone(), ord: f.ord, font: f.font.clone(), size: f.size });
        j += 1;
    }
    NoteType { id: signed_decimal_string(m.id), name: m.name.clone(), tmpls, flds }
}

/// Resolves the current model of `raw_conf` among `raw_models`, each stored under
/// its decimal id. Fails with a mapping error when no model has that id.
pub fn map_cur_conf(raw_conf: &Conf, raw_models: &Vec<(String, Model)>) -> (r: Result<
    domains::Conf,
    Error,
>)
    ensures
        r is Ok <==> has_model(raw_models@, signed_decimal(raw_conf.cur_model as int)),
        r matches Err(e) ==> e is Mapping,
        r matches Ok(c) ==> exists|k: int|
            first_model(raw_models@, signed_decimal(raw_conf.cur_model as int), k)
                && note_type_from(c.cur_model, (#[trigger] raw_models@[k]).1),
{
    let key = signed_decimal_string(raw_conf.cur_model);
    let mut k: usize = 0;
    while k < raw_models.len()
        invariant
            key@ == signed_decimal(raw_conf.cur_model as int),
            k <= raw_models@.len(),
            forall|j: int| 0 <= j < k ==> (#[trigger] raw_models@[j]).0@ != key@,
        decreases raw_models@.len() - k,
    {
        if raw_models[k].0 == key {
            let nt = to_note_type(&raw_models[k].1);
            assert(first_model(raw_models@, key@, k as int));
            return Ok(domains::Conf { cur_model: nt });
        }
        k += 1;
    }
    Err(Error::Mapping(String::from_str("the current model is not among the models")))
}

/// The note of one row of the notes table: its id in decimal, its fields cut at
/// the stored-field separator.
pub fn note_from_row(id: i64, flds: &str, sfld: String) -> (r: Note)
    ensures
        r.id@ == signed_decimal(id as int),
        r.sfld == sfld,
        r.fields@.len() >= 1,
        join_with(views(r.fields@), field_sep()) == flds@,
        forall|k: int| 0 <= k < r.fields@.len() ==> !(#[trigger] r.fields@[k])@.contains(field_sep()),
{
    Note { id: signed_decimal_string(id), sfld, fields: split_fields(flds) }
}

/// The stored form of a note's fields, written back by an update.
pub fn stored_fields(note: &Note) -> (r: String)
    ensures
        r@ == join_with(views(note.fields@), field_sep()),
{
    join_fields(&note.fields)
}

} // verus!
