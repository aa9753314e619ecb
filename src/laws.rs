//! Properties that relate several operations of the library, proved over their
//! specifications.
use crate::archive::{
    entry_name, is_chosen, is_current_at, is_safe_name, planned_files, ArchiveEntry,
};
use crate::domains::{inserted_sound, marker, media_names, sound_prefix, Media};
use crate::manifest::{first_with_key, lemma_first_key_exists, is_indexed, manifest_of, ordered_members};
use crate::text::{decimal, digit_char, field_sep, has_prefix, join_with, path_join};
use vstd::prelude::*;

verus! {

/// Whenever the archive holds a current database file, the chosen database is a
/// current one, wherever the legacy files stand.
pub proof fn law_current_database_preferred(es: Seq<ArchiveEntry>, k: int, c: int)
    requires
        is_chosen(es, k),
        is_current_at(es, c),
    ensures
        is_current_at(es, k),
{
}

/// Where the archive holds exactly one database file, and it is a legacy one,
/// that file is the one chosen.
pub proof fn law_lone_legacy_database_chosen(es: Seq<ArchiveEntry>, k: int)
    requires
        crate::archive::is_legacy_at(es, k),
        forall|j: int| 0 <= j < es.len() ==> !is_current_at(es, j),
        forall|j: int|
            0 <= j < es.len() && j != k ==> !crate::archive::is_legacy_at(es, j),
    ensures
        is_chosen(es, k),
{
}

/// Inserting a sound marker twice at the same position gives what inserting it
/// once gives.
pub proof fn law_sound_insertion_idempotent(fields: Seq<Seq<char>>, sfld: Seq<char>, ord: int)
    requires
        0 <= ord <= fields.len(),
    ensures
        inserted_sound(inserted_sound(fields, sfld, ord), sfld, ord) == inserted_sound(
            fields,
            sfld,
            ord,
        ),
{
    let once = inserted_sound(fields, sfld, ord);
    if !(ord < fields.len() && has_prefix(fields[ord], sound_prefix())) {
        assert(once[ord] == marker(sfld));
        assert(marker(sfld).subrange(0, sound_prefix().len() as int) =~= sound_prefix());
    }
}

/// The decimal writing of a number is never empty, and has two characters or
/// more from ten on.
pub proof fn lemma_decimal_len(n: nat)
    ensures
        decimal(n).len() >= 1,
        n >= 10 ==> decimal(n).len() >= 2,
    decreases n,
{
    if n >= 10 {
        lemma_decimal_len(n / 10);
    }
}

/// Two numbers with the same decimal writing are equal.
pub proof fn lemma_decimal_injective(a: nat, b: nat)
    requires
        decimal(a) == decimal(b),
    ensures
        a == b,
    decreases a,
{
    lemma_decimal_len(a);
    lemma_decimal_len(b);
    if a < 10 && b < 10 {
        assert(decimal(a)[0] == digit_char(a as int));
        assert(decimal(b)[0] == digit_char(b as int));
    } else if a >= 10 && b >= 10 {
        let da = decimal(a / 10);
        let db = decimal(b / 10);
        assert(decimal(a) == da.push(digit_char((a % 10) as int)));
        assert(decimal(b) == db.push(digit_char((b % 10) as int)));
        assert(decimal(a).last() == digit_char((a % 10) as int));
        assert(decimal(b).last() == digit_char((b % 10) as int));
        assert(decimal(a).drop_last() =~= da);
        assert(decimal(b).drop_last() =~= db);
        lemma_decimal_injective(a / 10, b / 10);
    } else if a < 10 {
        assert(decimal(a).len() == 1);
    } else {
        assert(decimal(b).len() == 1);
    }
}

/// After media named `names` were attached in order to an empty list, the
/// manifest maps the decimal index `i` to the `i`-th name, and no two entries
/// share a key.
pub proof fn law_media_index_consistency(names: Seq<Seq<char>>)
    ensures
        manifest_of(names).len() == names.len(),
        forall|i: int| 0 <= i < names.len() ==> #[trigger] manifest_of(names)[i] == (decimal(i as nat), names[i]),
        forall|i: int, j: int|
            0 <= i < j < names.len() ==> (#[trigger] manifest_of(names)[i]).0 != (
            #[trigger] manifest_of(names)[j]).0,
{
    assert forall|i: int, j: int| 0 <= i < j < names.len() implies (
    #[trigger] manifest_of(names)[i]).0 != (#[trigger] manifest_of(names)[j]).0 by {
        if decimal(i as nat) == decimal(j as nat) {
            lemma_decimal_injective(i as nat, j as nat);
        }
    }
}

/// Attaching one more media extends the manifest by one entry: the old length
/// in decimal, with the new name.
pub proof fn law_attach_extends_manifest(names: Seq<Seq<char>>, name: Seq<char>)
    ensures
        manifest_of(names.push(name)) == manifest_of(names).push((decimal(names.len()), name)),
{
    assert(manifest_of(names.push(name)) =~= manifest_of(names).push((decimal(names.len()), name)));
}

/// Whether no two members of a manifest share a key.
pub open spec fn keys_distinct(members: Seq<(Seq<char>, Seq<char>)>) -> bool {
    forall|i: int, j: int|
        0 <= i < members.len() && 0 <= j < members.len() && i != j ==> (#[trigger] members[i]).0
            != (#[trigger] members[j]).0
}

/// Whether the key of member `k` is a decimal index below the manifest's length.
pub open spec fn key_is_index(members: Seq<(Seq<char>, Seq<char>)>, k: int) -> bool {
    exists|i: int| 0 <= i < members.len() && members[k].0 == #[trigger] decimal(i as nat)
}

/// Whether every key of a manifest is a decimal index below its length.
pub open spec fn keys_are_indices(members: Seq<(Seq<char>, Seq<char>)>) -> bool {
    forall|k: int| 0 <= k < members.len() ==> #[trigger] key_is_index(members, k)
}

/// Whether `x` is one of the members.
pub open spec fn is_member(members: Seq<(Seq<char>, Seq<char>)>, x: (Seq<char>, Seq<char>)) -> bool {
    exists|k: int| 0 <= k < members.len() && members[k] == x
}

/// The logical names of manifest members.
pub open spec fn member_names(members: Seq<(Seq<char>, Seq<char>)>) -> Seq<Seq<char>> {
    members.map_values(|m: (Seq<char>, Seq<char>)| m.1)
}

/// A manifest read on import and written again on export holds the same members:
/// every member of the one is a member of the other.
pub proof fn law_manifest_round_trip(members: Seq<(Seq<char>, Seq<char>)>)
    requires
        keys_distinct(members),
        keys_are_indices(members),
        is_indexed(members),
    ensures
        ({
            let written = manifest_of(member_names(ordered_members(members)));
            &&& written.len() == members.len()
            &&& forall|i: int| 0 <= i < written.len() ==> is_member(members, #[trigger] written[i])
            &&& forall|k: int| 0 <= k < members.len() ==> is_member(written, #[trigger] members[k])
        }),
{
    let ordered = ordered_members(members);
    let written = manifest_of(member_names(ordered));
    assert forall|i: int| 0 <= i < written.len() implies is_member(members, #[trigger] written[i]) by {
        assert(crate::manifest::has_key(members, decimal(i as nat)));
        lemma_first_key_exists(members, decimal(i as nat));
        let c = choose|k: int| #[trigger] first_with_key(members, decimal(i as nat), k);
        assert(first_with_key(members, decimal(i as nat), c));
        assert(written[i] == members[c]);
    }
    assert forall|k: int| 0 <= k < members.len() implies is_member(written, #[trigger] members[k]) by {
        assert(key_is_index(members, k));
        let i = choose|i: int| 0 <= i < members.len() && members[k].0 == #[trigger] decimal(i as nat);
        assert(crate::manifest::has_key(members, decimal(i as nat)));
        lemma_first_key_exists(members, decimal(i as nat));
        let c = choose|c: int| #[trigger] first_with_key(members, decimal(i as nat), c);
        assert(first_with_key(members, decimal(i as nat), c));
        if c != k {
            assert(members[c].0 != members[k].0);
        }
        assert(written[i] == members[k]);
    }
}

/// Whether `path` is a file directly inside `dir`, under a safe name.
pub open spec fn lies_inside(dir: Seq<char>, path: Seq<char>) -> bool {
    exists|n: Seq<char>| is_safe_name(n) && path == path_join(dir, n)
}

/// Every file written while reading an archive lies directly inside the working
/// directory, under a name that holds no path separator and is not `..`.
pub proof fn law_kept_files_stay_inside(dir: Seq<char>, es: Seq<ArchiveEntry>)
    ensures
        forall|i: int|
            0 <= i < planned_files(dir, es).len() ==> lies_inside(
                dir,
                (#[trigger] planned_files(dir, es)[i]).0,
            ),
    decreases es.len(),
{
    if es.len() > 0 {
        let rest = es.drop_last();
        law_kept_files_stay_inside(dir, rest);
        let before = planned_files(dir, rest);
        assert forall|i: int| 0 <= i < planned_files(dir, es).len() implies lies_inside(
            dir,
            (#[trigger] planned_files(dir, es)[i]).0,
        ) by {
            if i < before.len() {
                assert(planned_files(dir, es)[i] == before[i]);
                assert(lies_inside(dir, planned_files(dir, rest)[i].0));
            } else {
                match entry_name(es.last()) {
                    Some(n) => {
                        assert(is_safe_name(n) && planned_files(dir, es)[i].0 == path_join(dir, n));
                    },
                    None => {},
                }
            }
        }
    }
}

/// Whether no part holds the separator `sep`.
pub open spec fn parts_free_of(parts: Seq<Seq<char>>, sep: char) -> bool {
    forall|k: int| 0 <= k < parts.len() ==> !(#[trigger] parts[k]).contains(sep)
}

/// Joining two or more parts puts the separator right before the last part.
pub proof fn lemma_join_last(parts: Seq<Seq<char>>, sep: char)
    requires
        parts.len() >= 2,
    ensures
        join_with(parts, sep) == join_with(parts.drop_last(), sep).push(sep) + parts.last(),
        join_with(parts, sep)[join_with(parts.drop_last(), sep).len() as int] == sep,
{
}

/// Joined parts that hold no separator determine the parts: stored fields read
/// back are the fields that were stored.
pub proof fn law_stored_fields_round_trip(a: Seq<Seq<char>>, b: Seq<Seq<char>>)
    requires
        a.len() >= 1,
        b.len() >= 1,
        parts_free_of(a, field_sep()),
        parts_free_of(b, field_sep()),
        join_with(a, field_sep()) == join_with(b, field_sep()),
    ensures
        a == b,
    decreases a.len(),
{
    let sep = field_sep();
    let j = join_with(a, sep);
    if a.len() == 1 && b.len() == 1 {
        assert(a =~= b);
    } else if a.len() == 1 {
        lemma_join_last(b, sep);
        let i = join_with(b.drop_last(), sep).len() as int;
        assert(j[i] == sep);
        assert(a[0].contains(sep));
    } else if b.len() == 1 {
        lemma_join_last(a, sep);
        let i = join_with(a.drop_last(), sep).len() as int;
        assert(j[i] == sep);
        assert(b[0].contains(sep));
    } else {
        lemma_join_last(a, sep);
        lemma_join_last(b, sep);
        let x = join_with(a.drop_last(), sep);
        let y = join_with(b.drop_last(), sep);
        let la = a.last();
        let lb = b.last();
        assert(!la.contains(sep));
        assert(!lb.contains(sep));
        assert(j == x.push(sep) + la);
        assert(j == y.push(sep) + lb);
        assert(j.len() == x.len() + 1 + la.len());
        assert(j.len() == y.len() + 1 + lb.len());
        if la.len() < lb.len() {
            let i = x.len() as int;
            let t = i - y.len() - 1;
            assert(j[i] == sep);
            assert(j == y.push(sep) + lb);
            assert(j.len() == x.len() + 1 + la.len());
            assert(y.push(sep).len() == y.len() + 1);
            assert((y.push(sep) + lb)[i] == lb[i - (y.len() + 1)]);
            assert(lb[t] == j[i]);
            assert(lb.contains(sep));
        } else if lb.len() < la.len() {
            let i = y.len() as int;
            let t = i - x.len() - 1;
            assert(j[i] == sep);
            assert(j == x.push(sep) + la);
            assert(j.len() == y.len() + 1 + lb.len());
            assert(x.push(sep).len() == x.len() + 1);
            assert((x.push(sep) + la)[i] == la[i - (x.len() + 1)]);
            assert(la[t] == j[i]);
            assert(la.contains(sep));
        }
        assert(x.len() == y.len());
        assert(la =~= j.subrange(x.len() as int + 1, j.len() as int));
        assert(lb =~= j.subrange(y.len() as int + 1, j.len() as int));
        assert(x =~= j.subrange(0, x.len() as int));
        assert(y =~= j.subrange(0, y.len() as int));
        assert forall|k: int| 0 <= k < a.drop_last().len() implies !(#[trigger] a.drop_last()[k]).contains(sep) by {
            assert(a.drop_last()[k] == a[k]);
        }
        assert forall|k: int| 0 <= k < b.drop_last().len() implies !(#[trigger] b.drop_last()[k]).contains(sep) by {
            assert(b.drop_last()[k] == b[k]);
        }
        law_stored_fields_round_trip(a.drop_last(), b.drop_last());
        assert(a =~= a.drop_last().push(la));
        assert(b =~= b.drop_last().push(lb));
    }
}

/// Whether `states` are the media lists seen along `attached.len()` successful
/// attachments to an empty list, the `k`-th appending `attached[k]`.
pub open spec fn attachment_run(states: Seq<Seq<Media>>, attached: Seq<Media>) -> bool {
    &&& states.len() == attached.len() + 1
    &&& states[0].len() == 0
    &&& forall|k: int|
        0 <= k < attached.len() ==> #[trigger] states[k + 1] == states[k].push(attached[k])
}

/// Along a run of attachments, the list before the `k`-th one holds the first `k`
/// attached media.
pub proof fn lemma_attachment_prefix(states: Seq<Seq<Media>>, attached: Seq<Media>, k: int)
    requires
        attachment_run(states, attached),
        0 <= k <= attached.len(),
    ensures
        states[k] == attached.subrange(0, k),
    decreases k,
{
    if k == 0 {
        assert(states[0] =~= attached.subrange(0, 0));
    } else {
        lemma_attachment_prefix(states, attached, k - 1);
        assert(states[k] == states[k - 1].push(attached[k - 1]));
        assert(states[k] =~= attached.subrange(0, k));
    }
}

/// After `N` successful attachments to an empty list, the list holds the attached
/// media in attachment order; the `k`-th was copied to the working directory's
/// file named by `k` in decimal, which is the key that the manifest gives it; and
/// the manifest maps each such key to that media's name.
pub proof fn law_media_attached_in_order(
    dir: Seq<char>,
    states: Seq<Seq<Media>>,
    attached: Seq<Media>,
)
    requires
        attachment_run(states, attached),
    ensures
        states.last() == attached,
        forall|k: int|
            0 <= k < attached.len() ==> path_join(dir, decimal((#[trigger] states[k]).len()))
                == path_join(dir, manifest_of(media_names(attached))[k].0),
        forall|k: int|
            0 <= k < attached.len() ==> #[trigger] manifest_of(media_names(attached))[k] == (
                decimal(k as nat),
                attached[k].name@,
            ),
{
    lemma_attachment_prefix(states, attached, attached.len() as int);
    assert forall|k: int| 0 <= k < attached.len() implies path_join(
        dir,
        decimal((#[trigger] states[k]).len()),
    ) == path_join(dir, manifest_of(media_names(attached))[k].0) by {
        lemma_attachment_prefix(states, attached, k);
    }
}

} // verus!
