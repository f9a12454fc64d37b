//! The mathematical model of a module's custom-section list and of an edit
//! request applied to it.
//!
//! A custom section is modelled as a pair of its name (a character sequence)
//! and its payload (a byte sequence).  An edit request is a sequence of such
//! pairs; applying it removes every existing section whose name occurs in the
//! request and appends one section per distinct requested name, carrying the
//! data of that name's last occurrence.

use vstd::prelude::*;

verus! {

/// A custom section as the model sees it: its name and its payload bytes.
pub type SectionEntry = (Seq<char>, Seq<u8>);

/// Whether some entry of `cs` carries the name `name`.
pub open spec fn has_name(cs: Seq<SectionEntry>, name: Seq<char>) -> bool
    decreases cs.len(),
{
    if cs.len() == 0 {
        false
    } else if cs.first().0 == name {
        true
    } else {
        has_name(cs.drop_first(), name)
    }
}

/// How many entries of `cs` carry the name `name`.
pub open spec fn count_name(cs: Seq<SectionEntry>, name: Seq<char>) -> nat
    decreases cs.len(),
{
    if cs.len() == 0 {
        0
    } else if cs.first().0 == name {
        1 + count_name(cs.drop_first(), name)
    } else {
        count_name(cs.drop_first(), name)
    }
}

/// `cs` with every entry named `name` removed; the rest keep their order.
pub open spec fn remove_name(cs: Seq<SectionEntry>, name: Seq<char>) -> Seq<SectionEntry>
    decreases cs.len(),
{
    if cs.len() == 0 {
        Seq::empty()
    } else if cs.first().0 == name {
        remove_name(cs.drop_first(), name)
    } else {
        seq![cs.first()] + remove_name(cs.drop_first(), name)
    }
}

/// `cs` with its first entry named `name` removed, if there is one.
pub open spec fn remove_first(cs: Seq<SectionEntry>, name: Seq<char>) -> Seq<SectionEntry>
    decreases cs.len(),
{
    if cs.len() == 0 {
        Seq::empty()
    } else if cs.first().0 == name {
        cs.drop_first()
    } else {
        seq![cs.first()] + remove_first(cs.drop_first(), name)
    }
}

/// `cs` with every entry removed whose name occurs in `edits`.
pub open spec fn strip_edited(cs: Seq<SectionEntry>, edits: Seq<SectionEntry>) -> Seq<
    SectionEntry,
>
    decreases cs.len(),
{
    if cs.len() == 0 {
        Seq::empty()
    } else if has_name(edits, cs.first().0) {
        strip_edited(cs.drop_first(), edits)
    } else {
        seq![cs.first()] + strip_edited(cs.drop_first(), edits)
    }
}

/// The edit list with duplicate names collapsed: one entry per distinct name,
/// holding the data of that name's last occurrence, ordered by those last
/// occurrences.
pub open spec fn dedup_last(edits: Seq<SectionEntry>) -> Seq<SectionEntry>
    decreases edits.len(),
{
    if edits.len() == 0 {
        Seq::empty()
    } else {
        remove_name(dedup_last(edits.drop_last()), edits.last().0).push(edits.last())
    }
}

/// The data of the last entry of `edits` named `name`.
pub open spec fn last_data_of(edits: Seq<SectionEntry>, name: Seq<char>) -> Seq<u8>
    decreases edits.len(),
{
    if edits.len() == 0 {
        Seq::empty()
    } else if edits.last().0 == name {
        edits.last().1
    } else {
        last_data_of(edits.drop_last(), name)
    }
}

/// The custom-section list after an edit request: sections with an edited
/// name are gone, and one section per distinct requested name is appended,
/// later occurrences winning over earlier ones.
pub open spec fn apply_edits_spec(cs: Seq<SectionEntry>, edits: Seq<SectionEntry>) -> Seq<
    SectionEntry,
> {
    strip_edited(cs, edits) + dedup_last(edits)
}

/// Whether every entry of `s` named `name` carries the data `data`.
pub open spec fn all_named_have_data(s: Seq<SectionEntry>, name: Seq<char>, data: Seq<u8>) -> bool {
    forall|i: int| 0 <= i < s.len() && s[i].0 == name ==> s[i].1 == data
}

pub proof fn lemma_singleton_facts(e: SectionEntry, name: Seq<char>)
    ensures
        has_name(seq![e], name) == (e.0 == name),
        count_name(seq![e], name) == (if e.0 == name {
            1nat
        } else {
            0nat
        }),
        remove_name(seq![e], name) == (if e.0 == name {
            Seq::<SectionEntry>::empty()
        } else {
            seq![e]
        }),
{
    assert(seq![e].len() == 1);
    assert(seq![e].first() == e);
    assert(seq![e].drop_first() =~= Seq::<SectionEntry>::empty());
    assert(!has_name(Seq::<SectionEntry>::empty(), name));
    assert(count_name(Seq::<SectionEntry>::empty(), name) == 0);
    assert(remove_name(Seq::<SectionEntry>::empty(), name) =~= Seq::<SectionEntry>::empty());
    if e.0 != name {
        assert(remove_name(seq![e], name) == seq![e] + remove_name(
            Seq::<SectionEntry>::empty(),
            name,
        ));
        assert(seq![e] + Seq::<SectionEntry>::empty() =~= seq![e]);
    }
}

pub proof fn lemma_has_name_concat(a: Seq<SectionEntry>, b: Seq<SectionEntry>, name: Seq<char>)
    ensures
        has_name(a + b, name) == (has_name(a, name) || has_name(b, name)),
    decreases a.len(),
{
    if a.len() == 0 {
        assert(a + b =~= b);
    } else {
        assert((a + b).first() == a.first());
        assert((a + b).drop_first() =~= a.drop_first() + b);
        lemma_has_name_concat(a.drop_first(), b, name);
    }
}

pub proof fn lemma_has_name_push(s: Seq<SectionEntry>, e: SectionEntry, name: Seq<char>)
    ensures
        has_name(s.push(e), name) == (has_name(s, name) || e.0 == name),
{
    assert(s.push(e) =~= s + seq![e]);
    lemma_has_name_concat(s, seq![e], name);
    lemma_singleton_facts(e, name);
}

pub proof fn lemma_index_has_name(s: Seq<SectionEntry>, i: int)
    requires
        0 <= i < s.len(),
    ensures
        has_name(s, s[i].0),
    decreases s.len(),
{
    if i > 0 {
        lemma_index_has_name(s.drop_first(), i - 1);
    }
}

pub proof fn lemma_count_name_concat(a: Seq<SectionEntry>, b: Seq<SectionEntry>, name: Seq<char>)
    ensures
        count_name(a + b, name) == count_name(a, name) + count_name(b, name),
    decreases a.len(),
{
    if a.len() == 0 {
        assert(a + b =~= b);
    } else {
        assert((a + b).first() == a.first());
        assert((a + b).drop_first() =~= a.drop_first() + b);
        lemma_count_name_concat(a.drop_first(), b, name);
    }
}

pub proof fn lemma_count_name_push(s: Seq<SectionEntry>, e: SectionEntry, name: Seq<char>)
    ensures
        count_name(s.push(e), name) == count_name(s, name) + (if e.0 == name {
            1nat
        } else {
            0nat
        }),
{
    assert(s.push(e) =~= s + seq![e]);
    lemma_count_name_concat(s, seq![e], name);
    lemma_singleton_facts(e, name);
}

pub proof fn lemma_count_zero_iff_not_has(s: Seq<SectionEntry>, name: Seq<char>)
    ensures
        (count_name(s, name) == 0) <==> !has_name(s, name),
    decreases s.len(),
{
    if s.len() == 0 {
    } else if s.first().0 == name {
        assert(count_name(s, name) == 1 + count_name(s.drop_first(), name));
        assert(has_name(s, name));
    } else {
        assert(count_name(s, name) == count_name(s.drop_first(), name));
        assert(has_name(s, name) == has_name(s.drop_first(), name));
        lemma_count_zero_iff_not_has(s.drop_first(), name);
    }
}

pub proof fn lemma_remove_name_count(s: Seq<SectionEntry>, name: Seq<char>)
    ensures
        count_name(remove_name(s, name), name) == 0,
        !has_name(remove_name(s, name), name),
    decreases s.len(),
{
    if s.len() == 0 {
    } else if s.first().0 == name {
        lemma_remove_name_count(s.drop_first(), name);
    } else {
        lemma_remove_name_count(s.drop_first(), name);
        lemma_count_name_concat(seq![s.first()], remove_name(s.drop_first(), name), name);
        lemma_singleton_facts(s.first(), name);
    }
    lemma_count_zero_iff_not_has(remove_name(s, name), name);
}

pub proof fn lemma_remove_name_id(s: Seq<SectionEntry>, name: Seq<char>)
    requires
        !has_name(s, name),
    ensures
        remove_name(s, name) == s,
    decreases s.len(),
{
    if s.len() == 0 {
        assert(remove_name(s, name) =~= s);
    } else {
        lemma_remove_name_id(s.drop_first(), name);
        assert(seq![s.first()] + s.drop_first() =~= s);
    }
}

pub proof fn lemma_remove_name_other_count(
    s: Seq<SectionEntry>,
    name: Seq<char>,
    other: Seq<char>,
)
    requires
        name != other,
    ensures
        count_name(remove_name(s, name), other) == count_name(s, other),
    decreases s.len(),
{
    if s.len() == 0 {
    } else if s.first().0 == name {
        lemma_remove_name_other_count(s.drop_first(), name, other);
    } else {
        lemma_remove_name_other_count(s.drop_first(), name, other);
        lemma_count_name_concat(seq![s.first()], remove_name(s.drop_first(), name), other);
        lemma_singleton_facts(s.first(), other);
    }
}

pub proof fn lemma_remove_name_concat(
    a: Seq<SectionEntry>,
    b: Seq<SectionEntry>,
    name: Seq<char>,
)
    ensures
        remove_name(a + b, name) == remove_name(a, name) + remove_name(b, name),
    decreases a.len(),
{
    if a.len() == 0 {
        assert(a + b =~= b);
        assert(remove_name(a, name) + remove_name(b, name) =~= remove_name(b, name));
    } else {
        assert((a + b).first() == a.first());
        assert((a + b).drop_first() =~= a.drop_first() + b);
        lemma_remove_name_concat(a.drop_first(), b, name);
        if a.first().0 != name {
            assert(seq![a.first()] + (remove_name(a.drop_first(), name) + remove_name(b, name))
                =~= (seq![a.first()] + remove_name(a.drop_first(), name)) + remove_name(b, name));
        }
    }
}

pub proof fn lemma_remove_first_len(s: Seq<SectionEntry>, name: Seq<char>)
    ensures
        has_name(s, name) ==> remove_first(s, name).len() == s.len() - 1,
        !has_name(s, name) ==> remove_first(s, name) == s,
    decreases s.len(),
{
    if s.len() == 0 {
        assert(remove_first(s, name) =~= s);
    } else if s.first().0 == name {
    } else {
        lemma_remove_first_len(s.drop_first(), name);
        if !has_name(s, name) {
            assert(seq![s.first()] + s.drop_first() =~= s);
        }
    }
}

pub proof fn lemma_remove_first_remove_name(s: Seq<SectionEntry>, name: Seq<char>)
    ensures
        remove_name(remove_first(s, name), name) == remove_name(s, name),
    decreases s.len(),
{
    if s.len() == 0 {
    } else if s.first().0 == name {
    } else {
        lemma_remove_first_remove_name(s.drop_first(), name);
        lemma_remove_name_concat(seq![s.first()], remove_first(s.drop_first(), name), name);
        lemma_singleton_facts(s.first(), name);
    }
}

pub proof fn lemma_remove_first_concat(
    a: Seq<SectionEntry>,
    b: Seq<SectionEntry>,
    name: Seq<char>,
)
    requires
        !has_name(a, name),
    ensures
        remove_first(a + b, name) == a + remove_first(b, name),
    decreases a.len(),
{
    if a.len() == 0 {
        assert(a + b =~= b);
        assert(a + remove_first(b, name) =~= remove_first(b, name));
    } else {
        assert((a + b).first() == a.first());
        assert((a + b).drop_first() =~= a.drop_first() + b);
        lemma_remove_first_concat(a.drop_first(), b, name);
        assert(seq![a.first()] + (a.drop_first() + remove_first(b, name)) =~= a + remove_first(
            b,
            name,
        ));
    }
}

pub proof fn lemma_remove_first_unique(s: Seq<SectionEntry>, name: Seq<char>)
    requires
        count_name(s, name) <= 1,
    ensures
        remove_first(s, name) == remove_name(s, name),
    decreases s.len(),
{
    if s.len() == 0 {
        assert(remove_first(s, name) =~= remove_name(s, name));
    } else if s.first().0 == name {
        lemma_count_zero_iff_not_has(s.drop_first(), name);
        lemma_remove_name_id(s.drop_first(), name);
    } else {
        lemma_remove_first_unique(s.drop_first(), name);
    }
}

pub proof fn lemma_not_has_name_indices(s: Seq<SectionEntry>, name: Seq<char>)
    requires
        !has_name(s, name),
    ensures
        forall|i: int| 0 <= i < s.len() ==> s[i].0 != name,
{
    assert forall|i: int| 0 <= i < s.len() implies s[i].0 != name by {
        if s[i].0 == name {
            lemma_index_has_name(s, i);
        }
    }
}

pub proof fn lemma_strip_empty_edits(cs: Seq<SectionEntry>)
    ensures
        strip_edited(cs, Seq::empty()) == cs,
    decreases cs.len(),
{
    if cs.len() == 0 {
        assert(strip_edited(cs, Seq::empty()) =~= cs);
    } else {
        lemma_strip_empty_edits(cs.drop_first());
        assert(seq![cs.first()] + cs.drop_first() =~= cs);
    }
}

pub proof fn lemma_strip_push(cs: Seq<SectionEntry>, edits: Seq<SectionEntry>, e: SectionEntry)
    ensures
        strip_edited(cs, edits.push(e)) == remove_name(strip_edited(cs, edits), e.0),
    decreases cs.len(),
{
    if cs.len() == 0 {
        assert(strip_edited(cs, edits.push(e)) =~= remove_name(strip_edited(cs, edits), e.0));
    } else {
        lemma_has_name_push(edits, e, cs.first().0);
        lemma_strip_push(cs.drop_first(), edits, e);
        if !has_name(edits, cs.first().0) {
            lemma_remove_name_concat(seq![cs.first()], strip_edited(cs.drop_first(), edits), e.0);
            lemma_singleton_facts(cs.first(), e.0);
            if cs.first().0 == e.0 {
                assert(Seq::<SectionEntry>::empty() + remove_name(
                    strip_edited(cs.drop_first(), edits),
                    e.0,
                ) =~= remove_name(strip_edited(cs.drop_first(), edits), e.0));
            }
        }
    }
}

pub proof fn lemma_strip_count(cs: Seq<SectionEntry>, edits: Seq<SectionEntry>, name: Seq<char>)
    ensures
        has_name(edits, name) ==> count_name(strip_edited(cs, edits), name) == 0,
        !has_name(edits, name) ==> count_name(strip_edited(cs, edits), name) == count_name(
            cs,
            name,
        ),
    decreases cs.len(),
{
    if cs.len() == 0 {
    } else if has_name(edits, cs.first().0) {
        lemma_strip_count(cs.drop_first(), edits, name);
    } else {
        lemma_strip_count(cs.drop_first(), edits, name);
        lemma_count_name_concat(seq![cs.first()], strip_edited(cs.drop_first(), edits), name);
        lemma_singleton_facts(cs.first(), name);
    }
}

pub proof fn lemma_dedup_count(edits: Seq<SectionEntry>, name: Seq<char>)
    ensures
        has_name(edits, name) ==> count_name(dedup_last(edits), name) == 1,
        !has_name(edits, name) ==> count_name(dedup_last(edits), name) == 0,
    decreases edits.len(),
{
    if edits.len() == 0 {
    } else {
        let dl = edits.drop_last();
        let e = edits.last();
        assert(edits =~= dl.push(e));
        lemma_has_name_push(dl, e, name);
        lemma_dedup_count(dl, name);
        lemma_count_name_push(remove_name(dedup_last(dl), e.0), e, name);
        if e.0 == name {
            lemma_remove_name_count(dedup_last(dl), name);
        } else {
            lemma_remove_name_other_count(dedup_last(dl), e.0, name);
        }
    }
}

pub proof fn lemma_remove_name_all_named(
    s: Seq<SectionEntry>,
    removed: Seq<char>,
    name: Seq<char>,
    data: Seq<u8>,
)
    requires
        all_named_have_data(s, name, data),
    ensures
        all_named_have_data(remove_name(s, removed), name, data),
    decreases s.len(),
{
    if s.len() == 0 {
    } else {
        assert(all_named_have_data(s.drop_first(), name, data)) by {
            assert(forall|i: int|
                0 <= i < s.drop_first().len() ==> s.drop_first()[i] == s[i + 1]);
        }
        lemma_remove_name_all_named(s.drop_first(), removed, name, data);
        if s.first().0 != removed {
            let rest = remove_name(s.drop_first(), removed);
            assert forall|i: int|
                0 <= i < (seq![s.first()] + rest).len() && (seq![s.first()] + rest)[i].0 == name
            implies (seq![s.first()] + rest)[i].1 == data by {
                if i == 0 {
                    assert((seq![s.first()] + rest)[0] == s.first());
                    assert(s[0] == s.first());
                } else {
                    assert((seq![s.first()] + rest)[i] == rest[i - 1]);
                }
            }
        }
    }
}

pub proof fn lemma_dedup_data(edits: Seq<SectionEntry>, name: Seq<char>)
    requires
        has_name(edits, name),
    ensures
        all_named_have_data(dedup_last(edits), name, last_data_of(edits, name)),
    decreases edits.len(),
{
    let dl = edits.drop_last();
    let e = edits.last();
    assert(edits =~= dl.push(e));
    lemma_has_name_push(dl, e, name);
    let stripped = remove_name(dedup_last(dl), e.0);
    if e.0 == name {
        lemma_remove_name_count(dedup_last(dl), name);
        lemma_not_has_name_indices(stripped, name);
        assert forall|i: int|
            0 <= i < stripped.push(e).len() && stripped.push(e)[i].0 == name
        implies stripped.push(e)[i].1 == last_data_of(edits, name) by {
            if i < stripped.len() {
                assert(stripped.push(e)[i] == stripped[i]);
            } else {
                assert(stripped.push(e)[i] == e);
            }
        }
    } else {
        lemma_dedup_data(dl, name);
        lemma_remove_name_all_named(dedup_last(dl), e.0, name, last_data_of(dl, name));
        assert forall|i: int|
            0 <= i < stripped.push(e).len() && stripped.push(e)[i].0 == name
        implies stripped.push(e)[i].1 == last_data_of(edits, name) by {
            if i < stripped.len() {
                assert(stripped.push(e)[i] == stripped[i]);
            } else {
                assert(stripped.push(e)[i] == e);
            }
        }
    }
}

/// A no-op edit request leaves the custom-section list exactly as it was:
/// applying an empty edit list is the identity.
pub proof fn lemma_empty_edit_identity(cs: Seq<SectionEntry>)
    ensures
        apply_edits_spec(cs, Seq::empty()) == cs,
{
    lemma_strip_empty_edits(cs);
    assert(strip_edited(cs, Seq::empty()) + dedup_last(Seq::empty()) =~= cs);
}

/// Replacement and last-write-wins: when an edit request names a section,
/// the edited list holds exactly one section of that name — whether or not
/// the module already had one, and however often the request repeats the
/// name — and it carries the data of the request's last entry of that name.
pub proof fn lemma_replacement_last_write_wins(
    cs: Seq<SectionEntry>,
    edits: Seq<SectionEntry>,
    name: Seq<char>,
)
    requires
        has_name(edits, name),
    ensures
        count_name(apply_edits_spec(cs, edits), name) == 1,
        all_named_have_data(apply_edits_spec(cs, edits), name, last_data_of(edits, name)),
{
    let stripped = strip_edited(cs, edits);
    let deduped = dedup_last(edits);
    lemma_strip_count(cs, edits, name);
    lemma_dedup_count(edits, name);
    lemma_count_name_concat(stripped, deduped, name);
    lemma_count_zero_iff_not_has(stripped, name);
    lemma_not_has_name_indices(stripped, name);
    lemma_dedup_data(edits, name);
    assert forall|i: int|
        0 <= i < (stripped + deduped).len() && (stripped + deduped)[i].0 == name
    implies (stripped + deduped)[i].1 == last_data_of(edits, name) by {
        if i < stripped.len() {
            assert((stripped + deduped)[i] == stripped[i]);
        } else {
            assert((stripped + deduped)[i] == deduped[i - stripped.len()]);
        }
    }
}

/// A name the edit request does not mention keeps its multiplicity: the edit
/// neither removes nor adds sections of that name.
pub proof fn lemma_unedited_name_preserved(
    cs: Seq<SectionEntry>,
    edits: Seq<SectionEntry>,
    name: Seq<char>,
)
    requires
        !has_name(edits, name),
    ensures
        count_name(apply_edits_spec(cs, edits), name) == count_name(cs, name),
{
    lemma_strip_count(cs, edits, name);
    lemma_dedup_count(edits, name);
    lemma_count_name_concat(strip_edited(cs, edits), dedup_last(edits), name);
}

} // verus!
