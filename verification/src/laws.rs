//! Laws of the naming subsystem, proved once and for all: when a name
//! carries no hash suffix, how the hash distinguishes fields, why names
//! stay short, where the `_node_modules_` split lands, when the `._`
//! marker appears, and that entries without the chunk-item capability
//! contribute nothing.

use vstd::prelude::*;
use crate::hash::{digest, str_atoms, hex_digits, hex_char};
use crate::ident::{IdentView, PartView, ident_str};
use crate::name::{
    MAX_FILENAME, marker, default_modifier_for, part_atoms, assets_atoms,
    modifiers_atoms, ident_atoms, base_name, hashed_name, strips_extension, split_point,
    shortened, output_name_spec, lemma_split_point_in_range,
};
use crate::chunk::{EntryView, runtime_ids_spec};
use crate::text::{matches_at, last_match, lemma_last_match, lemma_first_from};

verus! {

/// Modifiers that all equal the default modifier contribute nothing.
pub proof fn lemma_modifiers_all_default(ms: Seq<Seq<char>>, dm: Option<Seq<char>>)
    requires
        forall|k: int| 0 <= k < ms.len() ==> dm == Some(#[trigger] ms[k]),
    ensures
        modifiers_atoms(ms, dm) == Seq::<u64>::empty(),
    decreases ms.len(),
{
    if ms.len() > 0 {
        lemma_modifiers_all_default(ms.drop_last(), dm);
        assert(modifiers_atoms(ms, dm) =~= Seq::<u64>::empty());
    }
}

/// An identity with an empty query, no fragment, no nested assets, no
/// part, no layer and no modifier beyond the default one contributes
/// nothing to the name hash: its output name carries no hash suffix.
pub proof fn lemma_no_hash_suffix(v: IdentView, root: Seq<char>, ext: Seq<char>)
    requires
        v.query.len() == 0,
        v.fragment.is_none(),
        v.assets.len() == 0,
        v.part.is_none(),
        v.layer.is_none(),
        forall|k: int| 0 <= k < v.modifiers.len()
            ==> default_modifier_for(ext) == Some(#[trigger] v.modifiers[k]),
    ensures
        ident_atoms(v, default_modifier_for(ext)) == Seq::<u64>::empty(),
        hashed_name(v, root, ext) == base_name(v, root, ext),
        output_name_spec(v, root, ext) == shortened(base_name(v, root, ext))
            + (if strips_extension(v, root, ext) { Seq::<char>::empty() } else { "._"@ })
            + ext,
{
    lemma_modifiers_all_default(v.modifiers, default_modifier_for(ext));
    assert(ident_atoms(v, default_modifier_for(ext)) =~= Seq::<u64>::empty());
}

/// Two identities that differ only in the query — one empty, one not —
/// get different output names: the non-empty query brings a hash suffix
/// the other name does not have. Stated for names short enough to keep
/// their split point at the start; a name whose hashed form is shortened
/// could in principle collide with the other's.
pub proof fn lemma_query_changes_name(a: IdentView, b: IdentView, root: Seq<char>, ext: Seq<char>)
    requires
        a.query.len() == 0,
        a.fragment.is_none(),
        a.assets.len() == 0,
        a.part.is_none(),
        a.layer.is_none(),
        forall|k: int| 0 <= k < a.modifiers.len()
            ==> default_modifier_for(ext) == Some(#[trigger] a.modifiers[k]),
        b == (IdentView { query: b.query, ..a }),
        b.query.len() > 0,
        split_point(hashed_name(a, root, ext)) == 0,
        split_point(hashed_name(b, root, ext)) == 0,
    ensures
        output_name_spec(a, root, ext) != output_name_spec(b, root, ext),
{
    lemma_no_hash_suffix(a, root, ext);
    let dm = default_modifier_for(ext);
    assert(base_name(b, root, ext) == base_name(a, root, ext));
    assert(ident_atoms(b, dm).len() > 0) by {
        assert((seq![0u64] + str_atoms(b.query)).len() > 0);
    }
    let base = base_name(a, root, ext);
    assert(hashed_name(b, root, ext).len() == base.len() + 7) by {
        assert(hex_digits(digest(ident_atoms(b, dm))).take(6).len() == 6);
    }
    assert(strips_extension(b, root, ext) == strips_extension(a, root, ext));
    assert(output_name_spec(a, root, ext).len() != output_name_spec(b, root, ext).len());
}

/// A single export and a renamed export hash differently even when every
/// payload coincides: their contributions start with different tags.
pub proof fn lemma_part_tags_distinct(e: Seq<char>)
    ensures
        part_atoms(PartView::Export(e))
            != part_atoms(PartView::RenamedExport { original_export: e, export: e }),
{
    let pa = part_atoms(PartView::Export(e));
    let pb = part_atoms(PartView::RenamedExport { original_export: e, export: e });
    assert(pa[0] == 2u64);
    assert(pb[0] == 3u64);
}

/// The fragment and the layer hash under different tags: two identities
/// that carry the same payload, one as its fragment and one as its
/// layer, with every other hashed field absent, never share a
/// contribution stream.
pub proof fn lemma_fragment_layer_tags_distinct(
    a: IdentView,
    b: IdentView,
    x: Seq<char>,
    dm: Option<Seq<char>>,
)
    requires
        a.query.len() == 0,
        a.assets.len() == 0,
        a.modifiers.len() == 0,
        a.part.is_none(),
        a.fragment == Some(x),
        a.layer.is_none(),
        b.query.len() == 0,
        b.assets.len() == 0,
        b.modifiers.len() == 0,
        b.part.is_none(),
        b.fragment.is_none(),
        b.layer == Some(x),
    ensures
        ident_atoms(a, dm) != ident_atoms(b, dm),
{
    assert(ident_atoms(a, dm) =~= seq![1u64] + str_atoms(x));
    assert(ident_atoms(b, dm) =~= seq![5u64] + str_atoms(x));
    assert(ident_atoms(a, dm)[0] == 1u64);
    assert(ident_atoms(b, dm)[0] == 5u64);
}

/// Functional updates to distinct fields commute: an identity built with
/// the query, layer and part set in any order is the same value, so its
/// canonical rendering — fixed as path, query, fragment, assets, layer,
/// modifiers, part — does not depend on construction order.
pub proof fn lemma_update_order_fixed(v: IdentView, q: Seq<char>, l: Seq<char>, p: PartView)
    ensures
        (IdentView {
            query: q,
            ..(IdentView { layer: Some(l), ..(IdentView { part: Some(p), ..v }) })
        }) == (IdentView {
            part: Some(p),
            ..(IdentView { layer: Some(l), ..(IdentView { query: q, ..v }) })
        }),
        ident_str(IdentView {
            query: q,
            ..(IdentView { layer: Some(l), ..(IdentView { part: Some(p), ..v }) })
        }) == ident_str(IdentView {
            part: Some(p),
            ..(IdentView { layer: Some(l), ..(IdentView { query: q, ..v }) })
        }),
{
}

/// A shortened name never exceeds the length bound plus the six
/// characters of a five-hex-digit prefix and its separator.
pub proof fn lemma_shortened_length(name: Seq<char>)
    ensures
        shortened(name).len() <= 6 + MAX_FILENAME,
{
    lemma_split_point_in_range(name);
    let i = split_point(name);
    let start = match last_match(name, marker()) {
        Some(j) => j + marker().len(),
        None => 0,
    };
    lemma_last_match(name, marker());
    if name.len() - start > MAX_FILENAME {
        let cut = name.len() - MAX_FILENAME;
        lemma_first_from(name, '_', cut);
        assert(name.len() - i <= MAX_FILENAME);
    } else {
        assert(i == start);
        assert(name.len() - i <= MAX_FILENAME);
    }
    if i > 0 {
        assert(hex_digits(digest(str_atoms(name.take(i)))).take(5).len() == 5);
        assert(shortened(name).len() == 6 + name.len() - i);
    }
}

/// A complete output name never exceeds the length bound plus the hashed
/// prefix, the extension marker and the extension itself.
pub proof fn lemma_output_name_length_bound(v: IdentView, root: Seq<char>, ext: Seq<char>)
    ensures
        output_name_spec(v, root, ext).len() <= 6 + MAX_FILENAME + 2 + ext.len(),
{
    lemma_shortened_length(hashed_name(v, root, ext));
    assert("._"@.len() == 2) by {
        reveal_strlit("._");
    }
}

/// When the kept tail is short enough, the split lands immediately after
/// the last occurrence of the `_node_modules_` marker: everything before
/// it is hashed to five hex digits, everything after it is kept.
pub proof fn lemma_marker_split(name: Seq<char>, j: int)
    requires
        last_match(name, marker()) == Some(j),
        name.len() - (j + marker().len()) <= MAX_FILENAME,
    ensures
        split_point(name) == j + marker().len(),
        forall|k: int| k > j ==> !matches_at(name, marker(), k),
        shortened(name) == hex_digits(digest(str_atoms(name.take(j + marker().len())))).take(5)
            + seq!['_'] + name.skip(j + marker().len()),
{
    lemma_last_match(name, marker());
    assert(marker().len() == 14) by {
        reveal_strlit("_node_modules_");
    }
}

/// No character of a shortened hashed name is a dot: dots of the base
/// name are flattened, and the hash suffixes are hex digits and
/// underscores. The `._` extension marker can therefore never occur by
/// accident inside an output name.
pub proof fn lemma_no_dot_in_shortened(v: IdentView, root: Seq<char>, ext: Seq<char>)
    ensures
        forall|t: int| 0 <= t < shortened(hashed_name(v, root, ext)).len()
            ==> shortened(hashed_name(v, root, ext))[t] != '.',
{
    assert forall|n: int| 0 <= n < 16 implies hex_char(n) != '.' by {}
    let base = base_name(v, root, ext);
    assert(forall|t: int| 0 <= t < base.len() ==> base[t] != '.');
    let hn = hashed_name(v, root, ext);
    assert forall|t: int| 0 <= t < hn.len() implies hn[t] != '.' by {
        let atoms = ident_atoms(v, default_modifier_for(ext));
        if atoms.len() > 0 {
            crate::hash::lemma_hex_digits_in_range(digest(atoms));
            let hx = hex_digits(digest(atoms)).take(6);
            assert(forall|u: int| 0 <= u < 6 ==> hx[u] != '.');
        }
    }
    let sn = shortened(hn);
    assert forall|t: int| 0 <= t < sn.len() implies sn[t] != '.' by {
        let i = split_point(hn);
        lemma_split_point_in_range(hn);
        if i > 0 {
            crate::hash::lemma_hex_digits_in_range(digest(str_atoms(hn.take(i))));
            let hx = hex_digits(digest(str_atoms(hn.take(i)))).take(5);
            assert(forall|u: int| 0 <= u < 5 ==> hx[u] != '.');
        }
    }
}

/// Extension disambiguation for `.js` chunks: a name whose native
/// extension was stripped contains no `._` marker at all, and a name
/// whose native extension differs carries exactly one, right before the
/// final extension.
pub proof fn lemma_extension_marker(v: IdentView, root: Seq<char>)
    ensures
        strips_extension(v, root, ".js"@)
            ==> forall|t: int| !matches_at(output_name_spec(v, root, ".js"@), "._"@, t),
        !strips_extension(v, root, ".js"@)
            ==> matches_at(
                output_name_spec(v, root, ".js"@),
                "._"@,
                shortened(hashed_name(v, root, ".js"@)).len() as int,
            ),
{
    reveal_strlit(".js");
    reveal_strlit("._");
    lemma_no_dot_in_shortened(v, root, ".js"@);
    let sn = shortened(hashed_name(v, root, ".js"@));
    let name = output_name_spec(v, root, ".js"@);
    if strips_extension(v, root, ".js"@) {
        assert(name =~= sn + ".js"@);
        assert forall|t: int| !matches_at(name, "._"@, t) by {
            if 0 <= t && t + 2 <= name.len() {
                if t < sn.len() {
                    assert(name[t] == sn[t]);
                    assert(name[t] != '.');
                    assert(name.subrange(t, t + 2)[0] != '.');
                } else {
                    if t == sn.len() {
                        assert(name[t + 1] == 'j');
                        assert(name.subrange(t, t + 2)[1] == 'j');
                    } else {
                        assert(name[t] != '.');
                        assert(name.subrange(t, t + 2)[0] != '.');
                    }
                }
            }
        }
    } else {
        assert(name =~= sn + "._"@ + ".js"@);
        assert(name.subrange(sn.len() as int, sn.len() as int + 2) =~= "._"@);
    }
}

/// An evaluatable entry without the chunk-item capability contributes no
/// runtime module id — silently, never as an error.
pub proof fn lemma_silent_skip(entries: Seq<EntryView>, e: EntryView)
    requires
        e.chunk_item_id.is_none(),
    ensures
        runtime_ids_spec(entries.push(e)) == runtime_ids_spec(entries),
{
    assert(entries.push(e).drop_last() =~= entries);
    assert(entries.push(e).last() == e);
}

/// Nested-asset contributions are never empty: any nested asset forces a
/// hash suffix.
pub proof fn lemma_assets_contribute(a: Seq<(Seq<char>, IdentView)>)
    requires
        a.len() > 0,
    ensures
        assets_atoms(a).len() > 0,
{
    assert((seq![2u64] + str_atoms(a.last().0) + str_atoms(ident_str(a.last().1))).len() > 0);
}

} // verus!
