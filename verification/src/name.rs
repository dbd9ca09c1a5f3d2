//! Output name generation: a pure function from an asset identity, a
//! context root and an expected extension to a short, stable,
//! collision-resistant file name.
//!
//! The name is the root-relative path with separators and dots flattened,
//! plus a six-hex-digit digest of every identifying field beyond the path
//! (only when at least one such field is present), bounded in length by
//! hashing any overlong prefix down to five hex digits, and finished with
//! the expected extension — preceded by a `._` marker when the asset's
//! native extension differs.

use vstd::prelude::*;
use crate::hash::{digest, str_atoms, hex_digits, IdentHasher, encode_hex};
use crate::ident::{AssetIdent, IdentView, ModulePart, PartView, ident_str, lemma_assets_view};
use crate::text::{
    replaced, is_suffix, rel_path_to, last_match, first_from,
    replace_char, has_suffix, str_eq, get_path_to, rfind_str, find_char_from,
    lemma_last_match,
};

verus! {

/// Longest tail of a name kept verbatim; anything before it is hashed.
pub const MAX_FILENAME: usize = 80;

/// How far past a length cut the split may advance to land after a `_`.
pub const WORD_WINDOW: usize = 20;

/// The marker after whose last occurrence the kept tail of a name starts.
pub open spec fn marker() -> Seq<char> {
    "_node_modules_"@
}

/// Replaces every path separator with `_`.
pub fn clean_separators(s: &str) -> (r: String)
    ensures
        r@ == replaced(s@, '/', '_'),
{
    proof {
        reveal_strlit("_");
    }
    replace_char(s, '/', "_")
}

/// Replaces every remaining `.` with `_`, so no hidden-file-like leading
/// dot and no secondary extension survives in an output name.
pub fn clean_additional_extensions(s: &str) -> (r: String)
    ensures
        r@ == replaced(s@, '.', '_'),
{
    proof {
        reveal_strlit("_");
    }
    replace_char(s, '.', "_")
}

/// The modifier an expected extension makes redundant: such a modifier is
/// left out of the name hash, so the common case adds no hash suffix.
pub open spec fn default_modifier_for(ext: Seq<char>) -> Option<Seq<char>> {
    if ext == ".js"@ {
        Some("ecmascript"@)
    } else if ext == ".css"@ {
        Some("css"@)
    } else {
        None
    }
}

/// The tagged contribution of a module part: a tag distinct per variant,
/// then the payload. Two variants never share a tag, so their
/// contributions differ even when payloads coincide.
pub open spec fn part_atoms(p: PartView) -> Seq<u64> {
    match p {
        PartView::Evaluation => seq![1u64],
        PartView::Export(e) => seq![2u64] + str_atoms(e),
        PartView::RenamedExport { original_export, export } =>
            seq![3u64] + str_atoms(original_export) + str_atoms(export),
        PartView::RenamedNamespace { export } => seq![4u64] + str_atoms(export),
        PartView::Internal(i) => seq![5u64, i as u64],
        PartView::Locals => seq![6u64],
        PartView::Exports => seq![7u64],
        PartView::Facade => seq![8u64],
    }
}

/// The tagged contributions of the nested assets, in order: for each, the
/// tag, the key, and the nested identity's canonical string.
pub open spec fn assets_atoms(a: Seq<(Seq<char>, IdentView)>) -> Seq<u64>
    decreases a.len(),
{
    if a.len() == 0 {
        Seq::empty()
    } else {
        assets_atoms(a.drop_last()) + seq![2u64] + str_atoms(a.last().0)
            + str_atoms(ident_str(a.last().1))
    }
}

/// The tagged contributions of the modifiers, in order, leaving out every
/// occurrence of the default modifier.
pub open spec fn modifiers_atoms(ms: Seq<Seq<char>>, dm: Option<Seq<char>>) -> Seq<u64>
    decreases ms.len(),
{
    if ms.len() == 0 {
        Seq::empty()
    } else {
        modifiers_atoms(ms.drop_last(), dm)
            + (if dm == Some(ms.last()) { Seq::empty() } else { seq![3u64] + str_atoms(ms.last()) })
    }
}

/// Everything an identity contributes to its name hash, in fixed field
/// order: query (if non-empty), fragment (if present), nested assets,
/// non-default modifiers, part (if present), layer (if present) — each
/// field under its own unique tag, so that no two fields' contributions
/// can coincide. Empty exactly when none of those fields is present.
pub open spec fn ident_atoms(v: IdentView, dm: Option<Seq<char>>) -> Seq<u64> {
    (if v.query.len() > 0 { seq![0u64] + str_atoms(v.query) } else { Seq::empty() })
        + (match v.fragment {
            Some(f) => seq![1u64] + str_atoms(f),
            None => Seq::empty(),
        })
        + assets_atoms(v.assets)
        + modifiers_atoms(v.modifiers, dm)
        + (match v.part {
            Some(p) => seq![4u64] + part_atoms(p),
            None => Seq::empty(),
        })
        + (match v.layer {
            Some(l) => seq![5u64] + str_atoms(l),
            None => Seq::empty(),
        })
}

/// The relative name an identity starts from: the root-relative path when
/// the path lies under the context root, the full path otherwise, with
/// every separator flattened to `_`.
pub open spec fn rel_name(v: IdentView, root: Seq<char>) -> Seq<char> {
    match rel_path_to(root, v.path) {
        Some(rel) => replaced(rel, '/', '_'),
        None => replaced(v.path, '/', '_'),
    }
}

/// Whether the relative name already ends in the expected extension — in
/// that case the extension is stripped and no `._` marker is added.
pub open spec fn strips_extension(v: IdentView, root: Seq<char>, ext: Seq<char>) -> bool {
    is_suffix(ext, rel_name(v, root))
}

/// The relative name with the expected extension stripped (when it ends
/// in it) and every remaining `.` flattened to `_`.
pub open spec fn base_name(v: IdentView, root: Seq<char>, ext: Seq<char>) -> Seq<char> {
    let n = rel_name(v, root);
    let t = if is_suffix(ext, n) { n.take(n.len() - ext.len()) } else { n };
    replaced(t, '.', '_')
}

/// The base name plus `_` and the first six hex digits of the field
/// digest — only when some field contributed at all.
pub open spec fn hashed_name(v: IdentView, root: Seq<char>, ext: Seq<char>) -> Seq<char> {
    let base = base_name(v, root, ext);
    let atoms = ident_atoms(v, default_modifier_for(ext));
    if atoms.len() > 0 {
        base + seq!['_'] + hex_digits(digest(atoms)).take(6)
    } else {
        base
    }
}

/// Where the hashed and kept parts of a name split: just after the last
/// `_node_modules_` marker (or at the start); then, if the kept tail
/// still exceeds the length bound, at the bound — advanced past the next
/// `_` when one falls within the word window.
pub open spec fn split_point(name: Seq<char>) -> int {
    let start = match last_match(name, marker()) {
        Some(j) => j + marker().len(),
        None => 0,
    };
    if name.len() - start > MAX_FILENAME {
        let cut = name.len() - MAX_FILENAME;
        match first_from(name, '_', cut) {
            Some(j) => if j - cut < WORD_WINDOW { j + 1 } else { cut },
            None => cut,
        }
    } else {
        start
    }
}

/// The name with everything before the split point replaced by five hex
/// digits of its digest and a `_`; unchanged when the split is at the
/// start.
pub open spec fn shortened(name: Seq<char>) -> Seq<char> {
    let i = split_point(name);
    if i > 0 {
        hex_digits(digest(str_atoms(name.take(i)))).take(5) + seq!['_'] + name.skip(i)
    } else {
        name
    }
}

/// The complete output name: the shortened hashed name, a `._` marker
/// when the asset's native extension differs from the expected one, and
/// the expected extension.
pub open spec fn output_name_spec(v: IdentView, root: Seq<char>, ext: Seq<char>) -> Seq<char> {
    shortened(hashed_name(v, root, ext))
        + (if strips_extension(v, root, ext) { Seq::<char>::empty() } else { "._"@ })
        + ext
}

/// The split point lies within the name (and after a kept marker).
pub proof fn lemma_split_point_in_range(name: Seq<char>)
    ensures
        0 <= split_point(name) <= name.len(),
{
    lemma_last_match(name, marker());
    let start = match last_match(name, marker()) {
        Some(j) => j + marker().len(),
        None => 0,
    };
    assert(0 <= start <= name.len());
    if name.len() - start > MAX_FILENAME {
        let cut = name.len() - MAX_FILENAME;
        match first_from(name, '_', cut) {
            Some(j) => {
                crate::text::lemma_first_from(name, '_', cut);
            },
            None => {},
        }
    }
}

impl AssetIdent {
    /// Computes the unique output name for this identity: relative to
    /// `context_path` when the path lies under it, flattened, hashed when
    /// any identifying field beyond the path is present, length-bounded,
    /// and finished with `expected_extension`.
    #[verifier::rlimit(100)]
    pub fn output_name(&self, context_path: &str, expected_extension: &str) -> (r: String)
        ensures
            r@ == output_name_spec(self@, context_path@, expected_extension@),
    {
        let ghost v = self@;
        let ghost root = context_path@;
        let ghost ext = expected_extension@;

        let rel_opt = get_path_to(context_path, self.path.as_str());
        let cleaned = match rel_opt {
            Some(inner) => clean_separators(inner.as_str()),
            None => clean_separators(self.path.as_str()),
        };
        proof {
            assert(cleaned@ == rel_name(v, root));
        }
        let removed_extension = has_suffix(cleaned.as_str(), expected_extension);
        let stripped = if removed_extension {
            let cn = cleaned.as_str().unicode_len();
            let cm = expected_extension.unicode_len();
            cleaned.as_str().substring_char(0, cn - cm).to_owned()
        } else {
            cleaned
        };
        let name = clean_additional_extensions(stripped.as_str());
        proof {
            assert(removed_extension == strips_extension(v, root, ext));
            assert(name@ == base_name(v, root, ext)) by {
                let nm = rel_name(v, root);
                if is_suffix(ext, nm) {
                    assert(stripped@ =~= nm.take(nm.len() - ext.len()));
                }
            }
        }

        let is_js = str_eq(expected_extension, ".js");
        let is_css = str_eq(expected_extension, ".css");
        let dm: Option<&str> = if is_js {
            Some("ecmascript")
        } else if is_css {
            Some("css")
        } else {
            None
        };
        let ghost dmv = default_modifier_for(ext);
        proof {
            match dm {
                Some(d) => {
                    assert(dmv == Some(d@));
                },
                None => {
                    assert(dmv.is_none());
                },
            }
        }

        let mut hasher = IdentHasher::new();
        let mut has_hash = false;

        // Query, under tag 0, when non-empty.
        if self.query.as_str().unicode_len() > 0 {
            hasher.write_atom(0);
            hasher.write_str(self.query.as_str());
            has_hash = true;
        }
        let ghost seg_q = if v.query.len() > 0 { seq![0u64] + str_atoms(v.query) } else {
            Seq::<u64>::empty()
        };
        proof {
            assert(hasher.atoms() =~= seg_q);
            assert(has_hash == (hasher.atoms().len() > 0));
        }

        // Fragment, under tag 1, when present.
        if let Some(fragment) = &self.fragment {
            hasher.write_atom(1);
            hasher.write_str(fragment.as_str());
            has_hash = true;
        }
        let ghost seg_f = match v.fragment {
            Some(f) => seq![1u64] + str_atoms(f),
            None => Seq::<u64>::empty(),
        };
        proof {
            assert(hasher.atoms() =~= seg_q + seg_f);
            assert(has_hash == (hasher.atoms().len() > 0));
        }

        // Nested assets, each under tag 2: key, then canonical string.
        proof {
            lemma_assets_view(self.assets@);
        }
        let mut k: usize = 0;
        while k < self.assets.len()
            invariant
                k <= self.assets.len(),
                v == self@,
                v.assets.len() == self.assets@.len(),
                forall|j: int| 0 <= j < self.assets@.len()
                    ==> #[trigger] v.assets[j]
                        == (self.assets@[j].0@, crate::ident::ident_view(self.assets@[j].1)),
                hasher.wf(),
                hasher.atoms() == seg_q + seg_f + assets_atoms(v.assets.subrange(0, k as int)),
                has_hash == (hasher.atoms().len() > 0),
            decreases self.assets.len() - k,
        {
            hasher.write_atom(2);
            hasher.write_str(self.assets[k].0.as_str());
            let nested = self.assets[k].1.to_string();
            hasher.write_str(nested.as_str());
            has_hash = true;
            proof {
                let pre = v.assets.subrange(0, k as int);
                let cur = v.assets.subrange(0, k + 1);
                assert(cur.drop_last() =~= pre);
                assert(cur.last() == v.assets[k as int]);
                assert(hasher.atoms() =~= seg_q + seg_f + assets_atoms(cur));
            }
            k = k + 1;
        }
        let ghost seg_a = assets_atoms(v.assets);
        proof {
            assert(v.assets.subrange(0, self.assets@.len() as int) =~= v.assets);
            assert(hasher.atoms() == seg_q + seg_f + seg_a);
        }

        // Modifiers, each under tag 3, leaving out the default modifier.
        let mut m: usize = 0;
        while m < self.modifiers.len()
            invariant
                m <= self.modifiers.len(),
                v == self@,
                v.modifiers.len() == self.modifiers@.len(),
                forall|j: int| 0 <= j < self.modifiers@.len()
                    ==> #[trigger] v.modifiers[j] == self.modifiers@[j]@,
                hasher.wf(),
                match dm {
                    Some(d) => dmv == Some(d@),
                    None => dmv.is_none(),
                },
                hasher.atoms() == seg_q + seg_f + seg_a
                    + modifiers_atoms(v.modifiers.subrange(0, m as int), dmv),
                has_hash == (hasher.atoms().len() > 0),
            decreases self.modifiers.len() - m,
        {
            let skip = match dm {
                Some(d) => str_eq(self.modifiers[m].as_str(), d),
                None => false,
            };
            if !skip {
                hasher.write_atom(3);
                hasher.write_str(self.modifiers[m].as_str());
                has_hash = true;
            }
            proof {
                let pre = v.modifiers.subrange(0, m as int);
                let cur = v.modifiers.subrange(0, m + 1);
                assert(cur.drop_last() =~= pre);
                assert(cur.last() == v.modifiers[m as int]);
                assert(skip == (dmv == Some(v.modifiers[m as int])));
                assert(hasher.atoms() =~= seg_q + seg_f + seg_a + modifiers_atoms(cur, dmv));
            }
            m = m + 1;
        }
        let ghost seg_m = modifiers_atoms(v.modifiers, dmv);
        proof {
            assert(v.modifiers.subrange(0, self.modifiers@.len() as int) =~= v.modifiers);
            assert(hasher.atoms() == seg_q + seg_f + seg_a + seg_m);
        }

        // Part, under tag 4 then a tag per variant.
        if let Some(part) = &self.part {
            hasher.write_atom(4);
            match part {
                ModulePart::Evaluation => {
                    hasher.write_atom(1);
                },
                ModulePart::Export(export) => {
                    hasher.write_atom(2);
                    hasher.write_str(export.as_str());
                },
                ModulePart::RenamedExport { original_export, export } => {
                    hasher.write_atom(3);
                    hasher.write_str(original_export.as_str());
                    hasher.write_str(export.as_str());
                },
                ModulePart::RenamedNamespace { export } => {
                    hasher.write_atom(4);
                    hasher.write_str(export.as_str());
                },
                ModulePart::Internal(id) => {
                    hasher.write_atom(5);
                    hasher.write_atom(*id as u64);
                },
                ModulePart::Locals => {
                    hasher.write_atom(6);
                },
                ModulePart::Exports => {
                    hasher.write_atom(7);
                },
                ModulePart::Facade => {
                    hasher.write_atom(8);
                },
            }
            has_hash = true;
        }
        let ghost seg_p = match v.part {
            Some(p) => seq![4u64] + part_atoms(p),
            None => Seq::<u64>::empty(),
        };
        proof {
            assert(hasher.atoms() =~= seg_q + seg_f + seg_a + seg_m + seg_p);
            assert(has_hash == (hasher.atoms().len() > 0));
        }

        // Layer, under tag 5, when present.
        if let Some(layer) = &self.layer {
            hasher.write_atom(5);
            hasher.write_str(layer.as_str());
            has_hash = true;
        }
        proof {
            assert(hasher.atoms() =~= ident_atoms(v, dmv));
            assert(has_hash == (hasher.atoms().len() > 0));
        }

        let mut name = name;
        if has_hash {
            let h = hasher.finish();
            let hex = encode_hex(h);
            name.append("_");
            let h6 = hex.as_str().substring_char(0, 6);
            name.append(h6);
            proof {
                assert(seq!['_'] =~= "_"@) by {
                    reveal_strlit("_");
                }
                assert(name@ =~= hashed_name(v, root, ext));
            }
        }
        proof {
            assert(name@ == hashed_name(v, root, ext));
        }

        // Split the name into a hashed prefix and a kept tail.
        let ghost whole = name@;
        let n = name.as_str().unicode_len();
        let mut i: usize = 0;
        let mlen = "_node_modules_".unicode_len();
        if let Some(j) = rfind_str(name.as_str(), "_node_modules_") {
            proof {
                lemma_last_match(whole, marker());
            }
            i = j + mlen;
        }
        let ghost start = match last_match(whole, marker()) {
            Some(j) => j + marker().len(),
            None => 0,
        };
        proof {
            assert(i == start);
            assert(0 <= start <= whole.len());
        }
        if n - i > MAX_FILENAME {
            i = n - MAX_FILENAME;
            if let Some(j) = find_char_from(name.as_str(), '_', i) {
                proof {
                    crate::text::lemma_first_from(whole, '_', i as int);
                }
                if j - i < WORD_WINDOW {
                    i = j + 1;
                }
            }
        }
        proof {
            assert(i == split_point(whole));
            assert(i <= whole.len());
        }
        if i > 0 {
            let prefix = name.as_str().substring_char(0, i);
            let mut ph = IdentHasher::new();
            ph.write_str(prefix);
            let h = ph.finish();
            let hex = encode_hex(h);
            let h5 = hex.as_str().substring_char(0, 5);
            let mut out = h5.to_owned();
            out.append("_");
            let tail = name.as_str().substring_char(i, n);
            out.append(tail);
            proof {
                assert(prefix@ =~= whole.take(i as int));
                assert(ph.atoms() =~= str_atoms(prefix@));
                assert(seq!['_'] =~= "_"@) by {
                    reveal_strlit("_");
                }
                assert(out@ =~= shortened(whole));
            }
            name = out;
        }
        proof {
            assert(name@ == shortened(hashed_name(v, root, ext)));
        }

        // A `._` marker keeps a foreign native extension from colliding
        // with a genuine one, then the expected extension ends the name.
        if !removed_extension {
            name.append("._");
        }
        name.append(expected_extension);
        proof {
            assert(name@ =~= output_name_spec(v, root, ext));
        }
        name
    }
}

} // verus!
