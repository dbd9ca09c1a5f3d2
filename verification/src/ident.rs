//! Asset identities: an immutable description of what a build output is,
//! with a canonical string rendering, a deterministic field-tagged hash,
//! and a short, stable, length-bounded output file name.

use vstd::prelude::*;
use crate::text::{expanded, expand_char, dec_str};

verus! {

broadcast use vstd::std_specs::vec::group_vec_axioms;

/// A slice of a module's exports or evaluation, used for fine-grained
/// dependency tracking. Each variant contributes a distinct, order-stable
/// tag to any hash that includes it.
pub enum ModulePart {
    /// The module's side-effecting evaluation slice.
    Evaluation,
    /// A single named export.
    Export(String),
    /// An export under a different published name.
    RenamedExport { original_export: String, export: String },
    /// The whole module namespace under a published name.
    RenamedNamespace { export: String },
    /// An internal numbered slice.
    Internal(u32),
    /// The module's local bindings.
    Locals,
    /// The module's exports facade.
    Exports,
    /// The module's outer facade.
    Facade,
}

/// The mathematical shape of a [`ModulePart`].
pub enum PartView {
    Evaluation,
    Export(Seq<char>),
    RenamedExport { original_export: Seq<char>, export: Seq<char> },
    RenamedNamespace { export: Seq<char> },
    Internal(u32),
    Locals,
    Exports,
    Facade,
}

impl View for ModulePart {
    type V = PartView;

    open spec fn view(&self) -> PartView {
        match self {
            ModulePart::Evaluation => PartView::Evaluation,
            ModulePart::Export(e) => PartView::Export(e@),
            ModulePart::RenamedExport { original_export, export } => (PartView::RenamedExport {
                original_export: original_export@,
                export: export@,
            }),
            ModulePart::RenamedNamespace { export } => (PartView::RenamedNamespace {
                export: export@,
            }),
            ModulePart::Internal(i) => PartView::Internal(*i),
            ModulePart::Locals => PartView::Locals,
            ModulePart::Exports => PartView::Exports,
            ModulePart::Facade => PartView::Facade,
        }
    }
}

/// The canonical rendering of a module part, as it appears inside the
/// `{...}` segment of an identity's string form.
pub open spec fn part_str(p: PartView) -> Seq<char> {
    match p {
        PartView::Evaluation => "module evaluation"@,
        PartView::Export(e) => "export "@ + e,
        PartView::RenamedExport { original_export, export } =>
            "export "@ + original_export + " as "@ + export,
        PartView::RenamedNamespace { export } => "namespace "@ + export,
        PartView::Internal(i) => "internal part "@ + dec_str(i as nat),
        PartView::Locals => "locals"@,
        PartView::Exports => "exports"@,
        PartView::Facade => "facade"@,
    }
}

/// An immutable value describing what a build output is: a primary path
/// plus optional query, fragment, nested sub-identities, modifiers, module
/// part and layer. Identities compare structurally and hash
/// deterministically, so they serve as incremental-build cache keys.
pub struct AssetIdent {
    /// The primary path of the asset.
    pub path: String,
    /// The query parameters of the asset, rendered after a `?`; empty for none.
    pub query: String,
    /// The fragment of the asset (e.g. `#foo`).
    pub fragment: Option<String>,
    /// The assets nested in this asset, each under a key.
    pub assets: Vec<(String, AssetIdent)>,
    /// The modifiers of this asset (e.g. `client chunks`), in insertion order.
    pub modifiers: Vec<String>,
    /// The part of the (ECMAScript) module this asset is.
    pub part: Option<ModulePart>,
    /// The layer the asset was created from.
    pub layer: Option<String>,
}

/// The mathematical shape of an [`AssetIdent`]: every field as a sequence,
/// nested identities as nested views.
pub struct IdentView {
    pub path: Seq<char>,
    pub query: Seq<char>,
    pub fragment: Option<Seq<char>>,
    pub assets: Seq<(Seq<char>, IdentView)>,
    pub modifiers: Seq<Seq<char>>,
    pub part: Option<PartView>,
    pub layer: Option<Seq<char>>,
}

/// The views of a vector of nested assets, in order.
pub open spec fn assets_view(a: Seq<(String, AssetIdent)>) -> Seq<(Seq<char>, IdentView)>
    decreases a,
{
    if a.len() == 0 {
        Seq::empty()
    } else {
        assets_view(a.drop_last()).push((a.last().0@, ident_view(a.last().1)))
    }
}

/// The view of an identity, field by field, nested identities recursively.
pub open spec fn ident_view(i: AssetIdent) -> IdentView
    decreases i,
{
    IdentView {
        path: i.path@,
        query: i.query@,
        fragment: match i.fragment {
            Some(f) => Some(f@),
            None => None,
        },
        assets: assets_view(i.assets@),
        modifiers: Seq::new(i.modifiers@.len(), |k: int| i.modifiers@[k]@),
        part: match i.part {
            Some(p) => Some(p@),
            None => None,
        },
        layer: match i.layer {
            Some(l) => Some(l@),
            None => None,
        },
    }
}

/// The view of the nested assets is pointwise: entry `k`'s view is the key's
/// view paired with the nested identity's view.
pub proof fn lemma_assets_view(a: Seq<(String, AssetIdent)>)
    ensures
        assets_view(a).len() == a.len(),
        forall|k: int| 0 <= k < a.len()
            ==> #[trigger] assets_view(a)[k] == (a[k].0@, ident_view(a[k].1)),
    decreases a,
{
    if a.len() > 0 {
        lemma_assets_view(a.drop_last());
    }
}

impl View for AssetIdent {
    type V = IdentView;

    open spec fn view(&self) -> IdentView {
        ident_view(*self)
    }
}

/// The canonical string renderings of a sequence of nested assets, in
/// order: `/(<key>)/<nested>` for each entry.
pub open spec fn assets_str(a: Seq<(Seq<char>, IdentView)>) -> Seq<char>
    decreases a, 0nat,
{
    if a.len() == 0 {
        Seq::empty()
    } else {
        assets_str(a.drop_last()) + "/("@ + a.last().0 + ")/"@ + ident_str(a.last().1)
    }
}

/// Modifiers joined with `, `, in insertion order.
pub open spec fn joined(ms: Seq<Seq<char>>) -> Seq<char>
    decreases ms.len(),
{
    if ms.len() == 0 {
        Seq::empty()
    } else if ms.len() == 1 {
        ms[0]
    } else {
        joined(ms.drop_last()) + ", "@ + ms.last()
    }
}

/// The canonical human-readable form of an identity, in fixed field order:
/// path, then `?query`, `#fragment`, nested assets, ` [layer]`,
/// ` (modifiers)` and ` {part}` — each segment only when its field is
/// non-empty or present.
pub open spec fn ident_str(v: IdentView) -> Seq<char>
    decreases v, 1nat,
{
    v.path
        + (if v.query.len() > 0 { "?"@ + v.query } else { Seq::empty() })
        + (match v.fragment {
            Some(f) => "#"@ + f,
            None => Seq::empty(),
        })
        + assets_str(v.assets)
        + (match v.layer {
            Some(l) => " ["@ + l + "]"@,
            None => Seq::empty(),
        })
        + (if v.modifiers.len() > 0 { " ("@ + joined(v.modifiers) + ")"@ } else { Seq::empty() })
        + (match v.part {
            Some(p) => " {"@ + part_str(p) + "}"@,
            None => Seq::empty(),
        })
}

/// Deep copy of an identity; the copy has the same view.
fn clone_ident(i: &AssetIdent) -> (r: AssetIdent)
    ensures
        r@ == i@,
    decreases *i,
{
    let mut assets: Vec<(String, AssetIdent)> = Vec::new();
    let mut k: usize = 0;
    while k < i.assets.len()
        invariant
            k <= i.assets.len(),
            assets@.len() == k,
            forall|j: int| 0 <= j < k
                ==> #[trigger] assets@[j].0@ == i.assets@[j].0@
                    && assets@[j].1@ == i.assets@[j].1@,
        decreases i.assets.len() - k,
    {
        let key = i.assets[k].0.clone();
        let nested = clone_ident(&i.assets[k].1);
        assets.push((key, nested));
        k = k + 1;
    }
    let mut modifiers: Vec<String> = Vec::new();
    let mut m: usize = 0;
    while m < i.modifiers.len()
        invariant
            m <= i.modifiers.len(),
            modifiers@.len() == m,
            forall|j: int| 0 <= j < m ==> #[trigger] modifiers@[j]@ == i.modifiers@[j]@,
        decreases i.modifiers.len() - m,
    {
        modifiers.push(i.modifiers[m].clone());
        m = m + 1;
    }
    let fragment = match &i.fragment {
        Some(f) => Some(f.clone()),
        None => None,
    };
    let part = match &i.part {
        Some(p) => Some(clone_part(p)),
        None => None,
    };
    let layer = match &i.layer {
        Some(l) => Some(l.clone()),
        None => None,
    };
    let r = AssetIdent {
        path: i.path.clone(),
        query: i.query.clone(),
        fragment,
        assets,
        modifiers,
        part,
        layer,
    };
    proof {
        lemma_assets_view(r.assets@);
        lemma_assets_view(i.assets@);
        assert(r@.assets =~= i@.assets);
        assert(r@.modifiers =~= i@.modifiers);
        assert(r@ == i@);
    }
    r
}

/// Copy of a module part; the copy has the same view.
fn clone_part(p: &ModulePart) -> (r: ModulePart)
    ensures
        r@ == p@,
{
    match p {
        ModulePart::Evaluation => ModulePart::Evaluation,
        ModulePart::Export(e) => ModulePart::Export(e.clone()),
        ModulePart::RenamedExport { original_export, export } => (ModulePart::RenamedExport {
            original_export: original_export.clone(),
            export: export.clone(),
        }),
        ModulePart::RenamedNamespace { export } => (ModulePart::RenamedNamespace {
            export: export.clone(),
        }),
        ModulePart::Internal(i) => ModulePart::Internal(*i),
        ModulePart::Locals => ModulePart::Locals,
        ModulePart::Exports => ModulePart::Exports,
        ModulePart::Facade => ModulePart::Facade,
    }
}

impl Clone for ModulePart {
    /// The copy has the same view as the original.
    fn clone(&self) -> (r: Self)
        ensures
            r@ == self@,
    {
        clone_part(self)
    }
}

impl Clone for AssetIdent {
    /// The copy has the same view as the original.
    fn clone(&self) -> (r: Self)
        ensures
            r@ == self@,
    {
        clone_ident(self)
    }
}

impl AssetIdent {
    /// Appends one modifier; every other field is unchanged.
    pub fn add_modifier(&mut self, modifier: String)
        ensures
            final(self)@ == (IdentView { modifiers: old(self)@.modifiers.push(modifier@), ..old(self)@ }),
    {
        self.modifiers.push(modifier);
        proof {
            assert(self@.modifiers =~= old(self)@.modifiers.push(modifier@));
            assert(self@.assets =~= old(self)@.assets);
        }
    }

    /// Appends one nested asset under a key; every other field is unchanged.
    pub fn add_asset(&mut self, key: String, asset: AssetIdent)
        ensures
            final(self)@ == (IdentView { assets: old(self)@.assets.push((key@, asset@)), ..old(self)@ }),
    {
        let ghost prior = self@;
        let ghost kv = (key@, asset@);
        self.assets.push((key, asset));
        proof {
            let va = self.assets@;
            assert(va.drop_last() =~= old(self).assets@);
            assert(va.last().0@ == kv.0 && ident_view(va.last().1) == kv.1);
            assert(self@.assets =~= prior.assets.push(kv));
            assert(self@.modifiers =~= prior.modifiers);
        }
    }

    /// Moves this identity to the path a rename pattern gives: the pattern
    /// with every `*` expanded to the current path. Every other field is
    /// unchanged.
    pub fn rename_as_ref(&mut self, pattern: &str)
        ensures
            final(self)@ == (IdentView { path: expanded(pattern@, '*', old(self)@.path), ..old(self)@ }),
    {
        let new_path = expand_char(pattern, '*', self.path.as_str());
        self.path = new_path;
        proof {
            assert(self@.assets =~= old(self)@.assets);
            assert(self@.modifiers =~= old(self)@.modifiers);
        }
    }

    /// Seals a built identity value. Identities are plain structural
    /// values; this is the point where a built value becomes one.
    pub fn new(ident: AssetIdent) -> (r: AssetIdent)
        ensures
            r@ == ident@,
    {
        ident
    }

    /// The identity of a plain location: just a path, every other field
    /// empty or absent.
    pub fn from_path(path: String) -> (r: AssetIdent)
        ensures
            r@ == (IdentView {
                path: path@,
                query: Seq::empty(),
                fragment: None,
                assets: Seq::empty(),
                modifiers: Seq::empty(),
                part: None,
                layer: None,
            }),
    {
        let r = AssetIdent {
            path,
            query: String::new(),
            fragment: None,
            assets: Vec::new(),
            modifiers: Vec::new(),
            part: None,
            layer: None,
        };
        proof {
            assert(r@.assets =~= Seq::<(Seq<char>, IdentView)>::empty());
            assert(r@.modifiers =~= Seq::<Seq<char>>::empty());
        }
        r
    }

    /// A copy of this identity with the query replaced.
    pub fn with_query(&self, query: String) -> (r: AssetIdent)
        ensures
            r@ == (IdentView { query: query@, ..self@ }),
    {
        let mut this = self.clone();
        this.query = query;
        proof {
            assert(this@ == (IdentView { query: query@, ..self@ }));
        }
        this
    }

    /// A copy of this identity with one modifier appended.
    pub fn with_modifier(&self, modifier: String) -> (r: AssetIdent)
        ensures
            r@ == (IdentView { modifiers: self@.modifiers.push(modifier@), ..self@ }),
    {
        let mut this = self.clone();
        this.add_modifier(modifier);
        this
    }

    /// A copy of this identity with the module part replaced.
    pub fn with_part(&self, part: ModulePart) -> (r: AssetIdent)
        ensures
            r@ == (IdentView { part: Some(part@), ..self@ }),
    {
        let mut this = self.clone();
        this.part = Some(part);
        proof {
            assert(this@ == (IdentView { part: Some(part@), ..self@ }));
        }
        this
    }

    /// A copy of this identity with the path replaced.
    pub fn with_path(&self, path: String) -> (r: AssetIdent)
        ensures
            r@ == (IdentView { path: path@, ..self@ }),
    {
        let mut this = self.clone();
        this.path = path;
        proof {
            assert(this@ == (IdentView { path: path@, ..self@ }));
        }
        this
    }

    /// A copy of this identity with the layer replaced.
    pub fn with_layer(&self, layer: String) -> (r: AssetIdent)
        ensures
            r@ == (IdentView { layer: Some(layer@), ..self@ }),
    {
        let mut this = self.clone();
        this.layer = Some(layer);
        proof {
            assert(this@ == (IdentView { layer: Some(layer@), ..self@ }));
        }
        this
    }

    /// A copy of this identity moved to the path a rename pattern gives.
    pub fn rename_as(&self, pattern: &str) -> (r: AssetIdent)
        ensures
            r@ == (IdentView { path: expanded(pattern@, '*', self@.path), ..self@ }),
    {
        let mut this = self.clone();
        this.rename_as_ref(pattern);
        this
    }

    /// The primary path of this identity.
    pub fn path(&self) -> (r: String)
        ensures
            r@ == self@.path,
    {
        self.path.clone()
    }

    /// The query string of this identity.
    pub fn query(&self) -> (r: String)
        ensures
            r@ == self@.query,
    {
        self.query.clone()
    }

    /// Renders the canonical human-readable form of this identity.
    #[verifier::rlimit(50)]
    pub fn to_string(&self) -> (r: String)
        ensures
            r@ == ident_str(self@),
        decreases *self,
    {
        let mut s = self.path.clone();
        if self.query.as_str().unicode_len() > 0 {
            s.append("?");
            s.append(self.query.as_str());
        }
        if let Some(fragment) = &self.fragment {
            s.append("#");
            s.append(fragment.as_str());
        }
        let ghost head = self@.path
            + (if self@.query.len() > 0 { "?"@ + self@.query } else { Seq::<char>::empty() })
            + (match self@.fragment {
                Some(f) => "#"@ + f,
                None => Seq::<char>::empty(),
            });
        proof {
            lemma_assets_view(self.assets@);
            assert(s@ =~= head);
        }
        let mut k: usize = 0;
        while k < self.assets.len()
            invariant
                k <= self.assets.len(),
                self@.assets.len() == self.assets@.len(),
                forall|j: int| 0 <= j < self.assets@.len()
                    ==> #[trigger] self@.assets[j] == (self.assets@[j].0@, ident_view(self.assets@[j].1)),
                s@ == head + assets_str(self@.assets.subrange(0, k as int)),
            decreases self.assets.len() - k,
        {
            s.append("/(");
            s.append(self.assets[k].0.as_str());
            s.append(")/");
            let nested = self.assets[k].1.to_string();
            s.append(nested.as_str());
            proof {
                let pre = self@.assets.subrange(0, k as int);
                let cur = self@.assets.subrange(0, k + 1);
                assert(cur.drop_last() =~= pre);
                assert(cur.last() == self@.assets[k as int]);
                assert(s@ =~= head + assets_str(cur));
            }
            k = k + 1;
        }
        proof {
            assert(self@.assets.subrange(0, self.assets@.len() as int) =~= self@.assets);
        }
        if let Some(layer) = &self.layer {
            s.append(" [");
            s.append(layer.as_str());
            s.append("]");
        }
        let ghost mid = head + assets_str(self@.assets)
            + (match self@.layer {
                Some(l) => " ["@ + l + "]"@,
                None => Seq::<char>::empty(),
            });
        proof {
            assert(s@ =~= mid);
        }
        if self.modifiers.len() > 0 {
            s.append(" (");
            let mut m: usize = 0;
            while m < self.modifiers.len()
                invariant
                    m <= self.modifiers.len(),
                    self@.modifiers.len() == self.modifiers@.len(),
                    forall|j: int| 0 <= j < self.modifiers@.len()
                        ==> #[trigger] self@.modifiers[j] == self.modifiers@[j]@,
                    s@ == mid + " ("@ + joined(self@.modifiers.subrange(0, m as int)),
                decreases self.modifiers.len() - m,
            {
                if m > 0 {
                    s.append(", ");
                }
                s.append(self.modifiers[m].as_str());
                proof {
                    let pre = self@.modifiers.subrange(0, m as int);
                    let cur = self@.modifiers.subrange(0, m + 1);
                    assert(cur.drop_last() =~= pre);
                    assert(cur.last() == self@.modifiers[m as int]);
                    assert(s@ =~= mid + " ("@ + joined(cur));
                }
                m = m + 1;
            }
            s.append(")");
            proof {
                assert(self@.modifiers.subrange(0, self.modifiers@.len() as int) =~= self@.modifiers);
            }
        }
        let ghost tail = mid
            + (if self@.modifiers.len() > 0 { " ("@ + joined(self@.modifiers) + ")"@ } else { Seq::<char>::empty() });
        proof {
            assert(s@ =~= tail);
        }
        if let Some(part) = &self.part {
            s.append(" {");
            let p = render_part(part);
            s.append(p.as_str());
            s.append("}");
        }
        proof {
            assert(s@ =~= ident_str(self@));
        }
        s
    }
}

/// Renders a module part as it appears inside `{...}`.
fn render_part(p: &ModulePart) -> (r: String)
    ensures
        r@ == part_str(p@),
{
    match p {
        ModulePart::Evaluation => String::from_str("module evaluation"),
        ModulePart::Export(e) => {
            let mut s = String::from_str("export ");
            s.append(e.as_str());
            proof {
                assert(s@ =~= part_str(p@));
            }
            s
        },
        ModulePart::RenamedExport { original_export, export } => {
            let mut s = String::from_str("export ");
            s.append(original_export.as_str());
            s.append(" as ");
            s.append(export.as_str());
            proof {
                assert(s@ =~= part_str(p@));
            }
            s
        },
        ModulePart::RenamedNamespace { export } => {
            let mut s = String::from_str("namespace ");
            s.append(export.as_str());
            proof {
                assert(s@ =~= part_str(p@));
            }
            s
        },
        ModulePart::Internal(i) => {
            let mut s = String::from_str("internal part ");
            let d = crate::text::u32_to_string(*i);
            s.append(d.as_str());
            proof {
                assert(s@ =~= part_str(p@));
            }
            s
        },
        ModulePart::Locals => String::from_str("locals"),
        ModulePart::Exports => String::from_str("exports"),
        ModulePart::Facade => String::from_str("facade"),
    }
}

} // verus!
