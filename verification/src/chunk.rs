//! The chunk composer: folds a base identity, sibling chunks and
//! evaluatable entries into one loadable output artifact — its derived
//! identity, its bootstrap code and its references.

use vstd::prelude::*;
use crate::ident::{AssetIdent, IdentView, ident_view, ident_str};
use crate::name::output_name_spec;
use crate::json::{json_string, json_quote};
use crate::text::{rel_path_to, file_name_of, dec_str, get_path_to, u32_to_string};

verus! {

/// Which runtime loader body a chunk carries: the full development
/// runtime, or a minimal stub for test harnesses.
#[derive(Clone, Copy)]
pub enum RuntimeType {
    Default,
    Dummy,
}

/// Policy and environment of chunk output: where chunks live, what root
/// their public paths are relative to, and which runtime flavor they get.
pub struct DevChunkingContext {
    /// The project root against which output names are computed.
    pub context_path: String,
    /// The root every emitted chunk path must lie under.
    pub output_root: String,
    /// The directory chunk files are placed in.
    pub chunk_root_path: String,
    /// The public base path handed to the runtime loader.
    pub chunk_base_path: String,
    /// The build environment the runtime loader is generated for.
    pub environment: String,
    /// The runtime flavor this context emits.
    pub runtime_type: RuntimeType,
    /// Whether a chunk references its companion source-map artifact.
    pub reference_chunk_source_maps: bool,
}

/// The mathematical shape of a [`DevChunkingContext`].
#[verifier::ext_equal]
pub struct CtxView {
    pub context_path: Seq<char>,
    pub output_root: Seq<char>,
    pub chunk_root_path: Seq<char>,
    pub chunk_base_path: Seq<char>,
    pub environment: Seq<char>,
    pub runtime_type: RuntimeType,
    pub reference_chunk_source_maps: bool,
}

impl View for DevChunkingContext {
    type V = CtxView;

    open spec fn view(&self) -> CtxView {
        CtxView {
            context_path: self.context_path@,
            output_root: self.output_root@,
            chunk_root_path: self.chunk_root_path@,
            chunk_base_path: self.chunk_base_path@,
            environment: self.environment@,
            runtime_type: self.runtime_type,
            reference_chunk_source_maps: self.reference_chunk_source_maps,
        }
    }
}

/// The id a module is instantiated under at runtime: a number or a name.
pub enum ModuleId {
    Number(u32),
    Text(String),
}

/// The mathematical shape of a [`ModuleId`].
#[verifier::ext_equal]
pub enum IdView {
    Number(u32),
    Text(Seq<char>),
}

impl View for ModuleId {
    type V = IdView;

    open spec fn view(&self) -> IdView {
        match self {
            ModuleId::Number(n) => IdView::Number(*n),
            ModuleId::Text(s) => IdView::Text(s@),
        }
    }
}

impl Clone for ModuleId {
    /// The copy has the same view as the original.
    fn clone(&self) -> (r: Self)
        ensures
            r@ == self@,
    {
        match self {
            ModuleId::Number(n) => ModuleId::Number(*n),
            ModuleId::Text(s) => ModuleId::Text(s.clone()),
        }
    }
}

/// An entry a chunk must execute on load. An entry whose module does not
/// support being placed in an ecmascript chunk has no chunk-item id; such
/// an entry is silently skipped, by design.
pub struct EvaluatableEntry {
    /// The identity of the entry module.
    pub ident: AssetIdent,
    /// The module's id as a chunk item, when the module has that
    /// capability; `None` when it does not.
    pub chunk_item_id: Option<ModuleId>,
}

/// The mathematical shape of an [`EvaluatableEntry`].
#[verifier::ext_equal]
pub struct EntryView {
    pub ident: IdentView,
    pub chunk_item_id: Option<IdView>,
}

/// The view of an evaluatable entry.
pub open spec fn entry_view(e: EvaluatableEntry) -> EntryView {
    EntryView {
        ident: ident_view(e.ident),
        chunk_item_id: match e.chunk_item_id {
            Some(i) => Some(i@),
            None => None,
        },
    }
}

/// A sibling chunk in the same group: its identity, and any further
/// output assets its loader metadata declares (chunks to load
/// asynchronously).
pub struct SiblingChunk {
    pub ident: AssetIdent,
    pub references: Vec<String>,
}

/// The mathematical shape of a [`SiblingChunk`].
#[verifier::ext_equal]
pub struct SiblingView {
    pub ident: IdentView,
    pub references: Seq<Seq<char>>,
}

/// The views of a vector of strings, in order.
pub open spec fn strings_view(v: Seq<String>) -> Seq<Seq<char>> {
    Seq::new(v.len(), |i: int| v[i]@)
}

/// The view of a sibling chunk.
pub open spec fn sibling_view(s: SiblingChunk) -> SiblingView {
    SiblingView { ident: ident_view(s.ident), references: strings_view(s.references@) }
}

/// Loader metadata for one sibling chunk: its output-root-relative path
/// and the references its loader declares.
pub struct ChunkData {
    pub path: String,
    pub references: Vec<String>,
}

/// The mathematical shape of a [`ChunkData`].
#[verifier::ext_equal]
pub struct ChunkDataView {
    pub path: Seq<char>,
    pub references: Seq<Seq<char>>,
}

/// The view of a vector of chunk data, in order.
pub open spec fn datas_view(v: Seq<ChunkData>) -> Seq<ChunkDataView> {
    Seq::new(v.len(), |i: int| ChunkDataView {
        path: v[i].path@,
        references: strings_view(v[i].references@),
    })
}

/// A code artifact: its text and, when the producer supplied one, its
/// combined source map.
#[derive(Debug)]
pub struct Code {
    pub source_code: String,
    pub source_map: Option<String>,
}

/// The mathematical shape of a [`Code`].
#[verifier::ext_equal]
pub struct CodeView {
    pub source_code: Seq<char>,
    pub source_map: Option<Seq<char>>,
}

impl View for Code {
    type V = CodeView;

    open spec fn view(&self) -> CodeView {
        CodeView {
            source_code: self.source_code@,
            source_map: match self.source_map {
                Some(m) => Some(m@),
                None => None,
            },
        }
    }
}

/// A fatal configuration fault: the chunk's resolved path does not lie
/// under the output root.
#[derive(Debug)]
pub enum ChunkError {
    Configuration { chunk_path: String, output_root: String },
}

/// A reference this chunk declares: its own companion source-map
/// artifact, or an output asset named by a sibling's loader metadata.
pub enum ChunkReference {
    SourceMapAsset,
    Output(String),
}

/// The mathematical shape of a [`ChunkReference`].
#[verifier::ext_equal]
pub enum RefView {
    SourceMapAsset,
    Output(Seq<char>),
}

impl View for ChunkReference {
    type V = RefView;

    open spec fn view(&self) -> RefView {
        match self {
            ChunkReference::SourceMapAsset => RefView::SourceMapAsset,
            ChunkReference::Output(p) => RefView::Output(p@),
        }
    }
}

/// An ecmascript chunk that carries the development runtime and
/// evaluates a list of entries on load. Its identity and its content are
/// pure functions of its four fields.
pub struct EcmascriptDevEvaluateChunk {
    pub chunking_context: DevChunkingContext,
    pub ident: AssetIdent,
    pub other_chunks: Vec<SiblingChunk>,
    pub evaluatable_assets: Vec<EvaluatableEntry>,
}

/// The mathematical shape of an [`EcmascriptDevEvaluateChunk`].
#[verifier::ext_equal]
pub struct ChunkShape {
    pub context: CtxView,
    pub ident: IdentView,
    pub other_chunks: Seq<SiblingView>,
    pub evaluatable_assets: Seq<EntryView>,
}

impl View for EcmascriptDevEvaluateChunk {
    type V = ChunkShape;

    open spec fn view(&self) -> ChunkShape {
        ChunkShape {
            context: self.chunking_context@,
            ident: ident_view(self.ident),
            other_chunks: Seq::new(self.other_chunks@.len(), |i: int| sibling_view(self.other_chunks@[i])),
            evaluatable_assets: Seq::new(
                self.evaluatable_assets@.len(),
                |i: int| entry_view(self.evaluatable_assets@[i]),
            ),
        }
    }
}

/// The modifier that tags a derived identity as a dev evaluate chunk.
pub open spec fn evaluate_chunk_modifier() -> Seq<char> {
    "ecmascript dev evaluate chunk"@
}

/// A path under a root directory: the root, a separator, the name — or
/// the bare name under an empty root.
pub open spec fn joined_path(root: Seq<char>, name: Seq<char>) -> Seq<char> {
    if root.len() == 0 {
        name
    } else {
        root + seq!['/'] + name
    }
}

/// Where a context places the chunk of an identity: the output name of
/// the identity, relative to the context's project root, under the
/// context's chunk directory.
pub open spec fn chunk_path_spec(ctx: CtxView, v: IdentView, ext: Seq<char>) -> Seq<char> {
    joined_path(ctx.chunk_root_path, output_name_spec(v, ctx.context_path, ext))
}

/// The identity of a bare path: every other field empty or absent.
pub open spec fn path_ident(p: Seq<char>) -> IdentView {
    IdentView {
        path: p,
        query: Seq::empty(),
        fragment: None,
        assets: Seq::empty(),
        modifiers: Seq::empty(),
        part: None,
        layer: None,
    }
}

/// The modifiers of the composite identity a chunk derives its path
/// from: the base identity's modifiers, the dev-evaluate-chunk tag, one
/// modifier per evaluatable entry (its identity's canonical string), and
/// one per sibling chunk (likewise), in that order.
pub open spec fn composite_modifiers(c: ChunkShape) -> Seq<Seq<char>> {
    c.ident.modifiers + seq![evaluate_chunk_modifier()]
        + Seq::new(c.evaluatable_assets.len(), |i: int| ident_str(c.evaluatable_assets[i].ident))
        + Seq::new(c.other_chunks.len(), |i: int| ident_str(c.other_chunks[i].ident))
}

/// The composite identity a chunk's path is computed from.
pub open spec fn composite_ident(c: ChunkShape) -> IdentView {
    IdentView { modifiers: composite_modifiers(c), ..c.ident }
}

/// The derived identity of a chunk: the composite identity is used up to
/// compute an output path, and that path alone is the identity the
/// artifact carries from then on.
pub open spec fn derived_ident(c: ChunkShape) -> IdentView {
    path_ident(chunk_path_spec(c.context, composite_ident(c), ".js"@))
}

/// The loader metadata of the sibling chunks that lie under the output
/// root, in order; siblings outside it are left out.
pub open spec fn chunks_data_spec(out_root: Seq<char>, chunks: Seq<SiblingView>) -> Seq<ChunkDataView>
    decreases chunks.len(),
{
    if chunks.len() == 0 {
        Seq::empty()
    } else {
        let rest = chunks_data_spec(out_root, chunks.drop_last());
        match rel_path_to(out_root, chunks.last().ident.path) {
            Some(rel) => rest.push(ChunkDataView {
                path: rel,
                references: chunks.last().references,
            }),
            None => rest,
        }
    }
}

/// The module ids a chunk instantiates on load: one per evaluatable
/// entry that has the chunk-item capability, in entry order; entries
/// without it contribute nothing.
pub open spec fn runtime_ids_spec(entries: Seq<EntryView>) -> Seq<IdView>
    decreases entries.len(),
{
    if entries.len() == 0 {
        Seq::empty()
    } else {
        let rest = runtime_ids_spec(entries.drop_last());
        match entries.last().chunk_item_id {
            Some(i) => rest.push(i),
            None => rest,
        }
    }
}

/// The serialized form of a module id: a number, or a JSON string.
pub open spec fn id_json(id: IdView) -> Seq<char> {
    match id {
        IdView::Number(n) => dec_str(n as nat),
        IdView::Text(s) => json_string(s),
    }
}

/// Comma-joined list items.
pub open spec fn json_list(items: Seq<Seq<char>>) -> Seq<char>
    decreases items.len(),
{
    if items.len() == 0 {
        Seq::empty()
    } else if items.len() == 1 {
        items[0]
    } else {
        json_list(items.drop_last()) + seq![','] + items.last()
    }
}

/// The runtime parameter record of the bootstrap push: the sibling
/// chunks' serialized loader metadata and the resolved module ids, under
/// fixed field names.
pub open spec fn params_json(datas: Seq<ChunkDataView>, ids: Seq<IdView>) -> Seq<char> {
    "{\"otherChunks\":["@
        + json_list(Seq::new(datas.len(), |i: int| json_string(datas[i].path)))
        + "],\"runtimeModuleIds\":["@
        + json_list(Seq::new(ids.len(), |i: int| id_json(ids[i])))
        + "]}"@
}

/// The bootstrap statement: pushes onto the shared global list a record
/// of the chunk's public path, an empty reserved slot, and the runtime
/// parameters.
pub open spec fn bootstrap_text(public_path: Seq<char>, datas: Seq<ChunkDataView>, ids: Seq<IdView>) -> Seq<char> {
    "(globalThis.TURBOPACK = globalThis.TURBOPACK || []).push([\n    "@
        + json_string(public_path)
        + ",\n    {},\n    "@
        + params_json(datas, ids)
        + "\n]);\n"@
}

/// The minimal test-only runtime stub.
pub open spec fn stub_runtime_text() -> Seq<char> {
    "// minimal runtime\n"@
}

/// The runtime body a context's flavor selects: the supplied runtime
/// code, or the minimal stub.
pub open spec fn runtime_body(rt: RuntimeType, runtime: CodeView) -> CodeView {
    match rt {
        RuntimeType::Default => runtime,
        RuntimeType::Dummy => CodeView { source_code: stub_runtime_text(), source_map: None },
    }
}

/// The chunk's public path: its derived path relative to the output
/// root. Absent exactly when the chunk path does not lie under the root,
/// which is the configuration fault.
pub open spec fn public_path_spec(c: ChunkShape) -> Option<Seq<char>> {
    rel_path_to(c.context.output_root, derived_ident(c).path)
}

/// The complete code of a chunk, given its public path and the runtime
/// body: the bootstrap statement, the runtime body, and — when the body
/// carries a source map — a trailing reference to the companion map
/// file. The map itself is the body's, passed through.
pub open spec fn code_spec(c: ChunkShape, public_path: Seq<char>, runtime: CodeView) -> CodeView {
    let body = runtime_body(c.context.runtime_type, runtime);
    let datas = chunks_data_spec(c.context.output_root, c.other_chunks);
    let ids = runtime_ids_spec(c.evaluatable_assets);
    let text = bootstrap_text(public_path, datas, ids) + body.source_code;
    CodeView {
        source_code: if body.source_map.is_some() {
            text + "\n\n//# sourceMappingURL="@ + file_name_of(derived_ident(c).path) + ".map"@
        } else {
            text
        },
        source_map: body.source_map,
    }
}

/// The references one sibling's loader metadata declares, as reference
/// values, in order.
pub open spec fn out_refs(rs: Seq<Seq<char>>) -> Seq<RefView> {
    Seq::new(rs.len(), |i: int| RefView::Output(rs[i]))
}

/// The views of a vector of references, in order.
pub open spec fn refs_view(v: Seq<ChunkReference>) -> Seq<RefView> {
    Seq::new(v.len(), |i: int| v[i]@)
}

/// The references a chunk declares given its loader metadata: every
/// reference each sibling's metadata declares, in order.
pub open spec fn data_refs(datas: Seq<ChunkDataView>) -> Seq<RefView>
    decreases datas.len(),
{
    if datas.len() == 0 {
        Seq::empty()
    } else {
        data_refs(datas.drop_last()) + out_refs(datas.last().references)
    }
}

/// All references of a chunk.
pub open spec fn references_spec(c: ChunkShape) -> Seq<RefView> {
    (if c.context.reference_chunk_source_maps { seq![RefView::SourceMapAsset] } else {
        Seq::<RefView>::empty()
    }) + data_refs(chunks_data_spec(c.context.output_root, c.other_chunks))
}

impl DevChunkingContext {
    /// The path a chunk for `ident` with `extension` is placed at: the
    /// identity's output name under this context's chunk directory.
    pub fn chunk_path(&self, ident: &AssetIdent, extension: &str) -> (r: String)
        ensures
            r@ == chunk_path_spec(self@, ident@, extension@),
    {
        let name = ident.output_name(self.context_path.as_str(), extension);
        if self.chunk_root_path.as_str().unicode_len() == 0 {
            name
        } else {
            let mut p = self.chunk_root_path.clone();
            p.append("/");
            p.append(name.as_str());
            proof {
                reveal_strlit("/");
                assert(p@ =~= chunk_path_spec(self@, ident@, extension@));
            }
            p
        }
    }
}

/// Copies of the strings of a vector; the views are unchanged.
fn clone_strings(v: &Vec<String>) -> (r: Vec<String>)
    ensures
        strings_view(r@) == strings_view(v@),
{
    let mut r: Vec<String> = Vec::new();
    let mut i: usize = 0;
    while i < v.len()
        invariant
            i <= v.len(),
            r@.len() == i,
            forall|j: int| 0 <= j < i ==> #[trigger] r@[j]@ == v@[j]@,
        decreases v.len() - i,
    {
        r.push(v[i].clone());
        i = i + 1;
    }
    proof {
        assert(strings_view(r@) =~= strings_view(v@));
    }
    r
}

impl EcmascriptDevEvaluateChunk {
    /// Composes a chunk from a context, a base identity, the sibling
    /// chunks of its group and its evaluatable entries.
    pub fn new(
        chunking_context: DevChunkingContext,
        ident: AssetIdent,
        other_chunks: Vec<SiblingChunk>,
        evaluatable_assets: Vec<EvaluatableEntry>,
    ) -> (r: EcmascriptDevEvaluateChunk)
        ensures
            r@.context == chunking_context@,
            r@.ident == ident_view(ident),
            r@.other_chunks == Seq::new(other_chunks@.len(), |i: int| sibling_view(other_chunks@[i])),
            r@.evaluatable_assets == Seq::new(
                evaluatable_assets@.len(),
                |i: int| entry_view(evaluatable_assets@[i]),
            ),
    {
        let r = EcmascriptDevEvaluateChunk { chunking_context, ident, other_chunks, evaluatable_assets };
        proof {
            assert(r@.other_chunks =~= Seq::new(
                r.other_chunks@.len(),
                |i: int| sibling_view(r.other_chunks@[i]),
            ));
            assert(r@.evaluatable_assets =~= Seq::new(
                r.evaluatable_assets@.len(),
                |i: int| entry_view(r.evaluatable_assets@[i]),
            ));
        }
        r
    }

    /// The loader metadata of the sibling chunks that lie under the
    /// output root, in order.
    pub fn chunks_data(&self) -> (r: Vec<ChunkData>)
        ensures
            datas_view(r@) == chunks_data_spec(self@.context.output_root, self@.other_chunks),
    {
        let mut r: Vec<ChunkData> = Vec::new();
        let mut i: usize = 0;
        while i < self.other_chunks.len()
            invariant
                i <= self.other_chunks.len(),
                self@.other_chunks.len() == self.other_chunks@.len(),
                forall|j: int| 0 <= j < self.other_chunks@.len()
                    ==> #[trigger] self@.other_chunks[j] == sibling_view(self.other_chunks@[j]),
                datas_view(r@) == chunks_data_spec(
                    self@.context.output_root,
                    self@.other_chunks.subrange(0, i as int),
                ),
            decreases self.other_chunks.len() - i,
        {
            let rel = get_path_to(
                self.chunking_context.output_root.as_str(),
                self.other_chunks[i].ident.path.as_str(),
            );
            if let Some(path) = rel {
                let references = clone_strings(&self.other_chunks[i].references);
                r.push(ChunkData { path, references });
            }
            proof {
                let pre = self@.other_chunks.subrange(0, i as int);
                let cur = self@.other_chunks.subrange(0, i + 1);
                assert(cur.drop_last() =~= pre);
                assert(cur.last() == self@.other_chunks[i as int]);
                assert(datas_view(r@) =~= chunks_data_spec(self@.context.output_root, cur));
            }
            i = i + 1;
        }
        proof {
            assert(self@.other_chunks.subrange(0, self.other_chunks@.len() as int)
                =~= self@.other_chunks);
        }
        r
    }

    /// The module ids this chunk instantiates on load: one per entry
    /// with the chunk-item capability, in entry order. An entry without
    /// the capability contributes nothing and raises no error.
    pub fn runtime_module_ids(&self) -> (r: Vec<ModuleId>)
        ensures
            Seq::new(r@.len(), |i: int| r@[i]@) == runtime_ids_spec(self@.evaluatable_assets),
    {
        let mut r: Vec<ModuleId> = Vec::new();
        let mut i: usize = 0;
        while i < self.evaluatable_assets.len()
            invariant
                i <= self.evaluatable_assets.len(),
                self@.evaluatable_assets.len() == self.evaluatable_assets@.len(),
                forall|j: int| 0 <= j < self.evaluatable_assets@.len()
                    ==> #[trigger] self@.evaluatable_assets[j]
                        == entry_view(self.evaluatable_assets@[j]),
                Seq::new(r@.len(), |k: int| r@[k]@) == runtime_ids_spec(
                    self@.evaluatable_assets.subrange(0, i as int),
                ),
            decreases self.evaluatable_assets.len() - i,
        {
            if let Some(id) = &self.evaluatable_assets[i].chunk_item_id {
                r.push(id.clone());
            }
            proof {
                let pre = self@.evaluatable_assets.subrange(0, i as int);
                let cur = self@.evaluatable_assets.subrange(0, i + 1);
                assert(cur.drop_last() =~= pre);
                assert(cur.last() == self@.evaluatable_assets[i as int]);
                assert(Seq::new(r@.len(), |k: int| r@[k]@)
                    =~= runtime_ids_spec(cur));
            }
            i = i + 1;
        }
        proof {
            assert(self@.evaluatable_assets.subrange(0, self.evaluatable_assets@.len() as int)
                =~= self@.evaluatable_assets);
        }
        r
    }

    /// Derives this chunk's identity: the base identity plus the
    /// dev-evaluate-chunk tag and one modifier per entry and per sibling
    /// is used up to compute an output path, and the path alone is the
    /// identity of the artifact.
    pub fn ident(&self) -> (r: AssetIdent)
        ensures
            r@ == derived_ident(self@),
    {
        let ghost base = ident_view(self.ident);
        let mut id = self.ident.clone();
        id.add_modifier(modifier());
        proof {
            assert(id@.modifiers =~= base.modifiers + seq![evaluate_chunk_modifier()]
                + Seq::new(0nat, |k: int| ident_str(self@.evaluatable_assets[k].ident)));
            assert(id@ == (IdentView {
                modifiers: base.modifiers + seq![evaluate_chunk_modifier()]
                    + Seq::new(0nat, |k: int| ident_str(self@.evaluatable_assets[k].ident)),
                ..base
            }));
        }
        let mut i: usize = 0;
        while i < self.evaluatable_assets.len()
            invariant
                i <= self.evaluatable_assets.len(),
                self@.evaluatable_assets.len() == self.evaluatable_assets@.len(),
                forall|j: int| 0 <= j < self.evaluatable_assets@.len()
                    ==> #[trigger] self@.evaluatable_assets[j]
                        == entry_view(self.evaluatable_assets@[j]),
                id@ == (IdentView {
                    modifiers: base.modifiers + seq![evaluate_chunk_modifier()]
                        + Seq::new(i as nat, |k: int| ident_str(self@.evaluatable_assets[k].ident)),
                    ..base
                }),
            decreases self.evaluatable_assets.len() - i,
        {
            let s = self.evaluatable_assets[i].ident.to_string();
            id.add_modifier(s);
            proof {
                assert(id@.modifiers =~= base.modifiers + seq![evaluate_chunk_modifier()]
                    + Seq::new((i + 1) as nat, |k: int| ident_str(self@.evaluatable_assets[k].ident)));
            }
            i = i + 1;
        }
        let ghost entry_mods = Seq::new(
            self@.evaluatable_assets.len(),
            |k: int| ident_str(self@.evaluatable_assets[k].ident),
        );
        let mut c: usize = 0;
        while c < self.other_chunks.len()
            invariant
                c <= self.other_chunks.len(),
                self@.other_chunks.len() == self.other_chunks@.len(),
                forall|j: int| 0 <= j < self.other_chunks@.len()
                    ==> #[trigger] self@.other_chunks[j] == sibling_view(self.other_chunks@[j]),
                id@ == (IdentView {
                    modifiers: base.modifiers + seq![evaluate_chunk_modifier()] + entry_mods
                        + Seq::new(c as nat, |k: int| ident_str(self@.other_chunks[k].ident)),
                    ..base
                }),
            decreases self.other_chunks.len() - c,
        {
            let s = self.other_chunks[c].ident.to_string();
            id.add_modifier(s);
            proof {
                assert(id@.modifiers =~= base.modifiers + seq![evaluate_chunk_modifier()]
                    + entry_mods
                    + Seq::new((c + 1) as nat, |k: int| ident_str(self@.other_chunks[k].ident)));
            }
            c = c + 1;
        }
        let composite = AssetIdent::new(id);
        proof {
            assert(composite@.modifiers =~= composite_modifiers(self@));
            assert(composite@ == composite_ident(self@));
        }
        let path = self.chunking_context.chunk_path(&composite, ".js");
        let r = AssetIdent::from_path(path);
        proof {
            assert(r@ == derived_ident(self@));
        }
        r
    }

    /// Assembles this chunk's code: the bootstrap push of the public
    /// path, an empty reserved slot and the runtime parameters; the
    /// runtime body the context's flavor selects; and, when that body
    /// carries a source map, a trailing reference to the companion map
    /// file. Fails exactly when the chunk's path does not lie under the
    /// output root.
    pub fn code(&self, runtime_code: &Code) -> (r: Result<Code, ChunkError>)
        ensures
            match r {
                Ok(code) => public_path_spec(self@).is_some()
                    && code@ == code_spec(self@, public_path_spec(self@).unwrap(), runtime_code@),
                Err(e) => public_path_spec(self@).is_none()
                    && err_view(e) == (derived_ident(self@).path, self@.context.output_root),
            },
    {
        let derived = self.ident();
        let chunk_path = derived.path();
        let rel = get_path_to(self.chunking_context.output_root.as_str(), chunk_path.as_str());
        let public = match rel {
            Some(p) => p,
            None => {
                return Err(ChunkError::Configuration {
                    chunk_path,
                    output_root: self.chunking_context.output_root.clone(),
                });
            },
        };
        let datas = self.chunks_data();
        let ids = self.runtime_module_ids();
        let ghost datas_v = chunks_data_spec(self@.context.output_root, self@.other_chunks);
        let ghost ids_v = runtime_ids_spec(self@.evaluatable_assets);

        // The runtime parameter record.
        let mut params = String::from_str("{\"otherChunks\":[");
        let mut i: usize = 0;
        while i < datas.len()
            invariant
                i <= datas.len(),
                datas_view(datas@) == datas_v,
                datas@.len() == datas_v.len(),
                params@ == "{\"otherChunks\":["@
                    + json_list(Seq::new(i as nat, |k: int| json_string(datas_v[k].path))),
            decreases datas.len() - i,
        {
            if i > 0 {
                params.append(",");
            }
            let q = json_quote(datas[i].path.as_str());
            params.append(q.as_str());
            proof {
                reveal_strlit(",");
                assert(datas_v[i as int].path == datas@[i as int].path@);
                let pre = Seq::new(i as nat, |k: int| json_string(datas_v[k].path));
                let cur = Seq::new((i + 1) as nat, |k: int| json_string(datas_v[k].path));
                assert(cur.drop_last() =~= pre);
                assert(params@ =~= "{\"otherChunks\":["@ + json_list(cur));
            }
            i = i + 1;
        }
        proof {
            assert(Seq::new(datas_v.len(), |k: int| json_string(datas_v[k].path))
                =~= Seq::new(datas@.len() as nat, |k: int| json_string(datas_v[k].path)));
        }
        params.append("],\"runtimeModuleIds\":[");
        let mut j: usize = 0;
        while j < ids.len()
            invariant
                j <= ids.len(),
                Seq::new(ids@.len(), |k: int| ids@[k]@) == ids_v,
                ids@.len() == ids_v.len(),
                params@ == "{\"otherChunks\":["@
                    + json_list(Seq::new(datas_v.len(), |k: int| json_string(datas_v[k].path)))
                    + "],\"runtimeModuleIds\":["@
                    + json_list(Seq::new(j as nat, |k: int| id_json(ids_v[k]))),
            decreases ids.len() - j,
        {
            if j > 0 {
                params.append(",");
            }
            match &ids[j] {
                ModuleId::Number(n) => {
                    let d = u32_to_string(*n);
                    params.append(d.as_str());
                },
                ModuleId::Text(s) => {
                    let q = json_quote(s.as_str());
                    params.append(q.as_str());
                },
            }
            proof {
                reveal_strlit(",");
                assert(ids_v[j as int] == ids@[j as int]@);
                let pre = Seq::new(j as nat, |k: int| id_json(ids_v[k]));
                let cur = Seq::new((j + 1) as nat, |k: int| id_json(ids_v[k]));
                assert(cur.drop_last() =~= pre);
                assert(params@ =~= "{\"otherChunks\":["@
                    + json_list(Seq::new(datas_v.len(), |k: int| json_string(datas_v[k].path)))
                    + "],\"runtimeModuleIds\":["@ + json_list(cur));
            }
            j = j + 1;
        }
        params.append("]}");
        proof {
            assert(Seq::new(ids_v.len(), |k: int| id_json(ids_v[k]))
                =~= Seq::new(ids@.len() as nat, |k: int| id_json(ids_v[k])));
            assert(params@ =~= params_json(datas_v, ids_v));
        }

        // The bootstrap statement.
        let mut text = String::from_str("(globalThis.TURBOPACK = globalThis.TURBOPACK || []).push([\n    ");
        let pq = json_quote(public.as_str());
        text.append(pq.as_str());
        text.append(",\n    {},\n    ");
        text.append(params.as_str());
        text.append("\n]);\n");
        proof {
            assert(text@ =~= bootstrap_text(public@, datas_v, ids_v));
        }

        // The runtime body the context's flavor selects.
        let (body_text, body_map): (String, Option<String>) = match self.chunking_context.runtime_type {
            RuntimeType::Default => {
                let t = runtime_code.source_code.clone();
                let m = match &runtime_code.source_map {
                    Some(sm) => Some(sm.clone()),
                    None => None,
                };
                (t, m)
            },
            RuntimeType::Dummy => (String::from_str("// minimal runtime\n"), None),
        };
        text.append(body_text.as_str());

        // A trailing reference to the companion map file, when the body
        // carries a source map.
        let has_map = match &body_map {
            Some(_) => true,
            None => false,
        };
        if has_map {
            text.append("\n\n//# sourceMappingURL=");
            let fname = crate::text::file_name(chunk_path.as_str());
            text.append(fname.as_str());
            text.append(".map");
        }
        let code = Code { source_code: text, source_map: body_map };
        proof {
            let spec_code = code_spec(self@, public_path_spec(self@).unwrap(), runtime_code@);
            assert(code@.source_code =~= spec_code.source_code);
            assert(code@ == spec_code);
        }
        Ok(code)
    }

    /// This chunk's references: its companion source-map artifact when
    /// the context's policy asks for one, then every reference each
    /// sibling's loader metadata declares, in order.
    pub fn references(&self) -> (r: Vec<ChunkReference>)
        ensures
            refs_view(r@) == references_spec(self@),
    {
        let mut r: Vec<ChunkReference> = Vec::new();
        if self.chunking_context.reference_chunk_source_maps {
            r.push(ChunkReference::SourceMapAsset);
        }
        let ghost head = if self@.context.reference_chunk_source_maps {
            seq![RefView::SourceMapAsset]
        } else {
            Seq::<RefView>::empty()
        };
        let datas = self.chunks_data();
        let ghost datas_v = chunks_data_spec(self@.context.output_root, self@.other_chunks);
        proof {
            assert(refs_view(r@) =~= head + data_refs(datas_v.subrange(0, 0)));
        }
        let mut i: usize = 0;
        while i < datas.len()
            invariant
                i <= datas.len(),
                datas_view(datas@) == datas_v,
                datas@.len() == datas_v.len(),
                refs_view(r@) == head + data_refs(datas_v.subrange(0, i as int)),
            decreases datas.len() - i,
        {
            let refs = &datas[i].references;
            proof {
                assert(datas_v[i as int] == datas_view(datas@)[i as int]);
                assert(datas_v[i as int].references =~= strings_view(datas@[i as int].references@));
                assert(out_refs(datas_v[i as int].references).take(0)
                    =~= Seq::<RefView>::empty());
            }
            let mut k: usize = 0;
            while k < refs.len()
                invariant
                    k <= refs.len(),
                    i < datas.len(),
                    datas_view(datas@) == datas_v,
                    datas@.len() == datas_v.len(),
                    refs@ == datas@[i as int].references@,
                    datas_v[i as int].references == strings_view(datas@[i as int].references@),
                    refs_view(r@) == head + data_refs(datas_v.subrange(0, i as int))
                        + out_refs(datas_v[i as int].references).take(k as int),
                decreases refs.len() - k,
            {
                let ghost r0 = r@;
                r.push(ChunkReference::Output(refs[k].clone()));
                proof {
                    let rr = datas_v[i as int].references;
                    assert(refs_view(r@) =~= refs_view(r0).push(r@[r0.len() as int]@));
                    assert(r@[r0.len() as int]@ == RefView::Output(rr[k as int]));
                    assert(out_refs(rr).take(k + 1) =~= out_refs(rr).take(k as int).push(out_refs(rr)[k as int]));
                    assert(refs_view(r@) =~= head + data_refs(datas_v.subrange(0, i as int))
                        + out_refs(rr).take(k + 1));
                }
                k = k + 1;
            }
            proof {
                let rr = datas_v[i as int].references;
                let pre = datas_v.subrange(0, i as int);
                let cur = datas_v.subrange(0, i + 1);
                assert(cur.drop_last() =~= pre);
                assert(cur.last() == datas_v[i as int]);
                assert(out_refs(rr).take(refs@.len() as int) =~= out_refs(rr));
                assert(refs_view(r@) =~= head + data_refs(cur));
            }
            i = i + 1;
        }
        proof {
            assert(datas_v.subrange(0, datas@.len() as int) =~= datas_v);
        }
        r
    }

    /// The bytes of this chunk's output file: its assembled code's text.
    pub fn content(&self, runtime_code: &Code) -> (r: Result<String, ChunkError>)
        ensures
            match r {
                Ok(text) => public_path_spec(self@).is_some()
                    && text@ == code_spec(self@, public_path_spec(self@).unwrap(), runtime_code@).source_code,
                Err(e) => public_path_spec(self@).is_none()
                    && err_view(e) == (derived_ident(self@).path, self@.context.output_root),
            },
    {
        match self.code(runtime_code) {
            Ok(code) => Ok(code.source_code),
            Err(e) => Err(e),
        }
    }

    /// This chunk's source map: its assembled code's own, passed
    /// through, never re-derived.
    pub fn generate_source_map(&self, runtime_code: &Code) -> (r: Result<Option<String>, ChunkError>)
        ensures
            match r {
                Ok(m) => public_path_spec(self@).is_some()
                    && (match m {
                        Some(sm) => code_spec(self@, public_path_spec(self@).unwrap(), runtime_code@)
                            .source_map == Some(sm@),
                        None => code_spec(self@, public_path_spec(self@).unwrap(), runtime_code@)
                            .source_map.is_none(),
                    }),
                Err(e) => public_path_spec(self@).is_none()
                    && err_view(e) == (derived_ident(self@).path, self@.context.output_root),
            },
    {
        match self.code(runtime_code) {
            Ok(code) => Ok(code.source_map),
            Err(e) => Err(e),
        }
    }

    /// A short human-readable tag naming this artifact kind.
    pub fn to_string(&self) -> (r: String)
        ensures
            r@ == "Ecmascript Dev Evaluate Chunk"@,
    {
        String::from_str("Ecmascript Dev Evaluate Chunk")
    }
}

/// The chunk path and output root an error reports.
pub open spec fn err_view(e: ChunkError) -> (Seq<char>, Seq<char>) {
    match e {
        ChunkError::Configuration { chunk_path, output_root } => (chunk_path@, output_root@),
    }
}

/// The modifier that tags a derived identity as a dev evaluate chunk.
fn modifier() -> (r: String)
    ensures
        r@ == evaluate_chunk_modifier(),
{
    String::from_str("ecmascript dev evaluate chunk")
}

} // verus!
