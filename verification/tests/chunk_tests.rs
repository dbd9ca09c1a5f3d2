use chunk_ident::ident::AssetIdent;
use chunk_ident::chunk::{
    Code, ChunkError, ChunkReference, DevChunkingContext, EcmascriptDevEvaluateChunk,
    EvaluatableEntry, ModuleId, RuntimeType, SiblingChunk,
};

fn ident(path: &str) -> AssetIdent {
    AssetIdent::from_path(path.to_string())
}

fn context(runtime_type: RuntimeType, reference_chunk_source_maps: bool) -> DevChunkingContext {
    DevChunkingContext {
        context_path: "".to_string(),
        output_root: "out".to_string(),
        chunk_root_path: "out/chunks".to_string(),
        chunk_base_path: "".to_string(),
        environment: "browser".to_string(),
        runtime_type,
        reference_chunk_source_maps,
    }
}

fn sample_chunk(base_path: &str, runtime_type: RuntimeType) -> EcmascriptDevEvaluateChunk {
    EcmascriptDevEvaluateChunk::new(
        context(runtime_type, false),
        ident(base_path),
        vec![SiblingChunk {
            ident: ident("out/chunks/other.js"),
            references: vec!["out/extra.js".to_string()],
        }],
        vec![
            EvaluatableEntry {
                ident: ident("project/entry.js"),
                chunk_item_id: Some(ModuleId::Number(1)),
            },
            EvaluatableEntry { ident: ident("project/skip.js"), chunk_item_id: None },
        ],
    )
}

#[test]
fn derived_ident_is_deterministic() {
    let chunk = sample_chunk("project/main.js", RuntimeType::Dummy);
    let a = chunk.ident();
    let b = chunk.ident();
    assert_eq!(a.path(), b.path());
    assert_eq!(a.path(), "out/chunks/project_main_1d5bfa.js");
    assert_eq!(a.query(), "");
}

#[test]
fn derived_ident_differs_for_different_bases() {
    let a = sample_chunk("project/main.js", RuntimeType::Dummy).ident();
    let b = sample_chunk("project/other.js", RuntimeType::Dummy).ident();
    assert_eq!(a.path(), "out/chunks/project_main_1d5bfa.js");
    assert_eq!(b.path(), "out/chunks/project_other_1d5bfa.js");
    assert_ne!(a.path(), b.path());
}

#[test]
fn code_assembles_bootstrap_and_stub_runtime() {
    let chunk = sample_chunk("project/main.js", RuntimeType::Dummy);
    let runtime = Code { source_code: "UNUSED".to_string(), source_map: None };
    let code = chunk.code(&runtime).unwrap();
    let expected = "(globalThis.TURBOPACK = globalThis.TURBOPACK || []).push([\n    \"chunks/project_main_1d5bfa.js\",\n    {},\n    {\"otherChunks\":[\"chunks/other.js\"],\"runtimeModuleIds\":[1]}\n]);\n// minimal runtime\n";
    assert_eq!(code.source_code, expected);
    assert!(code.source_map.is_none());
}

#[test]
fn code_appends_supplied_runtime_body() {
    let chunk = sample_chunk("project/main.js", RuntimeType::Default);
    let runtime = Code { source_code: "RUNTIME".to_string(), source_map: None };
    let code = chunk.code(&runtime).unwrap();
    assert!(code.source_code.ends_with("]);\nRUNTIME"));
    assert!(!code.source_code.contains("sourceMappingURL"));
}

#[test]
fn code_references_companion_map_when_body_has_one() {
    let chunk = sample_chunk("project/main.js", RuntimeType::Default);
    let runtime = Code { source_code: "RUNTIME".to_string(), source_map: Some("MAP".to_string()) };
    let code = chunk.code(&runtime).unwrap();
    assert!(code.source_code.ends_with(
        "RUNTIME\n\n//# sourceMappingURL=project_main_1d5bfa.js.map"
    ));
    assert_eq!(code.source_map, Some("MAP".to_string()));
    let map = chunk.generate_source_map(&runtime).unwrap();
    assert_eq!(map, Some("MAP".to_string()));
}

#[test]
fn entry_without_capability_is_silently_skipped() {
    let chunk = sample_chunk("project/main.js", RuntimeType::Dummy);
    let ids = chunk.runtime_module_ids();
    assert_eq!(ids.len(), 1);
    assert!(matches!(ids[0], ModuleId::Number(1)));
    let runtime = Code { source_code: "".to_string(), source_map: None };
    let code = chunk.code(&runtime).unwrap();
    assert!(code.source_code.contains("\"runtimeModuleIds\":[1]"));
    assert!(!code.source_code.contains("skip"));
}

#[test]
fn text_module_id_serializes_as_json_string() {
    let mut chunk = sample_chunk("project/main.js", RuntimeType::Dummy);
    chunk.evaluatable_assets.push(EvaluatableEntry {
        ident: ident("project/extra.js"),
        chunk_item_id: Some(ModuleId::Text("mod-a".to_string())),
    });
    let runtime = Code { source_code: "".to_string(), source_map: None };
    let code = chunk.code(&runtime).unwrap();
    assert!(code.source_code.contains("\"runtimeModuleIds\":[1,\"mod-a\"]"));
}

#[test]
fn chunk_outside_output_root_is_a_configuration_error() {
    let mut chunk = sample_chunk("project/main.js", RuntimeType::Dummy);
    chunk.chunking_context.chunk_root_path = "elsewhere".to_string();
    let runtime = Code { source_code: "".to_string(), source_map: None };
    let err = chunk.code(&runtime).unwrap_err();
    let ChunkError::Configuration { chunk_path, output_root } = err;
    assert_eq!(chunk_path, "elsewhere/project_main_1d5bfa.js");
    assert_eq!(output_root, "out");
    assert!(chunk.content(&runtime).is_err());
}

#[test]
fn chunks_data_keeps_only_siblings_under_output_root() {
    let mut chunk = sample_chunk("project/main.js", RuntimeType::Dummy);
    chunk.other_chunks.push(SiblingChunk {
        ident: ident("outside/foreign.js"),
        references: vec![],
    });
    let datas = chunk.chunks_data();
    assert_eq!(datas.len(), 1);
    assert_eq!(datas[0].path, "chunks/other.js");
    assert_eq!(datas[0].references, vec!["out/extra.js".to_string()]);
}

#[test]
fn references_list_source_map_then_sibling_references() {
    let mut chunk = sample_chunk("project/main.js", RuntimeType::Dummy);
    chunk.chunking_context.reference_chunk_source_maps = true;
    let refs = chunk.references();
    assert_eq!(refs.len(), 2);
    assert!(matches!(refs[0], ChunkReference::SourceMapAsset));
    match &refs[1] {
        ChunkReference::Output(p) => assert_eq!(p, "out/extra.js"),
        _ => panic!("expected an output reference"),
    }
}

#[test]
fn references_without_source_map_policy() {
    let chunk = sample_chunk("project/main.js", RuntimeType::Dummy);
    let refs = chunk.references();
    assert_eq!(refs.len(), 1);
    match &refs[0] {
        ChunkReference::Output(p) => assert_eq!(p, "out/extra.js"),
        _ => panic!("expected an output reference"),
    }
}

#[test]
fn content_is_the_code_text() {
    let chunk = sample_chunk("project/main.js", RuntimeType::Dummy);
    let runtime = Code { source_code: "".to_string(), source_map: None };
    let content = chunk.content(&runtime).unwrap();
    let code = chunk.code(&runtime).unwrap();
    assert_eq!(content, code.source_code);
}

#[test]
fn chunk_names_itself() {
    let chunk = sample_chunk("project/main.js", RuntimeType::Dummy);
    assert_eq!(chunk.to_string(), "Ecmascript Dev Evaluate Chunk");
}
