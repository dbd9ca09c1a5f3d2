use chunk_ident::ident::{AssetIdent, ModulePart};
use chunk_ident::name::{clean_separators, clean_additional_extensions};
use chunk_ident::hash::encode_hex;
use chunk_ident::text::{u32_to_string, file_name, get_path_to};
use chunk_ident::json::json_quote;

fn ident(path: &str) -> AssetIdent {
    AssetIdent::from_path(path.to_string())
}

#[test]
fn from_path_defaults() {
    let i = ident("app/index.js");
    assert_eq!(i.path(), "app/index.js");
    assert_eq!(i.query(), "");
    assert_eq!(i.to_string(), "app/index.js");
}

#[test]
fn to_string_renders_fixed_order() {
    let a = ident("a.js")
        .with_query("q".to_string())
        .with_layer("client".to_string())
        .with_part(ModulePart::Export("x".to_string()));
    let b = ident("a.js")
        .with_part(ModulePart::Export("x".to_string()))
        .with_layer("client".to_string())
        .with_query("q".to_string());
    assert_eq!(a.to_string(), "a.js?q [client] {export x}");
    assert_eq!(b.to_string(), "a.js?q [client] {export x}");
    assert_eq!(a.to_string(), b.to_string());
}

#[test]
fn to_string_renders_all_segments() {
    let mut i = ident("p.js");
    i = i.with_query("q".to_string());
    i.fragment = Some("f".to_string());
    i.add_asset("k".to_string(), ident("n.js"));
    i.add_modifier("m1".to_string());
    i.add_modifier("m2".to_string());
    i = i.with_layer("l".to_string());
    i = i.with_part(ModulePart::Internal(5));
    assert_eq!(i.to_string(), "p.js?q#f/(k)/n.js [l] (m1, m2) {internal part 5}");
}

#[test]
fn with_updates_are_functional() {
    let base = ident("a.js");
    let derived = base.with_query("q".to_string());
    assert_eq!(base.to_string(), "a.js");
    assert_eq!(derived.to_string(), "a.js?q");
}

#[test]
fn rename_as_expands_star() {
    let i = ident("app/idx");
    let r = i.rename_as("static/*");
    assert_eq!(r.path(), "static/app/idx");
    let mut m = ident("app/idx");
    m.rename_as_ref("static/*");
    assert_eq!(m.path(), "static/app/idx");
}

#[test]
fn clean_separators_replaces_slashes() {
    assert_eq!(clean_separators("a/b/c"), "a_b_c");
    assert_eq!(clean_separators("abc"), "abc");
}

#[test]
fn clean_additional_extensions_replaces_dots() {
    assert_eq!(clean_additional_extensions(".hidden.env"), "_hidden_env");
    assert_eq!(clean_additional_extensions("plain"), "plain");
}

#[test]
fn encode_hex_renders_sixteen_digits() {
    assert_eq!(encode_hex(0), "0000000000000000");
    assert_eq!(encode_hex(0xcbf29ce484222325), "cbf29ce484222325");
    assert_eq!(encode_hex(15), "000000000000000f");
}

#[test]
fn u32_to_string_renders_decimal() {
    assert_eq!(u32_to_string(0), "0");
    assert_eq!(u32_to_string(7), "7");
    assert_eq!(u32_to_string(1234567890), "1234567890");
}

#[test]
fn file_name_takes_last_component() {
    assert_eq!(file_name("a/b/c.js"), "c.js");
    assert_eq!(file_name("abc"), "abc");
    assert_eq!(file_name("dir/"), "");
}

#[test]
fn json_quote_escapes() {
    assert_eq!(json_quote("plain"), "\"plain\"");
    assert_eq!(json_quote("a\"b\\c\n"), "\"a\\\"b\\\\c\\n\"");
    assert_eq!(json_quote("\r\t"), "\"\\r\\t\"");
    assert_eq!(json_quote("\u{1}\u{1f}"), "\"\\u0001\\u001f\"");
    assert_eq!(json_quote("\u{7f}"), "\"\u{7f}\"");
}

#[test]
fn get_path_to_computes_relative() {
    assert_eq!(get_path_to("a", "a/b"), Some("b".to_string()));
    assert_eq!(get_path_to("a", "ab"), None);
    assert_eq!(get_path_to("", "x/y"), Some("x/y".to_string()));
    assert_eq!(get_path_to("a", "a"), None);
    assert_eq!(get_path_to("a/b", "a/b/c/d"), Some("c/d".to_string()));
}

#[test]
fn no_fields_no_hash_suffix() {
    let i = ident("app/index.js");
    assert_eq!(i.output_name("", ".js"), "app_index.js");
}

#[test]
fn default_modifier_alone_no_hash_suffix() {
    let i = ident("app/index.js").with_modifier("ecmascript".to_string());
    assert_eq!(i.output_name("", ".js"), "app_index.js");
}

#[test]
fn each_field_changes_the_name() {
    let base = ident("src/lib.js");
    let with_query = ident("src/lib.js").with_query("foo".to_string());
    let mut with_fragment = ident("src/lib.js");
    with_fragment.fragment = Some("frag".to_string());
    let mut with_asset = ident("src/lib.js");
    with_asset.add_asset("styles".to_string(), ident("src/a.css"));
    let with_modifier = ident("src/lib.js").with_modifier("client chunks".to_string());
    let with_layer = ident("src/lib.js").with_layer("client".to_string());

    assert_eq!(base.output_name("", ".js"), "src_lib.js");
    assert_eq!(with_query.output_name("", ".js"), "src_lib_dd0d80.js");
    assert_eq!(with_fragment.output_name("", ".js"), "src_lib_b043d2.js");
    assert_eq!(with_asset.output_name("", ".js"), "src_lib_f1ac13.js");
    assert_eq!(with_modifier.output_name("", ".js"), "src_lib_b19c3a.js");
    assert_eq!(with_layer.output_name("", ".js"), "src_lib_71f23a.js");

    let names = vec![
        base.output_name("", ".js"),
        with_query.output_name("", ".js"),
        with_fragment.output_name("", ".js"),
        with_asset.output_name("", ".js"),
        with_modifier.output_name("", ".js"),
        with_layer.output_name("", ".js"),
    ];
    for a in 0..names.len() {
        for b in 0..names.len() {
            if a != b {
                assert_ne!(names[a], names[b]);
            }
        }
    }
}

#[test]
fn fragment_and_layer_hash_differently() {
    let mut with_fragment = ident("src/lib.js");
    with_fragment.fragment = Some("x".to_string());
    let with_layer = ident("src/lib.js").with_layer("x".to_string());
    assert_eq!(with_fragment.output_name("", ".js"), "src_lib_d0a695.js");
    assert_eq!(with_layer.output_name("", ".js"), "src_lib_ae00e9.js");
    assert_ne!(
        with_fragment.output_name("", ".js"),
        with_layer.output_name("", ".js"),
    );
}

#[test]
fn export_and_renamed_export_hash_differently() {
    let e = ident("src/lib.js").with_part(ModulePart::Export("x".to_string()));
    let r = ident("src/lib.js").with_part(ModulePart::RenamedExport {
        original_export: "x".to_string(),
        export: "x".to_string(),
    });
    assert_eq!(e.output_name("", ".js"), "src_lib_bbe4e2.js");
    assert_eq!(r.output_name("", ".js"), "src_lib_9a2a28.js");
    assert_ne!(e.output_name("", ".js"), r.output_name("", ".js"));
}

#[test]
fn long_name_is_bounded_and_deterministic() {
    let long: String = ["a"; 100].concat();
    let i = ident(&format!("{}.js", long));
    let n1 = i.output_name("", ".js");
    let n2 = i.output_name("", ".js");
    assert_eq!(n1, n2);
    assert_eq!(
        n1,
        format!("d203d_{}.js", ["a"; 80].concat()),
    );
    assert!(n1.len() <= 80 + 6 + 3);
}

#[test]
fn length_cut_stays_put_without_a_word_boundary() {
    let i = ident(&format!("{}/{}.js", ["a"; 10].concat(), ["b"; 85].concat()));
    assert_eq!(
        i.output_name("", ".js"),
        format!("9341c_{}.js", ["b"; 80].concat()),
    );
}

#[test]
fn length_cut_advances_past_a_nearby_underscore() {
    let i = ident(&format!("{}/{}.js", ["a"; 20].concat(), ["b"; 75].concat()));
    assert_eq!(
        i.output_name("", ".js"),
        format!("17d80_{}.js", ["b"; 75].concat()),
    );
}

#[test]
fn split_lands_after_last_node_modules_marker() {
    let tail: String = ["v"; 40].concat();
    let i = ident(&format!("a_node_modules_b_node_modules_{}.js", tail));
    assert_eq!(i.output_name("", ".js"), format!("e0c13_{}.js", tail));
}

#[test]
fn foreign_extension_gets_marker() {
    let json = ident("data.json");
    assert_eq!(json.output_name("", ".js"), "data_json._.js");
    let js = ident("app.js");
    assert_eq!(js.output_name("", ".js"), "app.js");
    assert!(!js.output_name("", ".js").contains("._"));
}

#[test]
fn path_outside_root_uses_full_path() {
    let i = ident("lib/x.js");
    assert_eq!(i.output_name("other", ".js"), "lib_x.js");
}
