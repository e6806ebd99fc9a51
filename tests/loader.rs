use rspack_core_graph::loader::{
    data_uri_module, default_export_module, find_extension, guess_mime_types_ext, null_module,
    Loader, LoaderDispatcherPlugin, LoaderInterpreterPlugin, TransformError, PLUGIN_NAME,
};
use rspack_core_graph::runtime_module::OnChunkLoadedRuntimeModule;

fn dispatcher() -> LoaderDispatcherPlugin {
    LoaderDispatcherPlugin {
        options: vec![
            ("png".to_string(), Loader::DataURI),
            ("json".to_string(), Loader::Json),
            ("txt".to_string(), Loader::Text),
            ("bin".to_string(), Loader::Null),
        ],
    }
}

#[test]
fn dispatcher_picks_loader_by_extension() {
    let d = dispatcher();
    assert_eq!(d.load("src/logo.png").unwrap().loader, Some(Loader::DataURI));
    assert_eq!(d.load("data.json").unwrap().loader, Some(Loader::Json));
    assert_eq!(d.load("blob.bin").unwrap().loader, Some(Loader::Null));
    assert_eq!(d.load("a/b.c/readme.txt").unwrap().loader, Some(Loader::Text));
    assert!(d.load("data.json").unwrap().content.is_none());
    assert_eq!(d.load("assets/logo.png/").unwrap().loader, Some(Loader::DataURI));
}

#[test]
fn dispatcher_without_match_is_no_loader() {
    let d = dispatcher();
    assert!(d.load("index.ts").is_none());
    assert!(d.load("Makefile").is_none());
    assert!(d.load("dir.png/file").is_none());
    assert!(d.load(".png").is_none());
    assert!(d.load("a/..").is_none());
}

#[test]
fn extension_positions() {
    assert_eq!(find_extension("a/b.tar.gz"), Some((8, 10)));
    assert_eq!(find_extension("a/b."), Some((4, 4)));
    assert_eq!(find_extension(".gitignore"), None);
    assert_eq!(find_extension("x/.env.local"), Some((7, 12)));
    assert_eq!(find_extension(""), None);
    assert_eq!(find_extension("a.b/"), Some((2, 3)));
    assert_eq!(find_extension("a/b.c/."), Some((4, 5)));
    assert_eq!(find_extension("a/b.c//./"), Some((4, 5)));
    assert_eq!(find_extension("."), None);
    assert_eq!(find_extension("a/../"), None);
}

#[test]
fn mime_types() {
    assert_eq!(guess_mime_types_ext(b"a.png", 2, 5), "image/png");
    assert_eq!(guess_mime_types_ext(b"a.jpeg", 2, 6), "image/jpeg");
    assert_eq!(guess_mime_types_ext(b"a.jpg", 2, 5), "image/jpeg");
    assert_eq!(guess_mime_types_ext(b"a.svg", 2, 5), "image/svg+xml");
    assert_eq!(guess_mime_types_ext(b"a.bin", 2, 5), "application/octet-stream");
}

#[test]
fn data_uri_asset_becomes_module() {
    let mut loader = Loader::DataURI;
    let out = LoaderInterpreterPlugin.transform_raw("img/logo.png", &mut loader, "abc".to_string());
    assert_eq!(
        out.unwrap(),
        "var img = \"data:image/png;base64,YWJj\";\n          export default img;"
    );
    assert_eq!(loader, Loader::Js);
}

#[test]
fn data_uri_path_with_trailing_separator() {
    let mut loader = Loader::DataURI;
    let out = LoaderInterpreterPlugin.transform_raw("img/logo.gif/", &mut loader, "abc".to_string());
    assert_eq!(
        out.unwrap(),
        "var img = \"data:image/gif;base64,YWJj\";\n          export default img;"
    );
    assert_eq!(loader, Loader::Js);
}

#[test]
fn data_uri_without_extension_is_refused() {
    let mut loader = Loader::DataURI;
    let out = LoaderInterpreterPlugin.transform_raw("img/logo", &mut loader, "abc".to_string());
    assert_eq!(out, Err(TransformError::MissingExtension));
    assert_eq!(loader, Loader::DataURI);
}

#[test]
fn json_asset_becomes_module() {
    let mut loader = Loader::Json;
    let out = LoaderInterpreterPlugin.transform_raw("a.json", &mut loader, "{\"a\":1}".to_string());
    assert_eq!(out.unwrap(), "\n          export default {\"a\":1}\n          ");
    assert_eq!(loader, Loader::Js);
}

#[test]
fn text_asset_is_quoted() {
    let mut loader = Loader::Text;
    let out = LoaderInterpreterPlugin.transform_raw("a.txt", &mut loader, "say \"hi\"\n".to_string());
    assert_eq!(out.unwrap(), "\n          export default \"say \\\"hi\\\"\\n\"\n          ");
    assert_eq!(loader, Loader::Js);
}

#[test]
fn null_asset_exports_empty_object() {
    let mut loader = Loader::Null;
    let out = LoaderInterpreterPlugin.transform_raw("a.bin", &mut loader, "ignored".to_string());
    assert_eq!(out.unwrap(), "\n        export default {}\n        ");
    assert_eq!(null_module(), "\n        export default {}\n        ");
    assert_eq!(loader, Loader::Js);
}

#[test]
fn other_loaders_keep_content() {
    let mut loader = Loader::Ts;
    let out = LoaderInterpreterPlugin.transform_raw("a.ts", &mut loader, "let a = 1;".to_string());
    assert_eq!(out.unwrap(), "let a = 1;");
    assert_eq!(loader, Loader::Ts);
}

#[test]
fn module_text_builders() {
    assert_eq!(
        data_uri_module("image/gif", "R0lG"),
        "var img = \"data:image/gif;base64,R0lG\";\n          export default img;"
    );
    assert_eq!(default_export_module("1"), "\n          export default 1\n          ");
}

#[test]
fn plugin_names() {
    assert_eq!(LoaderInterpreterPlugin.name(), "rspack_loader_plugin");
    assert_eq!(PLUGIN_NAME, "rspack_loader_plugin");
    assert_eq!(dispatcher().name(), "rspack_loader_dispatcher");
}

#[test]
fn runtime_module_default_name() {
    assert_eq!(OnChunkLoadedRuntimeModule::default().name(), "webpack/runtime/on_chunk_loaded");
}
