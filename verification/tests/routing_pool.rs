use mcp_bridge::errors::BridgeError;
use mcp_bridge::json::Json;
use mcp_bridge::pool::{extension_of, normalize_uri, LanguageServerPool};

fn pool() -> LanguageServerPool {
    LanguageServerPool::new(Some("default-server".to_string()), "/work".to_string(), None)
}

fn pool_without_default() -> LanguageServerPool {
    LanguageServerPool::new(None, "/work".to_string(), None)
}

#[test]
fn normalization_keeps_file_uris() {
    assert_eq!(normalize_uri("file:///tmp/a.rs", "/work"), "file:///tmp/a.rs");
}

#[test]
fn normalization_prefixes_absolute_paths() {
    assert_eq!(normalize_uri("/tmp/a.rs", "/work"), "file:///tmp/a.rs");
}

#[test]
fn normalization_resolves_relative_paths() {
    assert_eq!(normalize_uri("a.rs", "/work"), "file:///work/a.rs");
}

#[test]
fn normalization_is_idempotent_on_samples() {
    for raw in ["file:///tmp/a.rs", "/tmp/a.rs", "src/lib.rs"] {
        let once = normalize_uri(raw, "/work");
        let twice = normalize_uri(once.as_str(), "/work");
        assert_eq!(once, twice);
    }
}

#[test]
fn extension_is_the_lower_cased_last_suffix() {
    assert_eq!(extension_of("file:///tmp/a.RS"), Some("rs".to_string()));
    assert_eq!(extension_of("/x/y/b.tar.gz"), Some("gz".to_string()));
    assert_eq!(extension_of("/x/no_extension"), None);
}

#[test]
fn explicit_override_wins() {
    let p = pool();
    let cmd = p
        .resolve_command(Some("my-server --stdio"), Some("file:///a.py"), Some("rust"))
        .unwrap();
    assert_eq!(cmd, "my-server --stdio");
}

#[test]
fn document_owner_beats_language() {
    let mut p = pool();
    p.associate_document("file:///a.py", "owner-server");
    let cmd = p
        .resolve_command(None, Some("file:///a.py"), Some("rust"))
        .unwrap();
    assert_eq!(cmd, "owner-server");
}

#[test]
fn language_beats_extension() {
    let p = pool();
    let cmd = p
        .resolve_command(None, Some("file:///a.py"), Some("rust"))
        .unwrap();
    assert_eq!(cmd, "rust-analyzer");
}

#[test]
fn extension_beats_default() {
    let p = pool();
    let cmd = p.resolve_command(None, Some("file:///a.py"), None).unwrap();
    assert_eq!(cmd, "pylsp");
}

#[test]
fn default_is_the_last_resort() {
    let p = pool();
    let cmd = p.resolve_command(None, Some("file:///a.unknown"), None).unwrap();
    assert_eq!(cmd, "default-server");
}

#[test]
fn no_source_at_all_is_an_error() {
    let p = pool_without_default();
    match p.resolve_command(None, Some("file:///a.unknown"), None) {
        Err(BridgeError::NoServerRegistered(msg)) => {
            assert!(msg.contains("No language server registered"));
        },
        other => panic!("expected a no-server error, got {:?}", other),
    }
}

#[test]
fn open_adds_exactly_one_association() {
    let mut p = pool();
    assert!(!p.has_document("file:///a.py"));
    p.associate_document("file:///a.py", "pylsp");
    assert!(p.has_document("file:///a.py"));
    assert_eq!(p.doc_servers.len(), 1);
    p.associate_document("file:///a.py", "pylsp");
    assert_eq!(p.doc_servers.len(), 1);
}

#[test]
fn close_removes_the_association() {
    let mut p = pool();
    p.associate_document("file:///a.py", "pylsp");
    p.release_document("file:///a.py");
    assert!(!p.has_document("file:///a.py"));
}

#[test]
fn close_leaves_other_documents_alone() {
    let mut p = pool();
    p.associate_document("file:///a.py", "pylsp");
    p.associate_document("file:///b.rs", "rust-analyzer");
    p.release_document("file:///a.py");
    assert!(!p.has_document("file:///a.py"));
    assert!(p.has_document("file:///b.rs"));
}

#[test]
fn overrides_extend_the_tables() {
    let overrides = Json::Obj(vec![
        (
            "languages".to_string(),
            Json::Obj(vec![("froz".to_string(), Json::Str("froz-ls --stdio".to_string()))]),
        ),
        ("ext:fz".to_string(), Json::Str("froz-ls --stdio".to_string())),
        (".qx".to_string(), Json::Str("qx-ls".to_string())),
        ("lang:brand".to_string(), Json::Str("brand-ls".to_string())),
    ]);
    let p = LanguageServerPool::new(None, "/work".to_string(), Some(&overrides));
    assert_eq!(p.resolve_command(None, None, Some("froz")).unwrap(), "froz-ls --stdio");
    assert_eq!(p.resolve_command(None, Some("/a.fz"), None).unwrap(), "froz-ls --stdio");
    assert_eq!(p.resolve_command(None, Some("/a.qx"), None).unwrap(), "qx-ls");
    assert_eq!(p.resolve_command(None, None, Some("BRAND")).unwrap(), "brand-ls");
}

#[test]
fn built_in_languages_are_routed() {
    let p = pool_without_default();
    assert_eq!(p.resolve_command(None, None, Some("python")).unwrap(), "pylsp");
    assert_eq!(p.resolve_command(None, None, Some("go")).unwrap(), "gopls");
    assert_eq!(
        p.resolve_command(None, None, Some("typescript")).unwrap(),
        "typescript-language-server --stdio"
    );
}

#[test]
fn oversized_documents_are_refused() {
    let p = pool();
    let three_mib: u64 = 3 * 1024 * 1024;
    match p.build_did_open_params("/tmp/big.py", None, three_mib, "") {
        Err(BridgeError::DocumentTooLarge(msg)) => {
            assert!(msg.contains("2 MiB"));
            assert!(msg.contains("3145728 bytes"));
        },
        other => panic!("expected the size refusal, got {:?}", other),
    }
}

#[test]
fn synthesized_open_carries_language_and_version() {
    let p = pool();
    let params = p
        .build_did_open_params("/tmp/b.py", None, 4, "x=1\n")
        .unwrap();
    let td = params.get("textDocument").unwrap();
    assert_eq!(
        td.get("uri").unwrap(),
        &Json::Str("file:///tmp/b.py".to_string())
    );
    assert_eq!(td.get("languageId").unwrap(), &Json::Str("python".to_string()));
    assert_eq!(td.get("version").unwrap(), &Json::Int(1));
    assert_eq!(td.get("text").unwrap(), &Json::Str("x=1\n".to_string()));
}

#[test]
fn unknown_extension_opens_as_plaintext() {
    let p = pool();
    let params = p
        .build_did_open_params("/tmp/b.weird", None, 2, "hi")
        .unwrap();
    let td = params.get("textDocument").unwrap();
    assert_eq!(td.get("languageId").unwrap(), &Json::Str("plaintext".to_string()));
}

#[test]
fn missing_document_error_names_the_uri() {
    let p = pool();
    let err = p.document_missing_error("/tmp/gone.py");
    match err {
        BridgeError::DocumentMissing(msg) => {
            assert!(msg.contains("file:///tmp/gone.py"));
            assert!(msg.contains("not present on disk"));
        },
        other => panic!("expected the missing-document error, got {:?}", other),
    }
}
