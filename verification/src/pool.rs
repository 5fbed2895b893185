//! The language-server pool's routing state.
//!
//! The pool decides which helper command serves a request.  Precedence: an
//! explicit override, then the helper that already owns the document, then
//! the language table, then the extension table, then the configured default;
//! otherwise no server is registered.  Document URIs are normalized first: an
//! existing `file://` URI is kept as it is, an absolute path gets the
//! `file://` scheme, and a relative path is resolved against the working
//! directory the pool was built with.

use vstd::prelude::*;

use crate::alist::{
    lemma_assoc_get_skip, lemma_assoc_remove_get, lemma_assoc_remove_take_step,
    lemma_assoc_set_found, lemma_assoc_set_get, lemma_assoc_set_idempotent, lemma_assoc_set_len,
    lemma_assoc_set_missing, spec_assoc_get, spec_assoc_has, spec_assoc_remove, spec_assoc_set,
};
use crate::errors::BridgeError;
use crate::json::{lemma_pairs_jv_props, Json, Jv};
use crate::text::{
    last_index_in, lower_chars, spec_last_index_of, spec_lower_chars, spec_str_starts_with,
    str_eq, str_starts_with, str_suffix, string_to_chars, u64_to_dec_string,
};

verus! {

/// The mathematical reading of a routing table.
pub open spec fn al_view(v: Seq<(String, String)>) -> Seq<(Seq<char>, Seq<char>)> {
    Seq::new(v.len(), |i: int| (v[i].0@, v[i].1@))
}

/// First value bound to `key`.
pub fn al_get(v: &Vec<(String, String)>, key: &str) -> (r: Option<String>)
    ensures
        match r {
            Some(c) => spec_assoc_get(al_view(v@), key@) == Some(c@),
            None => spec_assoc_get(al_view(v@), key@) is None,
        },
{
    let ghost av = al_view(v@);
    let mut i: usize = 0;
    while i < v.len()
        invariant
            i <= v@.len(),
            av == al_view(v@),
            forall|j: int| 0 <= j < i ==> av[j].0 != key@,
        decreases v@.len() - i,
    {
        if str_eq(v[i].0.as_str(), key) {
            proof {
                lemma_assoc_get_skip(av, key@, i as int);
                assert(av.skip(i as int)[0] == av[i as int]);
            }
            return Some(v[i].1.clone());
        }
        i = i + 1;
    }
    proof {
        lemma_assoc_get_skip(av, key@, v@.len() as int);
        assert(av.skip(v@.len() as int) =~= Seq::<(Seq<char>, Seq<char>)>::empty());
    }
    None
}

/// Whether `key` is bound.
pub fn al_has(v: &Vec<(String, String)>, key: &str) -> (r: bool)
    ensures
        r == spec_assoc_has(al_view(v@), key@),
{
    let got = al_get(v, key);
    match got {
        Some(_) => true,
        None => false,
    }
}

/// Replace the first binding of `key`, or append one.
pub fn al_set(v: &mut Vec<(String, String)>, key: String, val: String)
    ensures
        al_view(final(v)@) == spec_assoc_set(al_view(old(v)@), key@, val@),
{
    let ghost orig = al_view(v@);
    let n = v.len();
    let mut i: usize = 0;
    while i < n
        invariant
            i <= n == v@.len(),
            orig == al_view(v@),
            orig == al_view(old(v)@),
            forall|j: int| 0 <= j < i ==> orig[j].0 != key@,
        decreases n - i,
    {
        if str_eq(v[i].0.as_str(), key.as_str()) {
            v.set(i, (key, val));
            proof {
                lemma_assoc_set_found(orig, key@, val@, i as int);
                assert(al_view(v@) =~= orig.update(i as int, (key@, val@)));
            }
            return;
        }
        i = i + 1;
    }
    proof {
        lemma_assoc_set_missing(orig, key@, val@);
    }
    v.push((key, val));
    proof {
        assert(al_view(v@) =~= orig.push((key@, val@)));
    }
}

/// Whether any binding carries `val` as its value.
pub fn al_has_value(v: &Vec<(String, String)>, val: &str) -> (r: bool)
    ensures
        r == (exists|i: int|
            0 <= i < al_view(v@).len() && #[trigger] al_view(v@)[i].1 == val@),
{
    let mut i: usize = 0;
    while i < v.len()
        invariant
            i <= v@.len(),
            forall|j: int| 0 <= j < i ==> al_view(v@)[j].1 != val@,
        decreases v@.len() - i,
    {
        if str_eq(v[i].1.as_str(), val) {
            proof {
                assert(al_view(v@)[i as int].1 == val@);
            }
            return true;
        }
        i = i + 1;
    }
    false
}

/// Remove every binding of `key`.
pub fn al_remove(v: &mut Vec<(String, String)>, key: &str)
    ensures
        al_view(final(v)@) == spec_assoc_remove(al_view(old(v)@), key@),
{
    let ghost orig = al_view(v@);
    let mut out: Vec<(String, String)> = Vec::new();
    let n = v.len();
    let mut i: usize = 0;
    while i < n
        invariant
            i <= n == v@.len(),
            orig == al_view(v@),
            al_view(out@) == spec_assoc_remove(orig.take(i as int), key@),
        decreases n - i,
    {
        let keep = !str_eq(v[i].0.as_str(), key);
        proof {
            lemma_assoc_remove_take_step(orig, key@, i as int);
        }
        if keep {
            out.push((v[i].0.clone(), v[i].1.clone()));
            proof {
                assert(al_view(out@) =~= spec_assoc_remove(orig.take(i as int), key@).push(
                    orig[i as int],
                ));
            }
        }
        i = i + 1;
    }
    proof {
        assert(orig.take(n as int) =~= orig);
    }
    *v = out;
}

// ---------------------------------------------------------------------------
// URI normalization
// ---------------------------------------------------------------------------

pub open spec fn spec_file_scheme() -> Seq<char> {
    "file://"@
}

/// Normalize a document identifier: keep a `file://` URI, give an absolute
/// path the scheme, resolve a relative path against `cwd`.
pub open spec fn spec_normalize_uri(u: Seq<char>, cwd: Seq<char>) -> Seq<char> {
    if spec_str_starts_with(u, spec_file_scheme()) {
        u
    } else if u.len() > 0 && u[0] == '/' {
        spec_file_scheme() + u
    } else {
        spec_file_scheme() + cwd + "/"@ + u
    }
}

pub fn normalize_uri(uri: &str, cwd: &str) -> (r: String)
    ensures
        r@ == spec_normalize_uri(uri@, cwd@),
{
    if str_starts_with(uri, "file://") {
        return uri.to_owned();
    }
    let uc = string_to_chars(uri);
    let mut out: String = "file://".to_owned();
    if uc.len() > 0 && uc[0] == '/' {
        out.append(uri);
        out
    } else {
        out.append(cwd);
        out.append("/");
        out.append(uri);
        out
    }
}

/// Normalization settles after one pass: a normalized URI normalizes to
/// itself, `file://` URIs are returned as they are, and an absolute path
/// round-trips to the `file://` form of exactly that path.
pub proof fn lemma_normalize_idempotent(u: Seq<char>, cwd: Seq<char>)
    ensures
        spec_normalize_uri(spec_normalize_uri(u, cwd), cwd) == spec_normalize_uri(u, cwd),
        spec_str_starts_with(u, spec_file_scheme()) ==> spec_normalize_uri(u, cwd) == u,
        (!spec_str_starts_with(u, spec_file_scheme()) && u.len() > 0 && u[0] == '/')
            ==> spec_normalize_uri(u, cwd) == spec_file_scheme() + u,
{
    reveal_strlit("file://");
    let n = spec_normalize_uri(u, cwd);
    if !spec_str_starts_with(u, spec_file_scheme()) {
        assert(n.take(spec_file_scheme().len() as int) =~= spec_file_scheme());
        assert(spec_str_starts_with(n, spec_file_scheme()));
    }
}

// ---------------------------------------------------------------------------
// File extensions
// ---------------------------------------------------------------------------

/// The extension of the last path segment: what follows the last dot, lower
/// cased; nothing when the segment has no dot.
pub open spec fn spec_extension_of(u: Seq<char>) -> Option<Seq<char>> {
    let path = if spec_str_starts_with(u, spec_file_scheme()) {
        u.skip(spec_file_scheme().len() as int)
    } else {
        u
    };
    let seg = match spec_last_index_of(path, '/') {
        Some(i) => path.skip(i + 1),
        None => path,
    };
    match spec_last_index_of(seg, '.') {
        Some(i) => Some(spec_lower_chars(seg.skip(i + 1))),
        None => None,
    }
}

pub fn extension_of(uri: &str) -> (r: Option<String>)
    ensures
        match r {
            Some(e) => spec_extension_of(uri@) == Some(e@),
            None => spec_extension_of(uri@) is None,
        },
{
    proof {
        reveal_strlit("file://");
    }
    let path: String = if str_starts_with(uri, "file://") {
        str_suffix(uri, 7)
    } else {
        uri.to_owned()
    };
    let pc = string_to_chars(path.as_str());
    let pn = pc.len();
    let seg: String = match last_index_in(&pc, '/') {
        Some(i) => {
            proof {
                assert(i < pn);
            }
            str_suffix(path.as_str(), i + 1)
        },
        None => path.clone(),
    };
    let sc = string_to_chars(seg.as_str());
    let sn = sc.len();
    match last_index_in(&sc, '.') {
        Some(i) => {
            proof {
                assert(i < sn);
            }
            let tail = str_suffix(seg.as_str(), i + 1);
            Some(lower_chars(tail.as_str()))
        },
        None => None,
    }
}

// ---------------------------------------------------------------------------
// The pool
// ---------------------------------------------------------------------------

/// Largest document the pool will read into a synthetic open notification.
pub const MAX_INLINE_DOC_BYTES: u64 = 2097152;

pub struct LanguageServerPool {
    /// Fallback command when no table matches.
    pub default_cmd: Option<String>,
    /// Working directory used to resolve relative paths.
    pub cwd: String,
    /// Normalized document URI to the command that owns the document.
    pub doc_servers: Vec<(String, String)>,
    /// Language identifier (lower case) to command.
    pub lang_map: Vec<(String, String)>,
    /// File extension (lower case) to command.
    pub ext_map: Vec<(String, String)>,
    /// File extension to the canonical language identifier used for
    /// synthesized opens.
    pub ext_language_map: Vec<(String, String)>,
    /// The most recently used command.
    pub last_server: Option<String>,
}

impl LanguageServerPool {
    pub open spec fn docs(self) -> Seq<(Seq<char>, Seq<char>)> {
        al_view(self.doc_servers@)
    }

    pub open spec fn langs(self) -> Seq<(Seq<char>, Seq<char>)> {
        al_view(self.lang_map@)
    }

    pub open spec fn exts(self) -> Seq<(Seq<char>, Seq<char>)> {
        al_view(self.ext_map@)
    }

    pub open spec fn ext_langs(self) -> Seq<(Seq<char>, Seq<char>)> {
        al_view(self.ext_language_map@)
    }

    pub open spec fn default_v(self) -> Option<Seq<char>> {
        match self.default_cmd {
            Some(c) => Some(c@),
            None => None,
        }
    }

    pub open spec fn last_v(self) -> Option<Seq<char>> {
        match self.last_server {
            Some(c) => Some(c@),
            None => None,
        }
    }

    /// The command that serves a request, by precedence: explicit override,
    /// document owner, language table, extension table, default.
    pub open spec fn spec_resolve(
        self,
        explicit: Option<Seq<char>>,
        uri: Option<Seq<char>>,
        lang: Option<Seq<char>>,
    ) -> Option<Seq<char>> {
        if explicit is Some {
            explicit
        } else if uri is Some && spec_assoc_get(
            self.docs(),
            spec_normalize_uri(uri->0, self.cwd@),
        ) is Some {
            spec_assoc_get(self.docs(), spec_normalize_uri(uri->0, self.cwd@))
        } else if lang is Some && spec_assoc_get(self.langs(), spec_lower_chars(lang->0)) is Some {
            spec_assoc_get(self.langs(), spec_lower_chars(lang->0))
        } else if uri is Some && spec_extension_of(spec_normalize_uri(uri->0, self.cwd@)) is Some
            && spec_assoc_get(
            self.exts(),
            spec_extension_of(spec_normalize_uri(uri->0, self.cwd@))->0,
        ) is Some {
            spec_assoc_get(
                self.exts(),
                spec_extension_of(spec_normalize_uri(uri->0, self.cwd@))->0,
            )
        } else {
            self.default_v()
        }
    }

    /// Resolve the command for a request; an error exactly when no source
    /// yields one.
    pub fn resolve_command(
        &self,
        explicit: Option<&str>,
        uri: Option<&str>,
        language: Option<&str>,
    ) -> (r: Result<String, BridgeError>)
        ensures
            ({
                let e = match explicit {
                    Some(s) => Some(s@),
                    None => None,
                };
                let u = match uri {
                    Some(s) => Some(s@),
                    None => None,
                };
                let l = match language {
                    Some(s) => Some(s@),
                    None => None,
                };
                match r {
                    Ok(c) => self.spec_resolve(e, u, l) == Some(c@),
                    Err(err) => self.spec_resolve(e, u, l) is None && err is NoServerRegistered,
                }
            }),
    {
        if let Some(cmd) = explicit {
            return Ok(cmd.to_owned());
        }
        if let Some(u) = uri {
            let key = normalize_uri(u, self.cwd.as_str());
            if let Some(cmd) = al_get(&self.doc_servers, key.as_str()) {
                return Ok(cmd);
            }
        }
        if let Some(l) = language {
            let key = lower_chars(l);
            if let Some(cmd) = al_get(&self.lang_map, key.as_str()) {
                return Ok(cmd);
            }
        }
        if let Some(u) = uri {
            let key = normalize_uri(u, self.cwd.as_str());
            if let Some(ext) = extension_of(key.as_str()) {
                if let Some(cmd) = al_get(&self.ext_map, ext.as_str()) {
                    return Ok(cmd);
                }
            }
        }
        match &self.default_cmd {
            Some(cmd) => Ok(cmd.clone()),
            None => Err(
                BridgeError::NoServerRegistered(
                    "No language server registered for this request. Install a supported server for the file type or configure overrides.".to_owned(),
                ),
            ),
        }
    }

    /// Remember that `cmd` now owns the document behind `uri`.
    pub fn associate_document(&mut self, uri: &str, cmd: &str)
        ensures
            final(self).docs() == spec_assoc_set(
                old(self).docs(),
                spec_normalize_uri(uri@, old(self).cwd@),
                cmd@,
            ),
            final(self).last_v() == Some(cmd@),
            final(self).langs() == old(self).langs(),
            final(self).exts() == old(self).exts(),
            final(self).ext_langs() == old(self).ext_langs(),
            final(self).default_v() == old(self).default_v(),
            final(self).cwd == old(self).cwd,
    {
        let key = normalize_uri(uri, self.cwd.as_str());
        al_set(&mut self.doc_servers, key, cmd.to_owned());
        self.last_server = Some(cmd.to_owned());
    }

    /// Forget the association of the document behind `uri`; the last-used
    /// pointer keeps the owning command if any document still uses it, else
    /// falls back to the first remaining association, else clears.
    pub fn release_document(&mut self, uri: &str)
        ensures
            final(self).docs() == spec_assoc_remove(
                old(self).docs(),
                spec_normalize_uri(uri@, old(self).cwd@),
            ),
            final(self).langs() == old(self).langs(),
            final(self).exts() == old(self).exts(),
            final(self).ext_langs() == old(self).ext_langs(),
            final(self).default_v() == old(self).default_v(),
            final(self).cwd == old(self).cwd,
            ({
                let k = spec_normalize_uri(uri@, old(self).cwd@);
                match spec_assoc_get(old(self).docs(), k) {
                    Some(cmd) => final(self).last_v() == if exists|i: int|
                        0 <= i < final(self).docs().len() && #[trigger] final(self).docs()[i].1
                            == cmd {
                        Some(cmd)
                    } else if final(self).docs().len() > 0 {
                        Some(final(self).docs()[0].1)
                    } else {
                        None::<Seq<char>>
                    },
                    None => final(self).last_v() == old(self).last_v(),
                }
            }),
    {
        let key = normalize_uri(uri, self.cwd.as_str());
        let removed = al_get(&self.doc_servers, key.as_str());
        al_remove(&mut self.doc_servers, key.as_str());
        if let Some(cmd) = removed {
            let still_used = al_has_value(&self.doc_servers, cmd.as_str());
            if still_used {
                self.last_server = Some(cmd);
            } else if self.doc_servers.len() > 0 {
                self.last_server = Some(self.doc_servers[0].1.clone());
            } else {
                self.last_server = None;
            }
        }
    }

    /// Whether the pool has associated the document with a helper.
    pub fn has_document(&self, uri: &str) -> (r: bool)
        ensures
            r == spec_assoc_has(self.docs(), spec_normalize_uri(uri@, self.cwd@)),
    {
        let key = normalize_uri(uri, self.cwd.as_str());
        al_has(&self.doc_servers, key.as_str())
    }

    /// Record that `cmd` was just used.
    pub fn touch_server(&mut self, cmd: &str)
        ensures
            final(self).last_v() == Some(cmd@),
            final(self).docs() == old(self).docs(),
            final(self).langs() == old(self).langs(),
            final(self).exts() == old(self).exts(),
            final(self).ext_langs() == old(self).ext_langs(),
            final(self).default_v() == old(self).default_v(),
            final(self).cwd == old(self).cwd,
    {
        self.last_server = Some(cmd.to_owned());
    }

    /// Forget every document association, as a pool shutdown does.
    pub fn clear_documents(&mut self)
        ensures
            final(self).docs() == Seq::<(Seq<char>, Seq<char>)>::empty(),
            final(self).last_v() is None,
            final(self).langs() == old(self).langs(),
            final(self).exts() == old(self).exts(),
            final(self).ext_langs() == old(self).ext_langs(),
            final(self).default_v() == old(self).default_v(),
            final(self).cwd == old(self).cwd,
    {
        self.doc_servers = Vec::new();
        self.last_server = None;
        proof {
            assert(al_view(Seq::<(String, String)>::empty()) =~= Seq::<
                (Seq<char>, Seq<char>),
            >::empty());
        }
    }

    /// The canonical language identifier for a file extension.
    pub fn language_from_extension(&self, ext: &str) -> (r: Option<String>)
        ensures
            match r {
                Some(l) => spec_assoc_get(self.ext_langs(), ext@) == Some(l@),
                None => spec_assoc_get(self.ext_langs(), ext@) is None,
            },
    {
        al_get(&self.ext_language_map, ext)
    }
}

/// Routing precedence, spelled out: an explicit override always wins; absent
/// one, a document's owner; then the language table; then the extension
/// table; then the default command; and with nothing to go on, no command.
pub proof fn lemma_resolve_precedence(
    p: LanguageServerPool,
    explicit: Option<Seq<char>>,
    uri: Option<Seq<char>>,
    lang: Option<Seq<char>>,
)
    ensures
        explicit is Some ==> p.spec_resolve(explicit, uri, lang) == explicit,
        explicit is None && uri is Some && spec_assoc_has(
            p.docs(),
            spec_normalize_uri(uri->0, p.cwd@),
        ) ==> p.spec_resolve(explicit, uri, lang) == spec_assoc_get(
            p.docs(),
            spec_normalize_uri(uri->0, p.cwd@),
        ),
        explicit is None && (uri is None || !spec_assoc_has(
            p.docs(),
            spec_normalize_uri(uri->0, p.cwd@),
        )) && lang is Some && spec_assoc_has(p.langs(), spec_lower_chars(lang->0))
            ==> p.spec_resolve(explicit, uri, lang) == spec_assoc_get(
            p.langs(),
            spec_lower_chars(lang->0),
        ),
        explicit is None && (uri is None || !spec_assoc_has(
            p.docs(),
            spec_normalize_uri(uri->0, p.cwd@),
        )) && (lang is None || !spec_assoc_has(p.langs(), spec_lower_chars(lang->0))) && (uri
            is None || spec_extension_of(spec_normalize_uri(uri->0, p.cwd@)) is None
            || !spec_assoc_has(
            p.exts(),
            spec_extension_of(spec_normalize_uri(uri->0, p.cwd@))->0,
        )) ==> p.spec_resolve(explicit, uri, lang) == p.default_v(),
{
}

/// Open/close accounting: opening a document adds exactly one association
/// (and only refreshes it when it is already present); closing removes it;
/// repeating an open changes nothing further; and no other document's
/// association is touched by either.
pub proof fn lemma_open_close_accounting(
    docs: Seq<(Seq<char>, Seq<char>)>,
    k: Seq<char>,
    cmd: Seq<char>,
    other: Seq<char>,
)
    ensures
        spec_assoc_get(spec_assoc_set(docs, k, cmd), k) == Some(cmd),
        spec_assoc_set(docs, k, cmd).len() == if spec_assoc_has(docs, k) {
            docs.len() as int
        } else {
            docs.len() as int + 1
        },
        spec_assoc_set(spec_assoc_set(docs, k, cmd), k, cmd) == spec_assoc_set(docs, k, cmd),
        !spec_assoc_has(spec_assoc_remove(spec_assoc_set(docs, k, cmd), k), k),
        other != k ==> spec_assoc_get(spec_assoc_set(docs, k, cmd), other) == spec_assoc_get(
            docs,
            other,
        ),
        other != k ==> spec_assoc_get(spec_assoc_remove(docs, k), other) == spec_assoc_get(
            docs,
            other,
        ),
{
    lemma_assoc_set_get(docs, k, cmd, k);
    lemma_assoc_set_get(docs, k, cmd, other);
    lemma_assoc_set_len(docs, k, cmd);
    lemma_assoc_set_idempotent(docs, k, cmd);
    lemma_assoc_remove_get(spec_assoc_set(docs, k, cmd), k, k);
    lemma_assoc_remove_get(docs, k, other);
}

// ---------------------------------------------------------------------------
// Built-in routing tables and configured overrides
// ---------------------------------------------------------------------------

/// The built-in languageId table.
pub open spec fn spec_default_lang_commands() -> Seq<(Seq<char>, Seq<char>)> {
    seq![
        ("bash"@, "bash-language-server start"@),
        ("c"@, "clangd"@),
        ("cpp"@, "clangd"@),
        ("go"@, "gopls"@),
        ("javascript"@, "typescript-language-server --stdio"@),
        ("javascriptreact"@, "typescript-language-server --stdio"@),
        ("json"@, "vscode-json-language-server --stdio"@),
        ("jsonc"@, "vscode-json-language-server --stdio"@),
        ("markdown"@, "marksman"@),
        ("python"@, "pylsp"@),
        ("rust"@, "rust-analyzer"@),
        ("shell"@, "bash-language-server start"@),
        ("shellscript"@, "bash-language-server start"@),
        ("toml"@, "taplo lsp"@),
        ("typescript"@, "typescript-language-server --stdio"@),
        ("typescriptreact"@, "typescript-language-server --stdio"@),
        ("zig"@, "zls"@),
        ("yaml"@, "yaml-language-server --stdio"@),
    ]
}

/// The built-in extension table.
pub open spec fn spec_default_ext_commands() -> Seq<(Seq<char>, Seq<char>)> {
    seq![
        ("bash"@, "bash-language-server start"@),
        ("c"@, "clangd"@),
        ("cc"@, "clangd"@),
        ("cpp"@, "clangd"@),
        ("cxx"@, "clangd"@),
        ("go"@, "gopls"@),
        ("h"@, "clangd"@),
        ("hpp"@, "clangd"@),
        ("hh"@, "clangd"@),
        ("js"@, "typescript-language-server --stdio"@),
        ("jsx"@, "typescript-language-server --stdio"@),
        ("json"@, "vscode-json-language-server --stdio"@),
        ("jsonc"@, "vscode-json-language-server --stdio"@),
        ("md"@, "marksman"@),
        ("mdx"@, "marksman"@),
        ("py"@, "pylsp"@),
        ("pyi"@, "pylsp"@),
        ("rs"@, "rust-analyzer"@),
        ("sh"@, "bash-language-server start"@),
        ("toml"@, "taplo lsp"@),
        ("ts"@, "typescript-language-server --stdio"@),
        ("tsx"@, "typescript-language-server --stdio"@),
        ("yaml"@, "yaml-language-server --stdio"@),
        ("yml"@, "yaml-language-server --stdio"@),
        ("zig"@, "zls"@),
    ]
}

/// The built-in extension-to-language table.
pub open spec fn spec_default_ext_languages() -> Seq<(Seq<char>, Seq<char>)> {
    seq![
        ("bash"@, "shell"@),
        ("c"@, "c"@),
        ("cc"@, "cpp"@),
        ("cpp"@, "cpp"@),
        ("cxx"@, "cpp"@),
        ("go"@, "go"@),
        ("h"@, "c"@),
        ("hpp"@, "cpp"@),
        ("hh"@, "cpp"@),
        ("js"@, "javascript"@),
        ("jsx"@, "javascriptreact"@),
        ("json"@, "json"@),
        ("jsonc"@, "json"@),
        ("md"@, "markdown"@),
        ("mdx"@, "markdown"@),
        ("py"@, "python"@),
        ("pyi"@, "python"@),
        ("rs"@, "rust"@),
        ("sh"@, "shell"@),
        ("toml"@, "toml"@),
        ("ts"@, "typescript"@),
        ("tsx"@, "typescriptreact"@),
        ("yaml"@, "yaml"@),
        ("yml"@, "yaml"@),
        ("zig"@, "zig"@),
    ]
}

fn push_entry(v: &mut Vec<(String, String)>, k: &str, val: &str)
    ensures
        al_view(final(v)@) == al_view(old(v)@).push((k@, val@)),
{
    v.push((k.to_owned(), val.to_owned()));
    proof {
        assert(al_view(v@) =~= al_view(old(v)@).push((k@, val@)));
    }
}

fn built_in_lang_map() -> (v: Vec<(String, String)>)
    ensures
        al_view(v@) == spec_default_lang_commands(),
{
    let mut v: Vec<(String, String)> = Vec::new();
    push_entry(&mut v, "bash", "bash-language-server start");
    push_entry(&mut v, "c", "clangd");
    push_entry(&mut v, "cpp", "clangd");
    push_entry(&mut v, "go", "gopls");
    push_entry(&mut v, "javascript", "typescript-language-server --stdio");
    push_entry(&mut v, "javascriptreact", "typescript-language-server --stdio");
    push_entry(&mut v, "json", "vscode-json-language-server --stdio");
    push_entry(&mut v, "jsonc", "vscode-json-language-server --stdio");
    push_entry(&mut v, "markdown", "marksman");
    push_entry(&mut v, "python", "pylsp");
    push_entry(&mut v, "rust", "rust-analyzer");
    push_entry(&mut v, "shell", "bash-language-server start");
    push_entry(&mut v, "shellscript", "bash-language-server start");
    push_entry(&mut v, "toml", "taplo lsp");
    push_entry(&mut v, "typescript", "typescript-language-server --stdio");
    push_entry(&mut v, "typescriptreact", "typescript-language-server --stdio");
    push_entry(&mut v, "zig", "zls");
    push_entry(&mut v, "yaml", "yaml-language-server --stdio");
    proof {
        assert(al_view(v@) =~= spec_default_lang_commands());
    }
    v
}

fn built_in_ext_map() -> (v: Vec<(String, String)>)
    ensures
        al_view(v@) == spec_default_ext_commands(),
{
    let mut v: Vec<(String, String)> = Vec::new();
    push_entry(&mut v, "bash", "bash-language-server start");
    push_entry(&mut v, "c", "clangd");
    push_entry(&mut v, "cc", "clangd");
    push_entry(&mut v, "cpp", "clangd");
    push_entry(&mut v, "cxx", "clangd");
    push_entry(&mut v, "go", "gopls");
    push_entry(&mut v, "h", "clangd");
    push_entry(&mut v, "hpp", "clangd");
    push_entry(&mut v, "hh", "clangd");
    push_entry(&mut v, "js", "typescript-language-server --stdio");
    push_entry(&mut v, "jsx", "typescript-language-server --stdio");
    push_entry(&mut v, "json", "vscode-json-language-server --stdio");
    push_entry(&mut v, "jsonc", "vscode-json-language-server --stdio");
    push_entry(&mut v, "md", "marksman");
    push_entry(&mut v, "mdx", "marksman");
    push_entry(&mut v, "py", "pylsp");
    push_entry(&mut v, "pyi", "pylsp");
    push_entry(&mut v, "rs", "rust-analyzer");
    push_entry(&mut v, "sh", "bash-language-server start");
    push_entry(&mut v, "toml", "taplo lsp");
    push_entry(&mut v, "ts", "typescript-language-server --stdio");
    push_entry(&mut v, "tsx", "typescript-language-server --stdio");
    push_entry(&mut v, "yaml", "yaml-language-server --stdio");
    push_entry(&mut v, "yml", "yaml-language-server --stdio");
    push_entry(&mut v, "zig", "zls");
    proof {
        assert(al_view(v@) =~= spec_default_ext_commands());
    }
    v
}

fn built_in_ext_language_map() -> (v: Vec<(String, String)>)
    ensures
        al_view(v@) == spec_default_ext_languages(),
{
    let mut v: Vec<(String, String)> = Vec::new();
    push_entry(&mut v, "bash", "shell");
    push_entry(&mut v, "c", "c");
    push_entry(&mut v, "cc", "cpp");
    push_entry(&mut v, "cpp", "cpp");
    push_entry(&mut v, "cxx", "cpp");
    push_entry(&mut v, "go", "go");
    push_entry(&mut v, "h", "c");
    push_entry(&mut v, "hpp", "cpp");
    push_entry(&mut v, "hh", "cpp");
    push_entry(&mut v, "js", "javascript");
    push_entry(&mut v, "jsx", "javascriptreact");
    push_entry(&mut v, "json", "json");
    push_entry(&mut v, "jsonc", "json");
    push_entry(&mut v, "md", "markdown");
    push_entry(&mut v, "mdx", "markdown");
    push_entry(&mut v, "py", "python");
    push_entry(&mut v, "pyi", "python");
    push_entry(&mut v, "rs", "rust");
    push_entry(&mut v, "sh", "shell");
    push_entry(&mut v, "toml", "toml");
    push_entry(&mut v, "ts", "typescript");
    push_entry(&mut v, "tsx", "typescriptreact");
    push_entry(&mut v, "yaml", "yaml");
    push_entry(&mut v, "yml", "yaml");
    push_entry(&mut v, "zig", "zig");
    proof {
        assert(al_view(v@) =~= spec_default_ext_languages());
    }
    v
}

/// The three routing tables together.
pub struct ServerMaps {
    pub lang_map: Vec<(String, String)>,
    pub ext_map: Vec<(String, String)>,
    pub ext_language_map: Vec<(String, String)>,
}

/// Ghost image of the three tables.
pub struct MapsV {
    pub langs: Seq<(Seq<char>, Seq<char>)>,
    pub exts: Seq<(Seq<char>, Seq<char>)>,
    pub ext_langs: Seq<(Seq<char>, Seq<char>)>,
}

impl ServerMaps {
    pub open spec fn v(self) -> MapsV {
        MapsV {
            langs: al_view(self.lang_map@),
            exts: al_view(self.ext_map@),
            ext_langs: al_view(self.ext_language_map@),
        }
    }
}

/// A key with its leading dots removed.
pub open spec fn spec_trim_dots(s: Seq<char>) -> Seq<char>
    decreases s.len(),
{
    if s.len() > 0 && s[0] == '.' {
        spec_trim_dots(s.skip(1))
    } else {
        s
    }
}

fn trim_dots(s: &str) -> (r: String)
    ensures
        r@ == spec_trim_dots(s@),
{
    let sc = string_to_chars(s);
    let n = sc.len();
    proof {
        assert(s@.skip(0) =~= s@);
    }
    let mut a: usize = 0;
    while a < n && sc[a] == '.'
        invariant
            a <= n == sc@.len(),
            sc@ == s@,
            spec_trim_dots(s@) == spec_trim_dots(s@.skip(a as int)),
        decreases n - a,
    {
        proof {
            assert(s@.skip(a as int)[0] == s@[a as int]);
            assert(s@.skip(a as int).skip(1) =~= s@.skip(a as int + 1));
        }
        a = a + 1;
    }
    proof {
        if a < n {
            assert(s@.skip(a as int)[0] == s@[a as int]);
        } else {
            assert(s@.skip(a as int) =~= Seq::<char>::empty());
        }
        assert(spec_trim_dots(s@.skip(a as int)) == s@.skip(a as int));
    }
    str_suffix(s, a)
}

/// One language entry from the configuration: a string command binds the
/// lower-cased language.
pub open spec fn spec_apply_lang_entry(m: MapsV, key: Seq<char>, val: Jv) -> MapsV {
    match val {
        Jv::Str(cmd) => MapsV {
            langs: spec_assoc_set(m.langs, spec_lower_chars(key), cmd),
            ..m
        },
        _ => m,
    }
}

/// One extension entry from the configuration: the canonical form drops the
/// leading dots and lower-cases; the language table gains the canonical name
/// for itself unless the extension is already mapped.
pub open spec fn spec_apply_ext_entry(m: MapsV, key: Seq<char>, val: Jv) -> MapsV {
    match val {
        Jv::Str(cmd) => {
            let canonical = spec_lower_chars(spec_trim_dots(key));
            MapsV {
                langs: m.langs,
                exts: spec_assoc_set(m.exts, canonical, cmd),
                ext_langs: if spec_assoc_has(m.ext_langs, canonical) {
                    m.ext_langs
                } else {
                    spec_assoc_set(m.ext_langs, canonical, canonical)
                },
            }
        },
        _ => m,
    }
}

/// A run of language entries, in order.
pub open spec fn spec_apply_lang_entries(m: MapsV, entries: Seq<(Seq<char>, Jv)>) -> MapsV
    decreases entries.len(),
{
    if entries.len() == 0 {
        m
    } else {
        spec_apply_lang_entries(
            spec_apply_lang_entry(m, entries[0].0, entries[0].1),
            entries.skip(1),
        )
    }
}

/// A run of extension entries, in order.
pub open spec fn spec_apply_ext_entries(m: MapsV, entries: Seq<(Seq<char>, Jv)>) -> MapsV
    decreases entries.len(),
{
    if entries.len() == 0 {
        m
    } else {
        spec_apply_ext_entries(
            spec_apply_ext_entry(m, entries[0].0, entries[0].1),
            entries.skip(1),
        )
    }
}

/// One top-level key of the configuration object.
pub open spec fn spec_apply_override(m: MapsV, key: Seq<char>, val: Jv) -> MapsV {
    let low = spec_lower_chars(key);
    if low == "languages"@ || low == "language"@ {
        match val {
            Jv::Obj(entries) => spec_apply_lang_entries(m, entries),
            _ => m,
        }
    } else if low == "extensions"@ || low == "extension"@ {
        match val {
            Jv::Obj(entries) => spec_apply_ext_entries(m, entries),
            _ => m,
        }
    } else if val is Str {
        if crate::text::spec_str_starts_with(key, "lang:"@) {
            spec_apply_lang_entry(m, key.skip(5), val)
        } else if crate::text::spec_str_starts_with(key, "ext:"@) {
            spec_apply_ext_entry(m, key.skip(4), val)
        } else if key.len() > 0 && key[0] == '.' {
            spec_apply_ext_entry(m, key, val)
        } else {
            spec_apply_lang_entry(m, key, val)
        }
    } else {
        m
    }
}

/// All top-level keys of the configuration object, in order.
pub open spec fn spec_apply_overrides(m: MapsV, entries: Seq<(Seq<char>, Jv)>) -> MapsV
    decreases entries.len(),
{
    if entries.len() == 0 {
        m
    } else {
        spec_apply_overrides(
            spec_apply_override(m, entries[0].0, entries[0].1),
            entries.skip(1),
        )
    }
}

/// The built-in tables, with the configuration applied on top.  A value that
/// is not an object is ignored, as unparsable configuration is.
pub open spec fn spec_server_maps(overrides: Option<Jv>) -> MapsV {
    let base = MapsV {
        langs: spec_default_lang_commands(),
        exts: spec_default_ext_commands(),
        ext_langs: spec_default_ext_languages(),
    };
    match overrides {
        Some(Jv::Obj(entries)) => spec_apply_overrides(base, entries),
        _ => base,
    }
}

impl ServerMaps {
    fn apply_lang_entry(&mut self, key: &str, val: &Json)
        ensures
            final(self).v() == spec_apply_lang_entry(old(self).v(), key@, val.jv()),
    {
        if let Some(cmd) = val.as_str() {
            let low = lower_chars(key);
            al_set(&mut self.lang_map, low, cmd.clone());
        }
    }

    fn apply_ext_entry(&mut self, key: &str, val: &Json)
        ensures
            final(self).v() == spec_apply_ext_entry(old(self).v(), key@, val.jv()),
    {
        if let Some(cmd) = val.as_str() {
            let trimmed = trim_dots(key);
            let canonical = lower_chars(trimmed.as_str());
            al_set(&mut self.ext_map, canonical.clone(), cmd.clone());
            if !al_has(&self.ext_language_map, canonical.as_str()) {
                al_set(&mut self.ext_language_map, canonical.clone(), canonical);
            }
        }
    }

    fn apply_lang_entries(&mut self, entries: &Vec<(String, Json)>)
        ensures
            final(self).v() == spec_apply_lang_entries(
                old(self).v(),
                crate::json::pairs_jv(entries@),
            ),
    {
        let ghost ev = crate::json::pairs_jv(entries@);
        let n = entries.len();
        proof {
            lemma_pairs_jv_props(entries@);
            assert(ev.skip(0) =~= ev);
        }
        let mut i: usize = 0;
        while i < n
            invariant
                i <= n == entries@.len(),
                ev == crate::json::pairs_jv(entries@),
                ev.len() == n,
                spec_apply_lang_entries(old(self).v(), ev) == spec_apply_lang_entries(
                    self.v(),
                    ev.skip(i as int),
                ),
            decreases n - i,
        {
            proof {
                lemma_pairs_jv_props(entries@);
                assert(ev.skip(i as int)[0] == ev[i as int]);
                assert(ev.skip(i as int).skip(1) =~= ev.skip(i as int + 1));
            }
            self.apply_lang_entry(entries[i].0.as_str(), &entries[i].1);
            i = i + 1;
        }
        proof {
            assert(ev.skip(n as int) =~= Seq::<(Seq<char>, Jv)>::empty());
        }
    }

    fn apply_ext_entries(&mut self, entries: &Vec<(String, Json)>)
        ensures
            final(self).v() == spec_apply_ext_entries(
                old(self).v(),
                crate::json::pairs_jv(entries@),
            ),
    {
        let ghost ev = crate::json::pairs_jv(entries@);
        let n = entries.len();
        proof {
            lemma_pairs_jv_props(entries@);
            assert(ev.skip(0) =~= ev);
        }
        let mut i: usize = 0;
        while i < n
            invariant
                i <= n == entries@.len(),
                ev == crate::json::pairs_jv(entries@),
                ev.len() == n,
                spec_apply_ext_entries(old(self).v(), ev) == spec_apply_ext_entries(
                    self.v(),
                    ev.skip(i as int),
                ),
            decreases n - i,
        {
            proof {
                lemma_pairs_jv_props(entries@);
                assert(ev.skip(i as int)[0] == ev[i as int]);
                assert(ev.skip(i as int).skip(1) =~= ev.skip(i as int + 1));
            }
            self.apply_ext_entry(entries[i].0.as_str(), &entries[i].1);
            i = i + 1;
        }
        proof {
            assert(ev.skip(n as int) =~= Seq::<(Seq<char>, Jv)>::empty());
        }
    }

    fn apply_override(&mut self, key: &str, val: &Json)
        ensures
            final(self).v() == spec_apply_override(old(self).v(), key@, val.jv()),
    {
        let low = lower_chars(key);
        if str_eq(low.as_str(), "languages") || str_eq(low.as_str(), "language") {
            if let Some(entries) = val.as_obj() {
                self.apply_lang_entries(entries);
            }
        } else if str_eq(low.as_str(), "extensions") || str_eq(low.as_str(), "extension") {
            if let Some(entries) = val.as_obj() {
                self.apply_ext_entries(entries);
            }
        } else if val.as_str().is_some() {
            if str_starts_with(key, "lang:") {
                proof {
                    reveal_strlit("lang:");
                }
                let rest = str_suffix(key, 5);
                self.apply_lang_entry(rest.as_str(), val);
            } else if str_starts_with(key, "ext:") {
                proof {
                    reveal_strlit("ext:");
                }
                let rest = str_suffix(key, 4);
                self.apply_ext_entry(rest.as_str(), val);
            } else {
                let kc = string_to_chars(key);
                if kc.len() > 0 && kc[0] == '.' {
                    self.apply_ext_entry(key, val);
                } else {
                    self.apply_lang_entry(key, val);
                }
            }
        }
    }

    /// The built-in tables, with a configuration object applied on top.
    pub fn build(overrides: Option<&Json>) -> (r: ServerMaps)
        ensures
            r.v() == spec_server_maps(
                match overrides {
                    Some(j) => Some(j.jv()),
                    None => None,
                },
            ),
    {
        let mut maps = ServerMaps {
            lang_map: built_in_lang_map(),
            ext_map: built_in_ext_map(),
            ext_language_map: built_in_ext_language_map(),
        };
        if let Some(j) = overrides {
            if let Some(entries) = j.as_obj() {
                let ghost base = maps.v();
                let ghost ev = crate::json::pairs_jv(entries@);
                let n = entries.len();
                proof {
                    lemma_pairs_jv_props(entries@);
                    assert(ev.skip(0) =~= ev);
                }
                let mut i: usize = 0;
                while i < n
                    invariant
                        i <= n == entries@.len(),
                        ev == crate::json::pairs_jv(entries@),
                        ev.len() == n,
                        spec_apply_overrides(base, ev) == spec_apply_overrides(
                            maps.v(),
                            ev.skip(i as int),
                        ),
                    decreases n - i,
                {
                    proof {
                        lemma_pairs_jv_props(entries@);
                        assert(ev.skip(i as int)[0] == ev[i as int]);
                        assert(ev.skip(i as int).skip(1) =~= ev.skip(i as int + 1));
                    }
                    maps.apply_override(entries[i].0.as_str(), &entries[i].1);
                    i = i + 1;
                }
                proof {
                    assert(ev.skip(n as int) =~= Seq::<(Seq<char>, Jv)>::empty());
                }
            }
        }
        maps
    }
}

// ---------------------------------------------------------------------------
// Synthetic open notifications
// ---------------------------------------------------------------------------

/// The message reported when a document is too large to inline.
pub open spec fn spec_too_large_msg(uri: Seq<char>, len: nat) -> Seq<char> {
    "Document "@ + uri + " is "@ + crate::text::spec_dec_chars(len)
        + " bytes; files larger than 2 MiB are not inlined. Provide a smaller file or send the content explicitly via didOpen."@
}

/// The parameters of a synthesized open notification.
pub open spec fn spec_did_open_jv(uri: Seq<char>, lid: Seq<char>, text: Seq<char>) -> Jv {
    Jv::Obj(
        seq![
            (
                "textDocument"@,
                Jv::Obj(
                    seq![
                        ("uri"@, Jv::Str(uri)),
                        ("languageId"@, Jv::Str(lid)),
                        ("version"@, Jv::Int(1)),
                        ("text"@, Jv::Str(text)),
                    ],
                ),
            ),
        ],
    )
}

impl LanguageServerPool {
    /// The language identifier used for a synthesized open: the caller's
    /// hint, else the extension table's canonical name, else `plaintext`.
    pub open spec fn spec_open_language(self, uri_norm: Seq<char>, hint: Option<Seq<char>>) -> Seq<
        char,
    > {
        match hint {
            Some(h) => h,
            None => match spec_extension_of(uri_norm) {
                Some(e) => match spec_assoc_get(self.ext_langs(), e) {
                    Some(l) => l,
                    None => "plaintext"@,
                },
                None => "plaintext"@,
            },
        }
    }

    /// Build the parameters of the open notification synthesized for a
    /// document read from disk, refusing anything over the inline limit.
    pub fn build_did_open_params(
        &self,
        uri: &str,
        language_hint: Option<&str>,
        file_len: u64,
        text: &str,
    ) -> (r: Result<Json, BridgeError>)
        ensures
            ({
                let norm = spec_normalize_uri(uri@, self.cwd@);
                let hint = match language_hint {
                    Some(h) => Some(h@),
                    None => None,
                };
                match r {
                    Ok(j) => file_len <= MAX_INLINE_DOC_BYTES && j.jv() == spec_did_open_jv(
                        norm,
                        self.spec_open_language(norm, hint),
                        text@,
                    ),
                    Err(e) => file_len > MAX_INLINE_DOC_BYTES && e is DocumentTooLarge && e.msg()
                        == spec_too_large_msg(norm, file_len as nat),
                }
            }),
    {
        let canonical = normalize_uri(uri, self.cwd.as_str());
        if file_len > MAX_INLINE_DOC_BYTES {
            let mut m: String = "Document ".to_owned();
            m.append(canonical.as_str());
            m.append(" is ");
            let lenstr = u64_to_dec_string(file_len);
            m.append(lenstr.as_str());
            m.append(
                " bytes; files larger than 2 MiB are not inlined. Provide a smaller file or send the content explicitly via didOpen.",
            );
            return Err(BridgeError::DocumentTooLarge(m));
        }
        let lid: String = match language_hint {
            Some(h) => h.to_owned(),
            None => match extension_of(canonical.as_str()) {
                Some(e) => match self.language_from_extension(e.as_str()) {
                    Some(l) => l,
                    None => "plaintext".to_owned(),
                },
                None => "plaintext".to_owned(),
            },
        };
        let ghost norm = spec_normalize_uri(uri@, self.cwd@);
        let ghost hint = match language_hint {
            Some(h) => Some(h@),
            None => None::<Seq<char>>,
        };
        let mut inner: Vec<(String, Json)> = Vec::new();
        inner.push(("uri".to_owned(), Json::Str(canonical)));
        inner.push(("languageId".to_owned(), Json::Str(lid)));
        inner.push(("version".to_owned(), Json::Int(1)));
        inner.push(("text".to_owned(), Json::Str(text.to_owned())));
        proof {
            lemma_pairs_jv_props(inner@);
            assert(crate::json::pairs_jv(inner@) =~= seq![
                ("uri"@, Jv::Str(norm)),
                ("languageId"@, Jv::Str(self.spec_open_language(norm, hint))),
                ("version"@, Jv::Int(1)),
                ("text"@, Jv::Str(text@)),
            ]);
        }
        let ghost innerv = crate::json::pairs_jv(inner@);
        let mut outer: Vec<(String, Json)> = Vec::new();
        outer.push(("textDocument".to_owned(), Json::Obj(inner)));
        let r = Json::Obj(outer);
        proof {
            lemma_pairs_jv_props(outer@);
            assert(crate::json::pairs_jv(outer@) =~= seq![("textDocument"@, Jv::Obj(innerv))]);
            assert(r.jv() =~= spec_did_open_jv(norm, self.spec_open_language(norm, hint), text@));
        }
        Ok(r)
    }

    /// The message reported for a document that is not on disk.
    pub fn document_missing_error(&self, uri: &str) -> (r: BridgeError)
        ensures
            r is DocumentMissing,
            r.msg() == "Document "@ + spec_normalize_uri(uri@, self.cwd@)
                + " is not present on disk. Save the buffer first or send your own textDocument/didOpen payload."@,
    {
        let canonical = normalize_uri(uri, self.cwd.as_str());
        let mut m: String = "Document ".to_owned();
        m.append(canonical.as_str());
        m.append(
            " is not present on disk. Save the buffer first or send your own textDocument/didOpen payload.",
        );
        BridgeError::DocumentMissing(m)
    }

    /// A fresh pool: no documents, no helper used yet, the built-in tables
    /// with the configured overrides applied.
    pub fn new(default_cmd: Option<String>, cwd: String, overrides: Option<&Json>) -> (r:
        LanguageServerPool)
        ensures
            r.default_v() == match default_cmd {
                Some(c) => Some(c@),
                None => None,
            },
            r.cwd@ == cwd@,
            r.docs() == Seq::<(Seq<char>, Seq<char>)>::empty(),
            r.last_v() is None,
            ({
                let m = spec_server_maps(
                    match overrides {
                        Some(j) => Some(j.jv()),
                        None => None,
                    },
                );
                r.langs() == m.langs && r.exts() == m.exts && r.ext_langs() == m.ext_langs
            }),
    {
        let maps = ServerMaps::build(overrides);
        let r = LanguageServerPool {
            default_cmd,
            cwd,
            doc_servers: Vec::new(),
            lang_map: maps.lang_map,
            ext_map: maps.ext_map,
            ext_language_map: maps.ext_language_map,
            last_server: None,
        };
        proof {
            assert(al_view(Seq::<(String, String)>::empty()) =~= Seq::<
                (Seq<char>, Seq<char>),
            >::empty());
        }
        r
    }
}

} // verus!

