//! Built-in loaders: choosing a loader by file extension, and rewriting
//! data, JSON, text and null assets into script modules.
use vstd::prelude::*;
use vstd::string::{StringExecFns, StringSliceAdditionalSpecFns};
use vstd::utf8::encode_utf8;

verus! {

/// How the content of a module is to be interpreted.
#[derive(Clone, Copy, Debug, PartialEq, Eq, Structural)]
pub enum Loader {
    DataURI,
    Json,
    Text,
    Null,
    Js,
    Jsx,
    Ts,
    Tsx,
    Css,
}

pub const SLASH: u8 = 47;

pub const DOT: u8 = 46;

/// Position of the last `c` in `b` before `end`, or -1 if there is none.
pub open spec fn last_index_of(b: Seq<u8>, c: u8, end: int) -> int
    decreases end,
{
    if end <= 0 {
        -1
    } else if b[end - 1] == c {
        end - 1
    } else {
        last_index_of(b, c, end - 1)
    }
}

/// Where the final component of path `b[..end]` ends once trailing `/`
/// separators and trailing `.` components are dropped, as path components
/// are read.
pub open spec fn trimmed_end(b: Seq<u8>, end: int) -> int
    decreases end,
{
    if end <= 0 {
        0
    } else if b[end - 1] == SLASH {
        trimmed_end(b, end - 1)
    } else if end >= 2 && b[end - 1] == DOT && b[end - 2] == SLASH {
        trimmed_end(b, end - 2)
    } else {
        end
    }
}

/// Where the extension of path `b` starts and ends: after the last dot of
/// the final component, up to the component's end, when that dot is not
/// the component's first byte and the component is not `..`.
pub open spec fn extension_bounds(b: Seq<u8>) -> Option<(int, int)> {
    let end = trimmed_end(b, b.len() as int);
    let name_start = last_index_of(b, SLASH, end) + 1;
    let dot = last_index_of(b, DOT, end);
    if dot > name_start && b.subrange(name_start, end) != seq![DOT, DOT] {
        Some((dot + 1, end))
    } else {
        None
    }
}

/// The extension of path `b`, if it has one.
pub open spec fn extension(b: Seq<u8>) -> Option<Seq<u8>> {
    match extension_bounds(b) {
        Some((s, e)) => Some(b.subrange(s, e)),
        None => None,
    }
}

fn last_index(b: &[u8], c: u8, end: usize) -> (r: Option<usize>)
    requires
        end <= b@.len(),
    ensures
        match r {
            Some(i) => i as int == last_index_of(b@, c, end as int) && i < end,
            None => last_index_of(b@, c, end as int) == -1,
        },
{
    let mut i: usize = end;
    while i > 0
        invariant
            i <= end <= b@.len(),
            last_index_of(b@, c, end as int) == last_index_of(b@, c, i as int),
        decreases i,
    {
        if b[i - 1] == c {
            return Some(i - 1);
        }
        i -= 1;
    }
    None
}

fn trim_end(b: &[u8]) -> (r: usize)
    ensures
        r as int == trimmed_end(b@, b@.len() as int),
        r <= b@.len(),
{
    let mut e: usize = b.len();
    let mut done = false;
    while e > 0 && !done
        invariant
            e <= b@.len(),
            trimmed_end(b@, b@.len() as int) == trimmed_end(b@, e as int),
            done ==> trimmed_end(b@, e as int) == e,
        decreases e + if done { 0int } else { 1int },
    {
        if b[e - 1] == SLASH {
            e -= 1;
        } else if e >= 2 && b[e - 1] == DOT && b[e - 2] == SLASH {
            e -= 2;
        } else {
            done = true;
        }
    }
    e
}

proof fn lemma_last_index_bounds(b: Seq<u8>, c: u8, end: int)
    requires
        0 <= end <= b.len(),
    ensures
        -1 <= last_index_of(b, c, end) < end,
        last_index_of(b, c, end) >= 0 ==> b[last_index_of(b, c, end)] == c,
    decreases end,
{
    if end > 0 && b[end - 1] != c {
        lemma_last_index_bounds(b, c, end - 1);
    }
}

/// Where the extension of `path` starts and ends, as `extension_bounds` says.
pub fn find_extension(path: &str) -> (r: Option<(usize, usize)>)
    ensures
        r is Some <==> extension_bounds(path.spec_bytes()) is Some,
        r is Some ==> {
            &&& r->Some_0.0 as int == extension_bounds(path.spec_bytes())->Some_0.0
            &&& r->Some_0.1 as int == extension_bounds(path.spec_bytes())->Some_0.1
            &&& r->Some_0.0 <= r->Some_0.1 <= path.spec_bytes().len()
        },
{
    let b = path.as_bytes();
    let end = trim_end(b);
    proof {
        lemma_last_index_bounds(b@, SLASH, end as int);
        lemma_last_index_bounds(b@, DOT, end as int);
    }
    let name_start: usize = match last_index(b, SLASH, end) {
        Some(i) => i + 1,
        None => 0,
    };
    match last_index(b, DOT, end) {
        Some(dot) => {
            if dot > name_start {
                let is_parent = end - name_start == 2 && b[name_start] == DOT && b[name_start
                    + 1] == DOT;
                proof {
                    let name = b@.subrange(name_start as int, end as int);
                    if is_parent {
                        assert(name =~= seq![DOT, DOT]);
                    } else if name.len() == 2 {
                        assert(name[0] == b@[name_start as int]);
                        assert(name[1] == b@[name_start + 1]);
                    }
                }
                if is_parent {
                    None
                } else {
                    Some((dot + 1, end))
                }
            } else {
                None
            }
        },
        None => None,
    }
}

/// Whether `key` equals the bytes of `b` from `start` up to `end`.
fn bytes_match(key: &[u8], b: &[u8], start: usize, end: usize) -> (r: bool)
    requires
        start <= end <= b@.len(),
    ensures
        r == (key@ == b@.subrange(start as int, end as int)),
{
    if key.len() != end - start {
        return false;
    }
    let mut i: usize = 0;
    while i < key.len()
        invariant
            start <= end <= b@.len(),
            key@.len() == end - start,
            i <= key@.len(),
            forall|k: int| 0 <= k < i ==> key@[k] == b@[start + k],
        decreases key@.len() - i,
    {
        if key[i] != b[start + i] {
            assert(b@.subrange(start as int, end as int)[i as int] == b@[start + i]);
            return false;
        }
        i += 1;
    }
    assert(key@ =~= b@.subrange(start as int, end as int));
    true
}

/// The loader that `options` maps extension `ext` to: the first entry whose
/// key is `ext`.
pub open spec fn lookup(options: Seq<(String, Loader)>, ext: Seq<u8>) -> Option<Loader>
    decreases options.len(),
{
    if options.len() == 0 {
        None
    } else if encode_utf8(options[0].0@) == ext {
        Some(options[0].1)
    } else {
        lookup(options.drop_first(), ext)
    }
}

/// No two entries of `options` have the same key.
pub open spec fn keys_unique(options: Seq<(String, Loader)>) -> bool {
    forall|i: int, j: int|
        0 <= i < options.len() && 0 <= j < options.len() && i != j ==> encode_utf8(
            #[trigger] options[i].0@,
        ) != encode_utf8(#[trigger] options[j].0@)
}

/// With unique keys, the lookup of a key gives the loader of its entry,
/// as a map would.
pub proof fn lemma_lookup_of_key(options: Seq<(String, Loader)>, i: int)
    requires
        keys_unique(options),
        0 <= i < options.len(),
    ensures
        lookup(options, encode_utf8(options[i].0@)) == Some(options[i].1),
    decreases options.len(),
{
    let ext = encode_utf8(options[i].0@);
    if i > 0 {
        assert(encode_utf8(options[0].0@) != ext);
        let rest = options.drop_first();
        assert(rest[i - 1] == options[i]);
        assert forall|a: int, b: int|
            0 <= a < rest.len() && 0 <= b < rest.len() && a != b implies encode_utf8(
            #[trigger] rest[a].0@,
        ) != encode_utf8(#[trigger] rest[b].0@) by {
            assert(rest[a] == options[a + 1]);
            assert(rest[b] == options[b + 1]);
        }
        lemma_lookup_of_key(rest, i - 1);
    }
}

/// What the dispatcher hands back for a module: the loader chosen for it.
pub struct LoadedSource {
    pub loader: Option<Loader>,
    pub content: Option<String>,
}

/// Chooses a module's loader from the extension of its id. The options map
/// extensions to loaders; their keys are meant to be unique
/// (`keys_unique`), and the first entry with a key is the one used.
pub struct LoaderDispatcherPlugin {
    pub options: Vec<(String, Loader)>,
}

impl LoaderDispatcherPlugin {
    /// The loader for `id`, or none when `id` has no extension or the
    /// extension is not in the options.
    pub open spec fn spec_load(&self, id: Seq<u8>) -> Option<Loader> {
        match extension(id) {
            Some(ext) => lookup(self.options@, ext),
            None => None,
        }
    }

    pub fn name(&self) -> &'static str {
        "rspack_loader_dispatcher"
    }

    pub fn load(&self, id: &str) -> (r: Option<LoadedSource>)
        ensures
            match self.spec_load(id.spec_bytes()) {
                Some(l) => r == Some(LoadedSource { loader: Some(l), content: None }),
                None => r is None,
            },
    {
        let (start, end) = match find_extension(id) {
            Some(bounds) => bounds,
            None => return None,
        };
        let b = id.as_bytes();
        let ghost ext = b@.subrange(start as int, end as int);
        assert(self.options@.subrange(0, self.options@.len() as int) =~= self.options@);
        let mut i: usize = 0;
        while i < self.options.len()
            invariant
                i <= self.options@.len(),
                start <= end <= b@.len(),
                b@ == id.spec_bytes(),
                extension_bounds(id.spec_bytes()) == Some((start as int, end as int)),
                ext == b@.subrange(start as int, end as int),
                lookup(self.options@, ext) == lookup(
                    self.options@.subrange(i as int, self.options@.len() as int),
                    ext,
                ),
            decreases self.options@.len() - i,
        {
            let key = self.options[i].0.as_str().as_bytes();
            proof {
                let rest = self.options@.subrange(i as int, self.options@.len() as int);
                assert(rest[0] == self.options@[i as int]);
                assert(rest.drop_first() =~= self.options@.subrange(
                    i + 1,
                    self.options@.len() as int,
                ));
            }
            assert(key@ == encode_utf8(self.options@[i as int].0@));
            if bytes_match(key, b, start, end) {
                proof {
                    let rest = self.options@.subrange(i as int, self.options@.len() as int);
                    assert(encode_utf8(rest[0].0@) == ext);
                    assert(lookup(rest, ext) == Some(rest[0].1));
                    assert(extension(id.spec_bytes()) == Some(ext));
                }
                return Some(LoadedSource { loader: Some(self.options[i].1), content: None });
            }
            i += 1;
        }
        None
    }
}

/// The base64 text of `bytes` in the standard, padded alphabet.
pub uninterp spec fn base64_of(bytes: Seq<u8>) -> Seq<char>;

/// The JSON string literal that denotes `s`.
pub uninterp spec fn json_string_of(s: Seq<char>) -> Seq<char>;

/// Relies on base64::encode (standard alphabet, padded): the text depends
/// on the bytes alone.
#[verifier::external_body]
fn base64_encode(bytes: &[u8]) -> (r: String)
    ensures
        r@ == base64_of(bytes@),
{
    base64::encode(bytes)
}

/// Relies on serde_json::to_string applied to a string: a JSON string
/// literal that depends on the characters alone. A string is written by
/// `format_escaped_str` into a `Vec`, which cannot fail, so there is always
/// a result.
#[verifier::external_body]
fn json_quote(s: &str) -> (r: Option<String>)
    ensures
        r is Some,
        r->Some_0@ == json_string_of(s@),
{
    serde_json::to_string(s).ok()
}

/// The MIME type a data asset with extension `ext` is embedded with
/// (the extensions are spelled in ASCII codes: png, jpg, jpeg, gif, svg, webp).
pub open spec fn mime_of(ext: Seq<u8>) -> Seq<char> {
    if ext == seq![112u8, 110, 103] {
        "image/png"@
    } else if ext == seq![106u8, 112, 103] || ext == seq![106u8, 112, 101, 103] {
        "image/jpeg"@
    } else if ext == seq![103u8, 105, 102] {
        "image/gif"@
    } else if ext == seq![115u8, 118, 103] {
        "image/svg+xml"@
    } else if ext == seq![119u8, 101, 98, 112] {
        "image/webp"@
    } else {
        "application/octet-stream"@
    }
}

/// The MIME type for the extension of `path` from `start` up to `end`.
pub fn guess_mime_types_ext(path: &[u8], start: usize, end: usize) -> (r: String)
    requires
        start <= end <= path@.len(),
    ensures
        r@ == mime_of(path@.subrange(start as int, end as int)),
{
    if bytes_match(vec![112u8, 110, 103].as_slice(), path, start, end) {
        String::from_str("image/png")
    } else if bytes_match(vec![106u8, 112, 103].as_slice(), path, start, end) || bytes_match(
        vec![106u8, 112, 101, 103].as_slice(),
        path,
        start,
        end,
    ) {
        String::from_str("image/jpeg")
    } else if bytes_match(vec![103u8, 105, 102].as_slice(), path, start, end) {
        String::from_str("image/gif")
    } else if bytes_match(vec![115u8, 118, 103].as_slice(), path, start, end) {
        String::from_str("image/svg+xml")
    } else if bytes_match(vec![119u8, 101, 98, 112].as_slice(), path, start, end) {
        String::from_str("image/webp")
    } else {
        String::from_str("application/octet-stream")
    }
}

/// The module that default-exports the data URI of an asset.
pub open spec fn data_uri_text(mime: Seq<char>, encoded: Seq<char>) -> Seq<char> {
    "var img = \"data:"@ + mime + ";base64,"@ + encoded + "\";\n          export default img;"@
}

/// The module that default-exports the script expression `value`.
pub open spec fn default_export_text(value: Seq<char>) -> Seq<char> {
    "\n          export default "@ + value + "\n          "@
}

/// The module that default-exports an empty object.
pub open spec fn null_text() -> Seq<char> {
    "\n        export default {}\n        "@
}

pub fn data_uri_module(mime: &str, encoded: &str) -> (r: String)
    ensures
        r@ == data_uri_text(mime@, encoded@),
{
    let mut out = String::from_str("var img = \"data:");
    out.append(mime);
    out.append(";base64,");
    out.append(encoded);
    out.append("\";\n          export default img;");
    out
}

pub fn default_export_module(value: &str) -> (r: String)
    ensures
        r@ == default_export_text(value@),
{
    let mut out = String::from_str("\n          export default ");
    out.append(value);
    out.append("\n          ");
    out
}

pub fn null_module() -> (r: String)
    ensures
        r@ == null_text(),
{
    String::from_str("\n        export default {}\n        ")
}

/// Why a built-in loader could not rewrite a module.
#[derive(Clone, Copy, Debug, PartialEq, Eq, Structural)]
pub enum TransformError {
    /// A data asset whose path has no extension to take a MIME type from.
    MissingExtension,
}

pub const PLUGIN_NAME: &'static str = "rspack_loader_plugin";

/// Rewrites data, JSON, text and null assets into script modules.
pub struct LoaderInterpreterPlugin;

impl LoaderInterpreterPlugin {
    pub fn name(&self) -> &'static str {
        PLUGIN_NAME
    }

    /// Rewrites `raw`, the content of module `uri`, as its loader says, and
    /// switches a built-in asset loader to `Js`; any other loader keeps
    /// `raw` as it is.
    pub fn transform_raw(&self, uri: &str, loader: &mut Loader, raw: String) -> (r: Result<
        String,
        TransformError,
    >)
        ensures
            match *old(loader) {
                Loader::DataURI => match extension(uri.spec_bytes()) {
                    Some(ext) => {
                        &&& r is Ok
                        &&& r->Ok_0@ == data_uri_text(mime_of(ext), base64_of(encode_utf8(raw@)))
                        &&& *final(loader) == Loader::Js
                    },
                    None => r == Err::<String, TransformError>(TransformError::MissingExtension)
                        && *final(loader) == Loader::DataURI,
                },
                Loader::Json => {
                    &&& r is Ok
                    &&& r->Ok_0@ == default_export_text(raw@)
                    &&& *final(loader) == Loader::Js
                },
                Loader::Text => {
                    &&& r is Ok
                    &&& r->Ok_0@ == default_export_text(json_string_of(raw@))
                    &&& *final(loader) == Loader::Js
                },
                Loader::Null => {
                    &&& r is Ok
                    &&& r->Ok_0@ == null_text()
                    &&& *final(loader) == Loader::Js
                },
                _ => {
                    &&& r is Ok
                    &&& r->Ok_0@ == raw@
                    &&& *final(loader) == *old(loader)
                },
            },
    {
        match *loader {
            Loader::DataURI => {
                let (start, end) = match find_extension(uri) {
                    Some(bounds) => bounds,
                    None => return Err(TransformError::MissingExtension),
                };
                *loader = Loader::Js;
                let mime = guess_mime_types_ext(uri.as_bytes(), start, end);
                let encoded = base64_encode(raw.as_str().as_bytes());
                Ok(data_uri_module(mime.as_str(), encoded.as_str()))
            },
            Loader::Json => {
                *loader = Loader::Js;
                Ok(default_export_module(raw.as_str()))
            },
            Loader::Text => {
                *loader = Loader::Js;
                let data = json_quote(raw.as_str()).unwrap();
                Ok(default_export_module(data.as_str()))
            },
            Loader::Null => {
                *loader = Loader::Js;
                Ok(null_module())
            },
            _ => Ok(raw),
        }
    }
}

} // verus!
