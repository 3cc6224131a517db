//! Package metadata and asset handling: the manifest, base64 data URLs for
//! packaged images, and the placeholder page of a new package.

use vstd::prelude::*;
use crate::attrs::{attrs_get, attrs_insert, entry_get, entry_insert};
use crate::node::{Node, NodeKind, NodeV};
use crate::store::{doc_tables, head_spec, now, nodes_view, utc_stamp, Store};
use crate::text::{decimal, decimal_string, owned, push_char, str_eq, strs_view};
use crate::id::{sha256_hex, sha256_hex_of};

verus! {

/// The base64 digit of `v < 64` (RFC 4648 standard alphabet).
pub open spec fn b64_digit(v: nat) -> char {
    if v < 26 {
        (65 + v) as char
    } else if v < 52 {
        (97 + v - 26) as char
    } else if v < 62 {
        (48 + v - 52) as char
    } else if v == 62 {
        '+'
    } else {
        '/'
    }
}

/// Standard base64 with `=` padding.
pub open spec fn b64_spec(s: Seq<u8>) -> Seq<char>
    decreases s.len(),
{
    if s.len() == 0 {
        Seq::empty()
    } else if s.len() == 1 {
        seq![b64_digit(s[0] as nat / 4), b64_digit((s[0] as nat % 4) * 16), '=', '=']
    } else if s.len() == 2 {
        seq![
            b64_digit(s[0] as nat / 4),
            b64_digit((s[0] as nat % 4) * 16 + s[1] as nat / 16),
            b64_digit((s[1] as nat % 16) * 4),
            '=',
        ]
    } else {
        seq![
            b64_digit(s[0] as nat / 4),
            b64_digit((s[0] as nat % 4) * 16 + s[1] as nat / 16),
            b64_digit((s[1] as nat % 16) * 4 + s[2] as nat / 64),
            b64_digit(s[2] as nat % 64),
        ] + b64_spec(s.skip(3))
    }
}

fn digit(v: u8) -> (c: char)
    requires
        v < 64,
    ensures
        c == b64_digit(v as nat),
{
    if v < 26 {
        (65 + v) as char
    } else if v < 52 {
        (97 + v - 26) as char
    } else if v < 62 {
        (48 + v - 52) as char
    } else if v == 62 {
        '+'
    } else {
        '/'
    }
}

/// Standard base64 encoding of `bytes`, padded with `=`.
pub fn base64(bytes: &[u8]) -> (r: String)
    ensures
        r@ == b64_spec(bytes@),
{
    let n = bytes.len();
    let mut out = String::new();
    let mut i: usize = 0;
    assert(bytes@.skip(0) =~= bytes@);
    while i < n
        invariant
            n == bytes@.len(),
            i <= n,
            out@ + b64_spec(bytes@.skip(i as int)) == b64_spec(bytes@),
        decreases n - i,
    {
        let ghost rest = bytes@.skip(i as int);
        let ghost o0 = out@;
        let a = bytes[i];
        assert(rest[0] == a);
        push_char(&mut out, digit(a / 4));
        if n - i == 1 {
            push_char(&mut out, digit((a % 4) * 16));
            push_char(&mut out, '=');
            push_char(&mut out, '=');
            assert(out@ =~= o0 + b64_spec(rest));
            assert(bytes@.skip(n as int) =~= Seq::<u8>::empty());
            i = n;
        } else {
            let b = bytes[i + 1];
            assert(rest[1] == b);
            push_char(&mut out, digit((a % 4) * 16 + b / 16));
            if n - i == 2 {
                push_char(&mut out, digit((b % 16) * 4));
                push_char(&mut out, '=');
                assert(out@ =~= o0 + b64_spec(rest));
                assert(bytes@.skip(n as int) =~= Seq::<u8>::empty());
                i = n;
            } else {
                let c = bytes[i + 2];
                assert(rest[2] == c);
                push_char(&mut out, digit((b % 16) * 4 + c / 64));
                push_char(&mut out, digit(c % 64));
                assert(rest.skip(3) =~= bytes@.skip(i + 3));
                assert(out@ + b64_spec(bytes@.skip(i + 3)) =~= o0 + b64_spec(rest));
                i = i + 3;
            }
        }
    }
    assert(bytes@.skip(n as int) =~= Seq::<u8>::empty());
    assert(out@ =~= out@ + b64_spec(bytes@.skip(n as int)));
    out
}

/// ASCII lower case of `s`.
pub open spec fn ascii_lower(s: Seq<char>) -> Seq<char> {
    s.map_values(|c: char| if 'A' <= c && c <= 'Z' { ((c as u32) + 32) as char } else { c })
}

/// The image MIME type of a file extension, compared case-insensitively.
pub open spec fn mime_of(ext: Seq<char>) -> Option<Seq<char>> {
    let e = ascii_lower(ext);
    if e == "png"@ {
        Some("image/png"@)
    } else if e == "jpg"@ || e == "jpeg"@ {
        Some("image/jpeg"@)
    } else if e == "gif"@ {
        Some("image/gif"@)
    } else if e == "webp"@ {
        Some("image/webp"@)
    } else if e == "svg"@ {
        Some("image/svg+xml"@)
    } else if e == "bmp"@ {
        Some("image/bmp"@)
    } else {
        None
    }
}

/// `str::to_ascii_lowercase`.
pub fn lower_ascii(s: &str) -> (r: String)
    ensures
        r@ == ascii_lower(s@),
{
    let mut out = String::new();
    for c in it: s.chars()
        invariant
            it.seq() == s@,
            out@ == ascii_lower(s@.take(it.index@ as int)),
    {
        proof {
            assert(s@.take(it.index@ + 1).drop_last() =~= s@.take(it.index@ as int));
        }
        let ghost o0 = out@;
        if 'A' <= c && c <= 'Z' {
            push_char(&mut out, ((c as u32) + 32) as u8 as char);
        } else {
            push_char(&mut out, c);
        }
        assert(out@ =~= ascii_lower(s@.take(it.index@ + 1)));
    }
    assert(s@.take(s@.len() as int) =~= s@);
    out
}

/// The MIME type of an image file extension; `None` when unsupported.
pub fn image_mime(ext: &str) -> (r: Option<&'static str>)
    ensures
        match r {
            Some(m) => mime_of(ext@) == Some(m@),
            None => mime_of(ext@) is None,
        },
{
    let e = lower_ascii(ext);
    let e = e.as_str();
    if str_eq(e, "png") {
        Some("image/png")
    } else if str_eq(e, "jpg") || str_eq(e, "jpeg") {
        Some("image/jpeg")
    } else if str_eq(e, "gif") {
        Some("image/gif")
    } else if str_eq(e, "webp") {
        Some("image/webp")
    } else if str_eq(e, "svg") {
        Some("image/svg+xml")
    } else if str_eq(e, "bmp") {
        Some("image/bmp")
    } else {
        None
    }
}

/// The page a new package starts with: the title as `<title>` and as the
/// root heading.
pub open spec fn minimal_html_spec(title: Seq<char>) -> Seq<char> {
    "<!DOCTYPE html>\n<html>\n<head><meta charset=\"utf-8\"><title>"@ + title
        + "</title></head>\n<body>\n<h1 id=\"root\">"@ + title + "</h1>\n</body>\n</html>\n"@
}

/// The page a new package starts with.
pub fn minimal_html(title: &str) -> (r: String)
    ensures
        r@ == minimal_html_spec(title@),
{
    let mut s = owned("<!DOCTYPE html>\n<html>\n<head><meta charset=\"utf-8\"><title>");
    s.append(title);
    s.append("</title></head>\n<body>\n<h1 id=\"root\">");
    s.append(title);
    s.append("</h1>\n</body>\n</html>\n");
    s
}

/// `data:{mime};base64,...` of `bytes`.
pub fn data_url_of(mime: &str, bytes: &[u8]) -> (r: String)
    ensures
        r@ == data_url(mime@, bytes@),
{
    let mut url = owned("data:");
    url.append(mime);
    url.append(";base64,");
    url.append(base64(bytes).as_str());
    url
}

/// The largest image file the editor takes into a package (20 MiB).
pub const MAX_IMAGE_BYTES: u64 = 20971520;

/// An image file of `len` bytes can be imported only when it is a regular
/// file of at most [`MAX_IMAGE_BYTES`].
pub fn check_image_file(is_file: bool, len: u64) -> (r: Result<(), String>)
    ensures
        is_file && len <= MAX_IMAGE_BYTES <==> r is Ok,
        r matches Err(m) ==> m@ == "image must be a file no larger than 20 MiB"@,
{
    if !is_file || len > MAX_IMAGE_BYTES {
        let mut m = owned("image must be a file no larger than ");
        m.append(decimal_string(MAX_IMAGE_BYTES / 1024 / 1024).as_str());
        m.append(" MiB");
        proof {
            reveal_strlit("image must be a file no larger than ");
            reveal_strlit(" MiB");
            reveal_strlit("image must be a file no larger than 20 MiB");
            reveal_strlit("20");
            assert(decimal(2) =~= seq!['2']);
            assert(decimal(20) =~= decimal(2).push('0'));
            assert(decimal(20) =~= "20"@);
        }
        return Err(m);
    }
    Ok(())
}

/// An image copied into a package: where it is kept and how it is shown.
#[derive(Debug)]
pub struct ImageAsset {
    /// `assets/` + the content hash + `.` + the lower-cased extension.
    pub path: String,
    pub data_url: String,
}

/// The package path of an image with extension `ext` and content `bytes`.
pub open spec fn image_asset_path(ext: Seq<char>, bytes: Seq<u8>) -> Seq<char> {
    "assets/"@ + sha256_hex_of(bytes) + "."@ + ascii_lower(ext)
}

/// The asset for an image file with extension `ext` and content `bytes`;
/// an extension that is not a supported image type is refused.
pub fn image_asset(ext: &str, bytes: &[u8]) -> (r: Result<ImageAsset, String>)
    ensures
        match mime_of(ext@) {
            Some(mime) => r matches Ok(a) && a.path@ == image_asset_path(ext@, bytes@)
                && a.data_url@ == data_url(mime, bytes@),
            None => r matches Err(m) && m@ == "supported image types: png, jpg, gif, webp, svg, bmp"@,
        },
{
    let mime = match image_mime(ext) {
        Some(m) => m,
        None => return Err(owned("supported image types: png, jpg, gif, webp, svg, bmp")),
    };
    let mut path = owned("assets/");
    path.append(sha256_hex(bytes).as_str());
    path.append(".");
    path.append(lower_ascii(ext).as_str());
    Ok(ImageAsset { path, data_url: data_url_of(mime, bytes) })
}

/// A path the editor may read an asset from: inside `assets/`, never
/// climbing out with `..`.
pub fn valid_asset_path(path: &str) -> (r: bool)
    ensures
        r == (path@.len() >= 7 && path@.take(7) == "assets/"@ && !has_dotdot(path@)),
{
    let len = path.unicode_len();
    if len < 7 || !str_eq(path.substring_char(0, 7), "assets/") {
        proof {
            reveal_strlit("assets/");
        }
        return false;
    }
    let mut i: usize = 0;
    while i < len
        invariant
            len == path@.len(),
            i <= len,
            forall|j: int| 0 <= j < i && j + 1 < len ==> !(path@[j] == '.' && #[trigger] path@[j + 1] == '.'),
        decreases len - i,
    {
        if i + 1 < len && path.get_char(i) == '.' && path.get_char(i + 1) == '.' {
            assert(path@[i as int] == '.' && path@[i + 1] == '.');
            return false;
        }
        i = i + 1;
    }
    proof {
        reveal_strlit("assets/");
    }
    true
}

/// An asset file of the package: its package-relative path, the path's
/// extension, and its bytes, or `None` where the file could not be read.
pub struct AssetFile {
    pub source: String,
    pub extension: String,
    pub bytes: Option<Vec<u8>>,
}

/// Why an image could not be inlined.
#[derive(Debug)]
pub enum AssetError {
    /// The extension (lower-cased) is not a supported image type.
    Unsupported(String),
    /// No file was supplied for this package path.
    Missing(String),
}

pub enum AssetErrorV {
    Unsupported(Seq<char>),
    Missing(Seq<char>),
}

impl View for AssetError {
    type V = AssetErrorV;

    open spec fn view(&self) -> AssetErrorV {
        match self {
            AssetError::Unsupported(e) => AssetErrorV::Unsupported(e@),
            AssetError::Missing(p) => AssetErrorV::Missing(p@),
        }
    }
}

impl AssetError {
    pub fn message(&self) -> (r: String)
        ensures
            r@ == match self@ {
                AssetErrorV::Unsupported(e) => "unsupported image extension: "@ + e,
                AssetErrorV::Missing(p) => "asset not found: "@ + p,
            },
    {
        match self {
            AssetError::Unsupported(e) => {
                let mut m = owned("unsupported image extension: ");
                m.append(e.as_str());
                m
            },
            AssetError::Missing(p) => {
                let mut m = owned("asset not found: ");
                m.append(p.as_str());
                m
            },
        }
    }
}

pub open spec fn has_dotdot(s: Seq<char>) -> bool {
    exists|i: int| 0 <= i < s.len() - 1 && s[i] == '.' && #[trigger] s[i + 1] == '.'
}

/// The image source of `n`: its `src` attribute, else its content.
pub open spec fn image_source(n: NodeV) -> Seq<char> {
    match entry_get(n.attributes, "src"@) {
        Some(v) => v,
        None => n.content,
    }
}

/// The package path an image node shows, when it is one inside `assets/`
/// that does not climb out with `..`.
pub open spec fn packaged_source(n: NodeV) -> Option<Seq<char>> {
    let src = image_source(n);
    if n.kind == NodeKind::Image && src.len() >= 7 && src.take(7) == "assets/"@ && !has_dotdot(src) {
        Some(src)
    } else {
        None
    }
}

pub open spec fn data_url(mime: Seq<char>, bytes: Seq<u8>) -> Seq<char> {
    "data:"@ + mime + ";base64,"@ + b64_spec(bytes)
}

pub open spec fn file_is(source: Seq<char>) -> spec_fn(AssetFile) -> bool {
    |f: AssetFile| f.source@ == source
}

/// Node `n` with its packaged image inlined from `files`, or why not.
pub open spec fn inline_one(n: NodeV, files: Seq<AssetFile>) -> Result<NodeV, AssetErrorV> {
    match packaged_source(n) {
        None => Ok(n),
        Some(src) => {
            let p = crate::store::first_pos(files, file_is(src));
            if p < 0 {
                Err(AssetErrorV::Missing(src))
            } else {
                match mime_of(files[p].extension@) {
                    None => Err(AssetErrorV::Unsupported(ascii_lower(files[p].extension@))),
                    Some(m) => match files[p].bytes {
                        None => Err(AssetErrorV::Missing(src)),
                        Some(b) => {
                            let url = data_url(m, b@);
                            Ok(NodeV { content: url, attributes: entry_insert(n.attributes, "src"@, url), ..n })
                        },
                    },
                }
            }
        },
    }
}

/// The first `k` nodes inlined in order: the updated prefix, or the first
/// refusal with its position.
pub open spec fn inline_prefix(nodes: Seq<NodeV>, files: Seq<AssetFile>, k: nat) -> Result<Seq<NodeV>, (nat, AssetErrorV)>
    decreases k,
{
    if k == 0 {
        Ok(Seq::empty())
    } else {
        match inline_prefix(nodes, files, (k - 1) as nat) {
            Err(e) => Err(e),
            Ok(done) => match inline_one(nodes[k - 1], files) {
                Err(e) => Err(((k - 1) as nat, e)),
                Ok(n) => Ok(done.push(n)),
            },
        }
    }
}

pub proof fn lemma_inline_err(nodes: Seq<NodeV>, files: Seq<AssetFile>, i: nat, k: nat)
    requires
        i <= k,
        inline_prefix(nodes, files, i) is Err,
    ensures
        inline_prefix(nodes, files, k) == inline_prefix(nodes, files, i),
    decreases k,
{
    if k > i {
        lemma_inline_err(nodes, files, i, (k - 1) as nat);
    }
}

fn find_file(files: &Vec<AssetFile>, src: &str) -> (r: Option<usize>)
    ensures
        match r {
            Some(p) => p < files@.len() && p as int == crate::store::first_pos(files@, file_is(src@)),
            None => crate::store::first_pos(files@, file_is(src@)) < 0,
        },
{
    proof {
        crate::store::lemma_first_pos(files@, file_is(src@));
    }
    let mut p: usize = 0;
    while p < files.len()
        invariant
            p <= files@.len(),
            forall|j: int| 0 <= j < p ==> !file_is(src@)(#[trigger] files@[j]),
        decreases files@.len() - p,
    {
        if str_eq(files[p].source.as_str(), src) {
            proof {
                crate::store::lemma_first_pos_at(files@, file_is(src@), p as int);
            }
            return Some(p);
        }
        p = p + 1;
    }
    None
}

fn packaged_source_of(n: &Node) -> (r: Option<String>)
    ensures
        crate::text::opt_str_view(r) == packaged_source(n@),
{
    if !matches!(n.kind, NodeKind::Image) {
        return None;
    }
    let src = match attrs_get(&n.attributes, "src") {
        Some(v) => v,
        None => n.content.clone(),
    };
    assert(src@ == image_source(n@));
    let len = src.unicode_len();
    if len < 7 || !str_eq(src.as_str().substring_char(0, 7), "assets/") {
        return None;
    }
    let mut i: usize = 0;
    while i < len
        invariant
            len == src@.len(),
            src@ == image_source(n@),
            n@.kind == NodeKind::Image,
            i <= len,
            forall|j: int| 0 <= j < i && j + 1 < len ==> !(src@[j] == '.' && #[trigger] src@[j + 1] == '.'),
        decreases len - i,
    {
        if i + 1 < len && src.as_str().get_char(i) == '.' && src.as_str().get_char(i + 1) == '.' {
            assert(src@[i as int] == '.' && src@[i + 1] == '.');
            assert(has_dotdot(src@));
            return None;
        }
        i = i + 1;
    }
    Some(src)
}

/// The package paths of the images `inline_image_assets` would inline, in
/// node order.
pub fn asset_sources(nodes: &Vec<Node>) -> (r: Vec<String>)
    ensures
        strs_view(r@) == nodes_view(nodes@).filter(|n: NodeV| packaged_source(n) is Some).map_values(|n: NodeV| packaged_source(n)->0),
{
    let ghost nv = nodes_view(nodes@);
    let mut out: Vec<String> = Vec::new();
    let mut i: usize = 0;
    while i < nodes.len()
        invariant
            i <= nodes@.len(),
            nv == nodes_view(nodes@),
            strs_view(out@) == nv.take(i as int).filter(|n: NodeV| packaged_source(n) is Some).map_values(|n: NodeV| packaged_source(n)->0),
        decreases nodes@.len() - i,
    {
        proof {
            assert(nv[i as int] == nodes@[i as int]@);
            assert(nv.take(i + 1).drop_last() =~= nv.take(i as int));
            reveal(Seq::filter);
        }
        let ghost o0 = strs_view(out@);
        if let Some(src) = packaged_source_of(&nodes[i]) {
            out.push(src);
            assert(strs_view(out@) =~= o0.push(packaged_source(nv[i as int])->0));
            assert(nv.take(i + 1).filter(|n: NodeV| packaged_source(n) is Some) =~= nv.take(i as int).filter(|n: NodeV| packaged_source(n) is Some).push(nv[i as int]));
        }
        assert(strs_view(out@) =~= nv.take(i + 1).filter(|n: NodeV| packaged_source(n) is Some).map_values(|n: NodeV| packaged_source(n)->0));
        i = i + 1;
    }
    assert(nv.take(nv.len() as int) =~= nv);
    out
}

/// Replace packaged image sources by data URLs (`data:{mime};base64,...`)
/// in the content and the `src` attribute, node by node. Stops at the
/// first image whose extension is unsupported or, that checked first,
/// whose file is missing or unread; the nodes before it stay inlined.
pub fn inline_image_assets(nodes: &mut Vec<Node>, files: &Vec<AssetFile>) -> (r: Result<(), AssetError>)
    ensures
        final(nodes)@.len() == old(nodes)@.len(),
        match inline_prefix(nodes_view(old(nodes)@), files@, old(nodes)@.len()) {
            Ok(all) => r is Ok && nodes_view(final(nodes)@) == all,
            Err((k, e)) => r matches Err(e2) && e2@ == e
                && nodes_view(final(nodes)@) == inline_prefix(nodes_view(old(nodes)@), files@, k)->Ok_0
                    + nodes_view(old(nodes)@).skip(k as int),
        },
{
    let ghost nv = nodes_view(nodes@);
    let n = nodes.len();
    let mut i: usize = 0;
    assert(nv.skip(0) =~= nv);
    while i < n
        invariant
            n == nodes@.len(),
            n == nv.len(),
            nv == nodes_view(old(nodes)@),
            i <= n,
            inline_prefix(nv, files@, i as nat) is Ok,
            nodes_view(nodes@) == inline_prefix(nv, files@, i as nat)->Ok_0 + nv.skip(i as int),
            inline_prefix(nv, files@, i as nat)->Ok_0.len() == i,
        decreases n - i,
    {
        let ghost done = inline_prefix(nv, files@, i as nat)->Ok_0;
        assert(nodes_view(nodes@)[i as int] == nv[i as int]);
        assert(nodes@[i as int]@ == nv[i as int]);
        if let Some(src) = packaged_source_of(&nodes[i]) {
            let p = match find_file(files, src.as_str()) {
                Some(p) => p,
                None => {
                    proof {
                        assert(inline_prefix(nv, files@, (i + 1) as nat) is Err);
                        lemma_inline_err(nv, files@, (i + 1) as nat, n as nat);
                    }
                    return Err(AssetError::Missing(src));
                },
            };
            let f = &files[p];
            let mime = match image_mime(f.extension.as_str()) {
                Some(m) => m,
                None => {
                    proof {
                        assert(inline_prefix(nv, files@, (i + 1) as nat) is Err);
                        lemma_inline_err(nv, files@, (i + 1) as nat, n as nat);
                    }
                    return Err(AssetError::Unsupported(lower_ascii(f.extension.as_str())));
                },
            };
            let bytes = match &f.bytes {
                Some(b) => b,
                None => {
                    proof {
                        assert(inline_prefix(nv, files@, (i + 1) as nat) is Err);
                        lemma_inline_err(nv, files@, (i + 1) as nat, n as nat);
                    }
                    return Err(AssetError::Missing(src));
                },
            };
            let mut url = owned("data:");
            url.append(mime);
            url.append(";base64,");
            url.append(base64(bytes.as_slice()).as_str());
            let mut node = nodes[i].clone();
            node.content = url.clone();
            attrs_insert(&mut node.attributes, owned("src"), url);
            let ghost nn = node@;
            let ghost before = nodes@;
            nodes.set(i, node);
            proof {
                assert(nodes_view(nodes@) =~= nodes_view(before).update(i as int, nn));
                assert(inline_one(nv[i as int], files@) == Ok::<NodeV, AssetErrorV>(nn));
                assert(nodes_view(nodes@) =~= done.push(nn) + nv.skip(i + 1));
            }
        } else {
            proof {
                assert(inline_one(nv[i as int], files@) == Ok::<NodeV, AssetErrorV>(nv[i as int]));
                assert(nodes_view(nodes@) =~= done.push(nv[i as int]) + nv.skip(i + 1));
            }
        }
        i = i + 1;
    }
    assert(nv.skip(n as int) =~= Seq::<NodeV>::empty());
    assert(nodes_view(nodes@) =~= inline_prefix(nv, files@, n as nat)->Ok_0);
    Ok(())
}

/// The document a package holds.
pub struct ManifestDocument {
    pub id: String,
    pub title: String,
}

/// Where the package keeps its store.
pub struct ManifestStorage {
    pub kind: String,
    pub path: String,
}

/// The package's current revision.
pub struct ManifestRevision {
    pub current: String,
}

/// The package manifest: identity, entry point, storage and capabilities.
/// The schema and representation tables are sorted by name, names unique.
pub struct Manifest {
    pub format: String,
    pub version: String,
    pub document: ManifestDocument,
    pub entry: String,
    pub storage: ManifestStorage,
    pub revision: ManifestRevision,
    pub created_at: String,
    pub updated_at: String,
    pub schemas: Vec<(String, String)>,
    pub representations: Vec<(String, String)>,
    pub capabilities: Vec<String>,
}

pub struct ManifestV {
    pub format: Seq<char>,
    pub version: Seq<char>,
    pub doc_id: Seq<char>,
    pub title: Seq<char>,
    pub entry: Seq<char>,
    pub storage_kind: Seq<char>,
    pub storage_path: Seq<char>,
    pub current: Seq<char>,
    pub created_at: Seq<char>,
    pub updated_at: Seq<char>,
    pub schemas: Seq<(Seq<char>, Seq<char>)>,
    pub representations: Seq<(Seq<char>, Seq<char>)>,
    pub capabilities: Seq<Seq<char>>,
}

pub open spec fn pairs_view(v: Seq<(String, String)>) -> Seq<(Seq<char>, Seq<char>)> {
    v.map_values(|p: (String, String)| (p.0@, p.1@))
}

impl View for Manifest {
    type V = ManifestV;

    open spec fn view(&self) -> ManifestV {
        ManifestV {
            format: self.format@,
            version: self.version@,
            doc_id: self.document.id@,
            title: self.document.title@,
            entry: self.entry@,
            storage_kind: self.storage.kind@,
            storage_path: self.storage.path@,
            current: self.revision.current@,
            created_at: self.created_at@,
            updated_at: self.updated_at@,
            schemas: pairs_view(self.schemas@),
            representations: pairs_view(self.representations@),
            capabilities: strs_view(self.capabilities@),
        }
    }
}

/// `s` with `k` mapped to `v`, names kept in ascending text order.
pub open spec fn sorted_put(s: Seq<(Seq<char>, Seq<char>)>, k: Seq<char>, v: Seq<char>) -> Seq<(Seq<char>, Seq<char>)>
    decreases s.len(),
{
    if s.len() == 0 {
        seq![(k, v)]
    } else if s[0].0 == k {
        seq![(k, v)] + s.drop_first()
    } else if crate::order::text_lt(k, s[0].0) {
        seq![(k, v)] + s
    } else {
        seq![s[0]] + sorted_put(s.drop_first(), k, v)
    }
}

/// `s` with `c` added at the end unless present.
pub open spec fn add_capability(s: Seq<Seq<char>>, c: Seq<char>) -> Seq<Seq<char>> {
    if s.contains(c) { s } else { s.push(c) }
}

pub open spec fn default_schemas() -> Seq<(Seq<char>, Seq<char>)> {
    seq![("document"@, "schemas/document.schema.json"@), ("operation"@, "schemas/operation.schema.json"@)]
}

pub open spec fn default_capabilities() -> Seq<Seq<char>> {
    seq!["nodes"@, "relations"@, "operations"@, "revisions"@, "extensions"@]
}

/// Put `k` -> `v` into the ascending table `m`.
fn put_sorted(m: &mut Vec<(String, String)>, k: &str, v: &str)
    ensures
        pairs_view(final(m)@) == sorted_put(pairs_view(old(m)@), k@, v@),
{
    let ghost s0 = pairs_view(m@);
    let mut i: usize = 0;
    assert(s0.skip(0) =~= s0);
    assert(s0.take(0) + sorted_put(s0.skip(0), k@, v@) =~= sorted_put(s0, k@, v@));
    while i < m.len()
        invariant
            i <= m@.len(),
            s0 == pairs_view(m@),
            pairs_view(old(m)@) == s0,
            s0.take(i as int) + sorted_put(s0.skip(i as int), k@, v@) == sorted_put(s0, k@, v@),
        decreases m@.len() - i,
    {
        let ghost rest = s0.skip(i as int);
        assert(rest[0] == (m@[i as int].0@, m@[i as int].1@));
        if str_eq(m[i].0.as_str(), k) {
            m.set(i, (owned(k), owned(v)));
            assert(pairs_view(m@) =~= s0.take(i as int) + sorted_put(rest, k@, v@));
            return;
        }
        if crate::order::text_less(k, m[i].0.as_str()) {
            m.insert(i, (owned(k), owned(v)));
            assert(pairs_view(m@) =~= s0.take(i as int) + sorted_put(rest, k@, v@));
            return;
        }
        assert(rest.drop_first() =~= s0.skip(i + 1));
        assert(s0.take(i + 1) + sorted_put(s0.skip(i + 1), k@, v@) =~= s0.take(i as int) + sorted_put(rest, k@, v@));
        i = i + 1;
    }
    m.push((owned(k), owned(v)));
    assert(s0.skip(i as int) =~= Seq::<(Seq<char>, Seq<char>)>::empty());
    assert(s0.take(i as int) =~= s0);
    assert(pairs_view(m@) =~= sorted_put(s0, k@, v@));
}

fn add_capability_to(caps: &mut Vec<String>, c: &str)
    ensures
        strs_view(final(caps)@) == add_capability(strs_view(old(caps)@), c@),
{
    if crate::branching::holds(caps, c) {
        return;
    }
    caps.push(owned(c));
    assert(strs_view(caps@) =~= strs_view(old(caps)@).push(c@));
}

impl Manifest {
    /// A v0.2 manifest for a document at revision `current_rev`, stamped now.
    pub fn new(doc_id: &str, title: &str, current_rev: &str) -> (r: Manifest)
        ensures
            r@.format == "aidoc"@,
            r@.version == "0.2"@,
            r@.doc_id == doc_id@,
            r@.title == title@,
            r@.entry == "document/document.json"@,
            r@.storage_kind == "sqlite"@,
            r@.storage_path == ".internal/document.db"@,
            r@.current == current_rev@,
            r@.created_at == r@.updated_at,
            r@.schemas == default_schemas(),
            r@.representations == seq![("html"@, "document/document.html"@)],
            r@.capabilities == default_capabilities(),
    {
        let ts = now();
        let mut schemas: Vec<(String, String)> = Vec::new();
        schemas.push((owned("document"), owned("schemas/document.schema.json")));
        schemas.push((owned("operation"), owned("schemas/operation.schema.json")));
        let mut representations: Vec<(String, String)> = Vec::new();
        representations.push((owned("html"), owned("document/document.html")));
        let mut capabilities: Vec<String> = Vec::new();
        capabilities.push(owned("nodes"));
        capabilities.push(owned("relations"));
        capabilities.push(owned("operations"));
        capabilities.push(owned("revisions"));
        capabilities.push(owned("extensions"));
        let r = Manifest {
            format: owned("aidoc"),
            version: owned("0.2"),
            document: ManifestDocument { id: owned(doc_id), title: owned(title) },
            entry: owned("document/document.json"),
            storage: ManifestStorage { kind: owned("sqlite"), path: owned(".internal/document.db") },
            revision: ManifestRevision { current: owned(current_rev) },
            created_at: ts.clone(),
            updated_at: ts,
            schemas,
            representations,
            capabilities,
        };
        assert(r@.schemas =~= default_schemas());
        assert(r@.representations =~= seq![("html"@, "document/document.html"@)]);
        assert(r@.capabilities =~= default_capabilities());
        r
    }

    /// Stamp `updated_at` with the current time.
    pub fn touch_updated(&mut self)
        ensures
            final(self)@ == (ManifestV { updated_at: final(self)@.updated_at, ..old(self)@ }),
            utc_stamp(final(self)@.updated_at),
    {
        self.updated_at = now();
    }

    /// Record `rev` as the current revision and stamp `updated_at`.
    pub fn set_revision(&mut self, rev: &str)
        ensures
            final(self)@ == (ManifestV { current: rev@, updated_at: final(self)@.updated_at, ..old(self)@ }),
    {
        self.revision.current = owned(rev);
        self.touch_updated();
    }

    /// Before the package is written: record the store's head revision of
    /// the manifest's document as current, or, where it has none, only
    /// stamp `updated_at`.
    pub fn sync_with_store(&mut self, store: &Store)
        ensures
            final(self)@ == (ManifestV {
                current: match doc_tables(store@, old(self)@.doc_id) {
                    Some(t) if head_spec(t) is Some => head_spec(t)->0,
                    _ => old(self)@.current,
                },
                updated_at: final(self)@.updated_at,
                ..old(self)@
            }),
    {
        match store.head_revision(self.document.id.as_str()) {
            Some(head) => self.set_revision(head.as_str()),
            None => self.touch_updated(),
        }
    }

    /// Bring v0.1 metadata to v0.2, keeping identity and history: the new
    /// entry point, the schema and representation tables, the capabilities.
    pub fn upgrade_to_v02(&mut self)
        ensures
            final(self)@ == (ManifestV {
                version: "0.2"@,
                entry: "document/document.json"@,
                schemas: sorted_put(
                    sorted_put(old(self)@.schemas, "document"@, "schemas/document.schema.json"@),
                    "operation"@,
                    "schemas/operation.schema.json"@,
                ),
                representations: sorted_put(old(self)@.representations, "html"@, "document/document.html"@),
                capabilities: add_capability(add_capability(add_capability(add_capability(add_capability(
                    old(self)@.capabilities, "nodes"@), "relations"@), "operations"@), "revisions"@), "extensions"@),
                ..old(self)@
            }),
    {
        self.version = owned("0.2");
        self.entry = owned("document/document.json");
        put_sorted(&mut self.schemas, "document", "schemas/document.schema.json");
        put_sorted(&mut self.schemas, "operation", "schemas/operation.schema.json");
        put_sorted(&mut self.representations, "html", "document/document.html");
        add_capability_to(&mut self.capabilities, "nodes");
        add_capability_to(&mut self.capabilities, "relations");
        add_capability_to(&mut self.capabilities, "operations");
        add_capability_to(&mut self.capabilities, "revisions");
        add_capability_to(&mut self.capabilities, "extensions");
    }

    /// Whether the schema table names `key`.
    pub fn has_schema(&self, key: &str) -> (r: bool)
        ensures
            r == exists|i: int| 0 <= i < self@.schemas.len() && #[trigger] self@.schemas[i].0 == key@,
    {
        let mut i: usize = 0;
        while i < self.schemas.len()
            invariant
                i <= self.schemas@.len(),
                forall|j: int| 0 <= j < i ==> #[trigger] self@.schemas[j].0 != key@,
            decreases self.schemas@.len() - i,
        {
            assert(self@.schemas[i as int].0 == self.schemas@[i as int].0@);
            if str_eq(self.schemas[i].0.as_str(), key) {
                return true;
            }
            i = i + 1;
        }
        false
    }
}

} // verus!
