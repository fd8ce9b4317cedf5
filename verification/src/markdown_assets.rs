//! Images that Markdown documents link to: their file names, kinds and the
//! vault paths they resolve to.
use vstd::prelude::*;
use crate::text::{chars_of, eq_str, owned, rfind, slice_vec, string_of, views};

verus! {

/// The extension of a file name (`Path::extension`): what follows its last
/// `.`, unless that `.` starts the name or the name is `..`.
pub open spec fn extension_of(name: Seq<char>) -> Option<Seq<char>> {
    if name == ".."@ {
        None
    } else {
        match rfind(name, "."@) {
            None => None,
            Some(p) => if p == 0 {
                None
            } else {
                Some(name.skip(p + 1))
            },
        }
    }
}

/// The extension of a file name.
pub fn extension_of_exec(name: &[char]) -> (r: Option<Vec<char>>)
    ensures
        match extension_of(name@) {
            Some(e) => r matches Some(v) && v@ == e,
            None => r is None,
        },
{
    if eq_str(name, "..") {
        return None;
    }
    let dot = crate::text::chars_of(".");
    match crate::text::rfind_exec(name, dot.as_slice()) {
        None => None,
        Some(p) => {
            proof {
                reveal_strlit(".");
                crate::text::lemma_rfind_from(name@, "."@, name@.len() - 1);
            }
            if p == 0 {
                None
            } else {
                let n = name.len();
                let v = slice_vec(name, p + 1, n);
                assert(v@ =~= name@.skip(p + 1));
                Some(v)
            }
        },
    }
}


/// The largest Markdown asset, in bytes.
pub const MAX_MARKDOWN_ASSET_BYTES: usize = 10485760;

/// An image saved for a Markdown document.
pub struct MarkdownAsset {
    pub module_id: String,
    pub document_id: String,
    pub vault_relative_path: String,
    pub markdown_link: String,
    pub content_hash: String,
    pub byte_len: u64,
    pub mime_type: String,
}

/// An image read for a Markdown document.
pub struct MarkdownAssetRead {
    pub module_id: String,
    pub document_id: String,
    pub vault_relative_path: String,
    pub mime_type: String,
    pub byte_len: u64,
    pub bytes: Vec<u8>,
}

/// Saves and reads the images of Markdown documents.
pub struct MarkdownAssetService;

/// The extension an image of a MIME type is saved with.
pub open spec fn mime_extension(mime: Seq<char>) -> Result<Seq<char>, Seq<char>> {
    let m = crate::text::ascii_lowercase(crate::text::trim(mime));
    if m == "image/png"@ {
        Ok("png"@)
    } else if m == "image/jpeg"@ || m == "image/jpg"@ {
        Ok("jpg"@)
    } else if m == "image/webp"@ {
        Ok("webp"@)
    } else {
        Err("Only pasted PNG, JPEG, and WEBP images are supported."@)
    }
}

/// The extension for an image's MIME type.
pub fn extension_for_mime(mime_type: &str) -> (r: Result<&'static str, String>)
    ensures
        match r {
            Ok(e) => mime_extension(mime_type@) == Ok::<Seq<char>, Seq<char>>(e@),
            Err(e) => mime_extension(mime_type@) == Err::<Seq<char>, Seq<char>>(e@),
        },
{
    let t = crate::text::trim_str(mime_type);
    let m = crate::text::ascii_lowercase_exec(t.as_slice());
    if eq_str(m.as_slice(), "image/png") {
        Ok("png")
    } else if eq_str(m.as_slice(), "image/jpeg") || eq_str(m.as_slice(), "image/jpg") {
        Ok("jpg")
    } else if eq_str(m.as_slice(), "image/webp") {
        Ok("webp")
    } else {
        Err(owned("Only pasted PNG, JPEG, and WEBP images are supported."))
    }
}

/// What follows the last `.` of a path, or the whole path.
pub open spec fn after_last_dot(path: Seq<char>) -> Seq<char> {
    match rfind(path, "."@) {
        Some(p) => path.skip(p + 1),
        None => path,
    }
}

/// The MIME type an asset path is read as.
pub open spec fn asset_mime(path: Seq<char>) -> Result<Seq<char>, Seq<char>> {
    let e = crate::text::ascii_lowercase(after_last_dot(path));
    if e == "png"@ {
        Ok("image/png"@)
    } else if e == "jpg"@ || e == "jpeg"@ {
        Ok("image/jpeg"@)
    } else if e == "webp"@ {
        Ok("image/webp"@)
    } else {
        Err("Only PNG, JPEG, and WEBP Markdown assets can be previewed."@)
    }
}

fn after_last_dot_exec(path: &[char]) -> (r: Vec<char>)
    ensures
        r@ == after_last_dot(path@),
{
    let dot = chars_of(".");
    match crate::text::rfind_exec(path, dot.as_slice()) {
        Some(p) => {
            proof {
                reveal_strlit(".");
                crate::text::lemma_rfind_from(path@, "."@, path@.len() - 1);
            }
            let n = path.len();
            let v = slice_vec(path, p + 1, n);
            assert(v@ =~= path@.skip(p + 1));
            v
        },
        None => {
            let v = slice_vec(path, 0, path.len());
            assert(v@ =~= path@);
            v
        },
    }
}

/// The MIME type of an asset path.
pub fn mime_for_asset_path(path: &str) -> (r: Result<&'static str, String>)
    ensures
        match r {
            Ok(m) => asset_mime(path@) == Ok::<Seq<char>, Seq<char>>(m@),
            Err(e) => asset_mime(path@) == Err::<Seq<char>, Seq<char>>(e@),
        },
{
    let c = chars_of(path);
    let a = after_last_dot_exec(c.as_slice());
    let e = crate::text::ascii_lowercase_exec(a.as_slice());
    if eq_str(e.as_slice(), "png") {
        Ok("image/png")
    } else if eq_str(e.as_slice(), "jpg") || eq_str(e.as_slice(), "jpeg") {
        Ok("image/jpeg")
    } else if eq_str(e.as_slice(), "webp") {
        Ok("image/webp")
    } else {
        Err(owned("Only PNG, JPEG, and WEBP Markdown assets can be previewed."))
    }
}

/// A character an asset segment may hold: an ASCII letter or digit, `-`
/// or `_`.
pub open spec fn segment_char(c: char) -> bool {
    crate::text::is_ascii_alnum(c) || c == '-' || c == '_'
}

/// A trimmed segment that is not blank and holds only ASCII letters,
/// digits, `-` and `_`.
pub open spec fn safe_segment_of(value: Seq<char>, label: Seq<char>) -> Result<Seq<char>, Seq<char>> {
    let n = crate::text::trim(value);
    if n.len() == 0 || !(forall|i: int| 0 <= i < n.len() ==> segment_char(#[trigger] n[i])) {
        Err("Invalid "@ + label + " identifier for Markdown asset storage."@)
    } else {
        Ok(n)
    }
}

/// Checks a segment of an asset path.
pub fn safe_segment(value: &str, label: &str) -> (r: Result<String, String>)
    ensures
        crate::security::res_view(r) == safe_segment_of(value@, label@),
{
    let n = crate::text::trim_str(value);
    let len = n.len();
    let mut ok = len > 0;
    let mut i: usize = 0;
    while i < len
        invariant
            len == n@.len(),
            i <= len,
            ok == (len > 0 && forall|j: int| 0 <= j < i ==> segment_char(#[trigger] n@[j])),
        decreases len - i,
    {
        let c = n[i];
        if !(crate::text::is_ascii_alnum_exec(c) || c == '-' || c == '_') {
            ok = false;
        }
        i = i + 1;
    }
    if !ok {
        let mut v = chars_of("Invalid ");
        crate::text::append_str(&mut v, label);
        crate::text::append_str(&mut v, " identifier for Markdown asset storage.");
        return Err(string_of(v.as_slice()));
    }
    Ok(string_of(n.as_slice()))
}

/// The stem of a pasted file's name: its last `/` or `\` part, before its
/// last `.`.
pub open spec fn asset_file_stem(name: Seq<char>) -> Seq<char> {
    let last = match crate::text::rfind(crate::text::replace_char(name, '\\', '/'), "/"@) {
        Some(p) => name.skip(p + 1),
        None => name,
    };
    match rfind(last, "."@) {
        Some(p) => last.take(p),
        None => last,
    }
}

/// The stem of a pasted file's name.
pub fn file_stem(file_name: &str) -> (r: String)
    ensures
        r@ == asset_file_stem(file_name@),
{
    let c = chars_of(file_name);
    let slashed = crate::text::replace_char_exec(c.as_slice(), '\\', '/');
    let slash = chars_of("/");
    let last = match crate::text::rfind_exec(slashed.as_slice(), slash.as_slice()) {
        Some(p) => {
            proof {
                reveal_strlit("/");
                crate::text::lemma_rfind_from(slashed@, "/"@, slashed@.len() - 1);
            }
            let n = c.len();
            assert(slashed@.len() == n);
            let v = slice_vec(c.as_slice(), p + 1, n);
            assert(v@ =~= file_name@.skip(p + 1));
            v
        },
        None => {
            let v = slice_vec(c.as_slice(), 0, c.len());
            assert(v@ =~= file_name@);
            v
        },
    };
    let dot = chars_of(".");
    match crate::text::rfind_exec(last.as_slice(), dot.as_slice()) {
        Some(p) => {
            proof {
                reveal_strlit(".");
                crate::text::lemma_rfind_from(last@, "."@, last@.len() - 1);
            }
            let v = slice_vec(last.as_slice(), 0, p);
            string_of(v.as_slice())
        },
        None => string_of(last.as_slice()),
    }
}

/// A file stem made safe: trimmed, ASCII-lowercased, ASCII letters and
/// digits kept, each run of others written as one `-`, `-` trimmed.
pub open spec fn safe_stem_of(value: Seq<char>) -> Seq<char> {
    crate::text::trim_by(
        crate::records::slug_dashed(crate::text::ascii_lowercase(crate::text::trim(value))).0,
        crate::text::Strip::Char('-'),
    )
}

fn slug_dashed_chars(s: &[char]) -> (r: Vec<char>)
    ensures
        r@ == crate::records::slug_dashed(s@).0,
{
    let mut out: Vec<char> = Vec::new();
    let mut last_dash = false;
    let n = s.len();
    let mut i: usize = 0;
    assert(s@.take(0) =~= Seq::<char>::empty());
    while i < n
        invariant
            n == s@.len(),
            i <= n,
            (out@, last_dash) == crate::records::slug_dashed(s@.take(i as int)),
        decreases n - i,
    {
        assert(s@.take(i + 1).drop_last() =~= s@.take(i as int));
        assert(s@.take(i + 1).last() == s@[i as int]);
        let c = s[i];
        if crate::text::is_ascii_alnum_exec(c) {
            out.push(c);
            last_dash = false;
        } else if !last_dash {
            out.push('-');
            last_dash = true;
        }
        i = i + 1;
    }
    assert(s@.take(n as int) =~= s@);
    out
}

/// A file stem made safe.
pub fn safe_file_stem(value: &str) -> (r: String)
    ensures
        r@ == safe_stem_of(value@),
{
    let t = crate::text::trim_str(value);
    let l = crate::text::ascii_lowercase_exec(t.as_slice());
    let d = slug_dashed_chars(l.as_slice());
    let s = crate::text::trim_by_exec(d.as_slice(), crate::text::Strip::Char('-'));
    string_of(s.as_slice())
}

/// The stem an asset is named with: the pasted file's safe stem, or
/// `pasted-image`.
pub open spec fn asset_stem(file_name: Option<Seq<char>>) -> Seq<char> {
    match file_name {
        Some(n) => {
            let s = safe_stem_of(asset_file_stem(n));
            if s.len() == 0 {
                "pasted-image"@
            } else {
                s
            }
        },
        None => "pasted-image"@,
    }
}

/// The stem an asset is named with.
pub fn asset_name_stem(file_name: Option<&str>) -> (r: String)
    ensures
        r@ == asset_stem(
            match file_name {
                Some(n) => Some(n@),
                None => None,
            },
        ),
{
    match file_name {
        Some(n) => {
            let st = file_stem(n);
            let s = safe_file_stem(st.as_str());
            let sc = chars_of(s.as_str());
            if sc.len() == 0 {
                owned("pasted-image")
            } else {
                s
            }
        },
        None => owned("pasted-image"),
    }
}

/// The non-empty `/`-separated parts of a path, `\` read as `/`.
pub open spec fn path_parts(p: Seq<char>) -> Seq<Seq<char>> {
    crate::text::split_char(crate::text::replace_char(p, '\\', '/'), '/').filter(|x: Seq<char>| x.len() > 0)
}

fn count_parts(p: &str) -> (r: usize)
    ensures
        r == path_parts(p@).len(),
{
    let c = chars_of(p);
    let s = crate::text::replace_char_exec(c.as_slice(), '\\', '/');
    let parts = crate::text::split_exec(s.as_slice(), '/');
    let ghost ps = views(parts@);
    let mut count: usize = 0;
    let n = parts.len();
    let mut i: usize = 0;
    assert(ps.take(0).filter(|x: Seq<char>| x.len() > 0) =~= Seq::<Seq<char>>::empty());
    while i < n
        invariant
            n == parts@.len(),
            ps == views(parts@),
            i <= n,
            count == ps.take(i as int).filter(|x: Seq<char>| x.len() > 0).len(),
            count <= i,
        decreases n - i,
    {
        assert(ps.take(i + 1) =~= ps.take(i as int).push(ps[i as int]));
        proof {
            ps.take(i as int).lemma_filter_push(ps[i as int], |x: Seq<char>| x.len() > 0);
        }
        if parts[i].len() > 0 {
            count = count + 1;
        }
        i = i + 1;
    }
    assert(ps.take(n as int) =~= ps);
    count
}

/// `../` repeated.
pub open spec fn ups(n: nat) -> Seq<char>
    decreases n,
{
    if n == 0 {
        seq![]
    } else {
        ups((n - 1) as nat) + "../"@
    }
}

/// The link from a document to an asset: one `../` for each folder the
/// document sits in, then the asset's vault path.
pub open spec fn markdown_link_of(source: Seq<char>, asset: Seq<char>) -> Seq<char> {
    let depth = path_parts(source).len();
    ups(if depth == 0 {
        0
    } else {
        (depth - 1) as nat
    }) + asset
}

/// The link from a document to an asset.
pub fn relative_markdown_link(source_relative_path: &str, asset_relative_path: &str) -> (r: Result<String, String>)
    ensures
        r matches Ok(x) && x@ == markdown_link_of(source_relative_path@, asset_relative_path@),
{
    let depth = count_parts(source_relative_path);
    let d = if depth == 0 {
        0
    } else {
        depth - 1
    };
    let mut v: Vec<char> = Vec::new();
    let mut i: usize = 0;
    while i < d
        invariant
            i <= d,
            v@ == ups(i as nat),
        decreases d - i,
    {
        crate::text::append_str(&mut v, "../");
        i = i + 1;
    }
    crate::text::append_str(&mut v, asset_relative_path);
    Ok(string_of(v.as_slice()))
}


/// A source that names a URL scheme the asset reader refuses.
pub open spec fn scheme_like(lower: Seq<char>) -> bool {
    crate::text::has_prefix(lower, "http://"@) || crate::text::has_prefix(lower, "https://"@)
        || crate::text::has_prefix(lower, "data:"@) || crate::text::has_prefix(lower, "javascript:"@)
        || crate::text::has_prefix(lower, "file:"@)
}

/// Walks the parts of a source from a folder: empty parts and `.` stay,
/// `..` goes up (not above the vault), a part with `:` is refused, others
/// go down.
pub open spec fn resolve_steps(stack: Seq<Seq<char>>, parts: Seq<Seq<char>>) -> Result<Seq<Seq<char>>, Seq<char>>
    decreases parts.len(),
{
    if parts.len() == 0 {
        Ok(stack)
    } else {
        let p = parts[0];
        if p.len() == 0 || p == "."@ {
            resolve_steps(stack, parts.skip(1))
        } else if p == ".."@ {
            if stack.len() == 0 {
                Err("Markdown asset source must not escape the vault."@)
            } else {
                resolve_steps(stack.drop_last(), parts.skip(1))
            }
        } else if p.contains(':') {
            Err("Markdown asset source must not contain a URL scheme."@)
        } else {
            resolve_steps(stack.push(p), parts.skip(1))
        }
    }
}

/// The vault path a Markdown image source names, from the document's
/// folder (or from the vault for `assets/` sources); it must stay in the
/// vault and under `assets/`.
pub open spec fn asset_source(doc: Seq<char>, source: Seq<char>) -> Result<Seq<char>, Seq<char>> {
    let s = crate::text::replace_char(crate::text::trim(source), '\\', '/');
    if s.len() == 0 || scheme_like(crate::text::ascii_lowercase(s)) || crate::text::has_prefix(s, "/"@) {
        Err("Markdown asset source must be a safe vault-relative image path."@)
    } else {
        let dparts = path_parts(doc);
        let start = if crate::text::has_prefix(s, "assets/"@) {
            Seq::<Seq<char>>::empty()
        } else if dparts.len() == 0 {
            Seq::<Seq<char>>::empty()
        } else {
            dparts.take(dparts.len() - 1)
        };
        match resolve_steps(start, crate::text::split_char(s, '/')) {
            Err(e) => Err(e),
            Ok(ps) => if ps.len() == 0 || ps[0] != "assets"@ {
                Err("Markdown asset source must resolve under assets/."@)
            } else {
                Ok(crate::text::join(ps, "/"@))
            },
        }
    }
}

fn parts_exec(p: &str) -> (r: Vec<Vec<char>>)
    ensures
        views(r@) == path_parts(p@),
{
    let c = chars_of(p);
    let s = crate::text::replace_char_exec(c.as_slice(), '\\', '/');
    let parts = crate::text::split_exec(s.as_slice(), '/');
    let ghost ps = views(parts@);
    let mut out: Vec<Vec<char>> = Vec::new();
    let n = parts.len();
    let mut i: usize = 0;
    assert(ps.take(0).filter(|x: Seq<char>| x.len() > 0) =~= Seq::<Seq<char>>::empty());
    while i < n
        invariant
            n == parts@.len(),
            ps == views(parts@),
            i <= n,
            views(out@) == ps.take(i as int).filter(|x: Seq<char>| x.len() > 0),
        decreases n - i,
    {
        assert(ps.take(i + 1) =~= ps.take(i as int).push(ps[i as int]));
        proof {
            ps.take(i as int).lemma_filter_push(ps[i as int], |x: Seq<char>| x.len() > 0);
        }
        if parts[i].len() > 0 {
            let ghost b = views(out@);
            let x = slice_vec(parts[i].as_slice(), 0, parts[i].len());
            assert(x@ =~= ps[i as int]);
            out.push(x);
            assert(views(out@) =~= b.push(ps[i as int]));
        }
        i = i + 1;
    }
    assert(ps.take(n as int) =~= ps);
    out
}

fn resolve_steps_exec(start: Vec<Vec<char>>, parts: &Vec<Vec<char>>) -> (r: Result<Vec<Vec<char>>, String>)
    ensures
        match resolve_steps(views(start@), views(parts@)) {
            Ok(ps) => r matches Ok(v) && views(v@) == ps,
            Err(e) => r matches Err(x) && x@ == e,
        },
{
    let ghost pv = views(parts@);
    let mut stack = start;
    let n = parts.len();
    let mut i: usize = 0;
    assert(pv.skip(0) =~= pv);
    while i < n
        invariant
            n == parts@.len(),
            pv == views(parts@),
            i <= n,
            resolve_steps(views(start@), pv) == resolve_steps(views(stack@), pv.skip(i as int)),
        decreases n - i,
    {
        let p = &parts[i];
        assert(pv.skip(i as int)[0] == p@);
        assert(pv.skip(i as int).skip(1) =~= pv.skip(i + 1));
        if p.len() == 0 || eq_str(p.as_slice(), ".") {
        } else if eq_str(p.as_slice(), "..") {
            if stack.len() == 0 {
                return Err(owned("Markdown asset source must not escape the vault."));
            }
            let ghost b = views(stack@);
            stack.pop();
            assert(views(stack@) =~= b.drop_last());
        } else {
            let colon = crate::text::find_char_from(p.as_slice(), ':', 0);
            proof {
                if colon is None {
                    assert(!p@.contains(':'));
                }
            }
            if colon.is_some() {
                return Err(owned("Markdown asset source must not contain a URL scheme."));
            }
            let ghost b = views(stack@);
            let x = slice_vec(p.as_slice(), 0, p.len());
            assert(x@ =~= p@);
            stack.push(x);
            assert(views(stack@) =~= b.push(p@));
        }
        i = i + 1;
    }
    Ok(stack)
}

/// The vault path a Markdown image source names.
pub fn resolve_markdown_asset_source(document_relative_path: &str, source: &str) -> (r: Result<String, String>)
    ensures
        crate::security::res_view(r) == asset_source(document_relative_path@, source@),
{
    let t = crate::text::trim_str(source);
    let s = crate::text::replace_char_exec(t.as_slice(), '\\', '/');
    let lower = crate::text::ascii_lowercase_exec(s.as_slice());
    if s.len() == 0 || crate::text::starts_with_str(lower.as_slice(), "http://") || crate::text::starts_with_str(
        lower.as_slice(),
        "https://",
    ) || crate::text::starts_with_str(lower.as_slice(), "data:") || crate::text::starts_with_str(
        lower.as_slice(),
        "javascript:",
    ) || crate::text::starts_with_str(lower.as_slice(), "file:") || crate::text::starts_with_str(
        s.as_slice(),
        "/",
    ) {
        return Err(owned("Markdown asset source must be a safe vault-relative image path."));
    }
    let dparts = parts_exec(document_relative_path);
    let start: Vec<Vec<char>> = if crate::text::starts_with_str(s.as_slice(), "assets/") {
        let v: Vec<Vec<char>> = Vec::new();
        assert(views(v@) =~= Seq::<Seq<char>>::empty());
        v
    } else if dparts.len() == 0 {
        let v: Vec<Vec<char>> = Vec::new();
        assert(views(v@) =~= Seq::<Seq<char>>::empty());
        v
    } else {
        let mut v = dparts;
        let ghost b = views(v@);
        v.pop();
        assert(views(v@) =~= b.take(b.len() - 1));
        v
    };
    let parts = crate::text::split_exec(s.as_slice(), '/');
    let ps = resolve_steps_exec(start, &parts)?;
    if ps.len() == 0 || !eq_str(ps[0].as_slice(), "assets") {
        return Err(owned("Markdown asset source must resolve under assets/."));
    }
    let sep = chars_of("/");
    let j = crate::text::join_exec(&ps, sep.as_slice());
    Ok(string_of(j.as_slice()))
}

/// The module and extension an image is saved with, checking that the
/// image is not empty or over the size limit, that its MIME type is
/// supported, and that the module ID is a safe segment.
pub open spec fn save_check(module_id: Seq<char>, mime: Seq<char>, byte_len: nat) -> Result<(Seq<char>, Seq<char>), Seq<char>> {
    if byte_len == 0 {
        Err("Pasted image was empty."@)
    } else if byte_len > 10485760 {
        Err("Pasted image is larger than the 10 MB Markdown asset limit."@)
    } else {
        match mime_extension(mime) {
            Err(e) => Err(e),
            Ok(ext) => match safe_segment_of(module_id, "module"@) {
                Err(e) => Err(e),
                Ok(m) => Ok((m, ext)),
            },
        }
    }
}

/// A document belongs to a module: its path is under `modules/<module>/`.
pub open spec fn document_in_module(current_path: Seq<char>, module_id: Seq<char>) -> bool {
    crate::text::has_prefix(current_path, "modules/"@ + module_id + "/"@)
}

fn check_module_document(module_id: &str, current_path: &str) -> (r: Result<(), String>)
    ensures
        r is Ok <==> document_in_module(current_path@, module_id@),
        r matches Err(e) ==> e@ == "Markdown asset module does not match the target document."@,
{
    let p = chars_of(current_path);
    let mut pre = chars_of("modules/");
    crate::text::append_str(&mut pre, module_id);
    crate::text::append_str(&mut pre, "/");
    if crate::text::starts_with(p.as_slice(), pre.as_slice()) {
        Ok(())
    } else {
        Err(owned("Markdown asset module does not match the target document."))
    }
}

/// The folder of a document, with `/` after it, or nothing for a
/// document at the vault's root.
pub open spec fn document_folder(current_path: Seq<char>) -> Seq<char> {
    let p = crate::text::replace_char(current_path, '\\', '/');
    match crate::text::rfind(p, "/"@) {
        Some(i) => p.take(i) + "/"@,
        None => seq![],
    }
}

/// The module, vault path and MIME type of an image to read, checking the
/// module ID, that the document belongs to the module, the source, that the
/// image is in the document's asset folder or its own folder, and its type.
pub open spec fn read_check(
    module_id: Seq<char>,
    document_id: Seq<char>,
    current_path: Seq<char>,
    source: Seq<char>,
) -> Result<(Seq<char>, Seq<char>, Seq<char>), Seq<char>> {
    match safe_segment_of(module_id, "module"@) {
        Err(e) => Err(e),
        Ok(m) => if !document_in_module(current_path, m) {
            Err("Markdown asset module does not match the target document."@)
        } else {
            match asset_source(current_path, source) {
                Err(e) => Err(e),
                Ok(rel) => if !crate::text::has_prefix(rel, "assets/"@ + m + "/"@ + document_id + "/"@)
                    && !crate::text::has_prefix(rel, document_folder(current_path)) {
                    Err("Markdown asset source is outside the document folder or document asset folder."@)
                } else {
                    match asset_mime(rel) {
                        Err(e) => Err(e),
                        Ok(mime) => Ok((m, rel, mime)),
                    }
                },
            }
        },
    }
}

fn document_folder_exec(current_path: &str) -> (r: Vec<char>)
    ensures
        r@ == document_folder(current_path@),
{
    let c = chars_of(current_path);
    let p = crate::text::replace_char_exec(c.as_slice(), '\\', '/');
    let slash = chars_of("/");
    match crate::text::rfind_exec(p.as_slice(), slash.as_slice()) {
        Some(i) => {
            proof {
                reveal_strlit("/");
                crate::text::lemma_rfind_from(p@, "/"@, p@.len() - 1);
            }
            let mut v = slice_vec(p.as_slice(), 0, i);
            crate::text::append_str(&mut v, "/");
            v
        },
        None => Vec::new(),
    }
}

impl MarkdownAssetService {
    /// Checks an image to save (see `save_check`): the module and the
    /// extension.
    pub fn check_asset_save(module_id: &str, mime_type: &str, byte_len: usize) -> (r: Result<(String, &'static str), String>)
        ensures
            match save_check(module_id@, mime_type@, byte_len as nat) {
                Ok((m, e)) => r matches Ok((x, y)) && x@ == m && y@ == e,
                Err(e) => r matches Err(x) && x@ == e,
            },
    {
        if byte_len == 0 {
            return Err(owned("Pasted image was empty."));
        }
        if byte_len > MAX_MARKDOWN_ASSET_BYTES {
            return Err(owned("Pasted image is larger than the 10 MB Markdown asset limit."));
        }
        let ext = extension_for_mime(mime_type)?;
        let m = safe_segment(module_id, "module")?;
        Ok((m, ext))
    }

    /// Checks that an image's document belongs to its module.
    pub fn check_asset_document(module_id: &str, current_path: &str) -> (r: Result<(), String>)
        ensures
            r is Ok <==> document_in_module(current_path@, module_id@),
            r matches Err(e) ==> e@ == "Markdown asset module does not match the target document."@,
    {
        check_module_document(module_id, current_path)
    }

    /// A vault path to try for an image: under `assets/<module>/<document>/`,
    /// the time label with `:` read as `-`, eight digits of the content
    /// hash, the stem, a counter after the first try, and the extension.
    pub fn asset_candidate_path(
        module_id: &str,
        document_id: &str,
        timestamp_label: &str,
        content_hash: &str,
        stem: &str,
        extension: &str,
        counter: u32,
    ) -> (r: String)
        ensures
            r@ == "assets/"@ + module_id@ + "/"@ + document_id@ + "/"@ + crate::text::replace_char(
                timestamp_label@,
                ':',
                '-',
            ) + "-"@ + (if content_hash@.len() > 8 {
                content_hash@.take(8)
            } else {
                content_hash@
            }) + "-"@ + stem@ + (if counter == 0 {
                Seq::<char>::empty()
            } else {
                "-"@ + crate::storage::decimal(counter as nat)
            }) + "."@ + extension@,
    {
        let mut v = chars_of("assets/");
        crate::text::append_str(&mut v, module_id);
        crate::text::append_str(&mut v, "/");
        crate::text::append_str(&mut v, document_id);
        crate::text::append_str(&mut v, "/");
        let tc = chars_of(timestamp_label);
        let t = crate::text::replace_char_exec(tc.as_slice(), ':', '-');
        crate::text::append(&mut v, t.as_slice());
        crate::text::append_str(&mut v, "-");
        let hc = chars_of(content_hash);
        let h = if hc.len() > 8 {
            slice_vec(hc.as_slice(), 0, 8)
        } else {
            hc
        };
        crate::text::append(&mut v, h.as_slice());
        crate::text::append_str(&mut v, "-");
        crate::text::append_str(&mut v, stem);
        if counter != 0 {
            crate::text::append_str(&mut v, "-");
            let d = crate::storage::decimal_exec(counter as u64);
            crate::text::append(&mut v, d.as_slice());
        }
        crate::text::append_str(&mut v, ".");
        crate::text::append_str(&mut v, extension);
        string_of(v.as_slice())
    }

    /// The record of a saved image, with its link from the document.
    pub fn asset_record(
        module_id: String,
        document_id: &str,
        current_path: &str,
        vault_relative_path: String,
        content_hash: String,
        byte_len: u64,
        mime_type: &str,
    ) -> (r: MarkdownAsset)
        ensures
            r.module_id == module_id,
            r.document_id@ == document_id@,
            r.vault_relative_path == vault_relative_path,
            r.markdown_link@ == markdown_link_of(current_path@, vault_relative_path@),
            r.content_hash == content_hash,
            r.byte_len == byte_len,
            r.mime_type@ == mime_type@,
    {
        let link = match relative_markdown_link(current_path, vault_relative_path.as_str()) {
            Ok(l) => l,
            Err(e) => e,
        };
        MarkdownAsset {
            module_id,
            document_id: owned(document_id),
            vault_relative_path,
            markdown_link: link,
            content_hash,
            byte_len,
            mime_type: owned(mime_type),
        }
    }

    /// Checks an image to read (see `read_check`): the module, the vault
    /// path and the MIME type.
    pub fn check_asset_read(module_id: &str, document_id: &str, current_path: &str, source: &str) -> (r: Result<
        (String, String, &'static str),
        String,
    >)
        ensures
            match read_check(module_id@, document_id@, current_path@, source@) {
                Ok((m, p, t)) => r matches Ok((x, y, z)) && x@ == m && y@ == p && z@ == t,
                Err(e) => r matches Err(x) && x@ == e,
            },
    {
        let m = safe_segment(module_id, "module")?;
        check_module_document(m.as_str(), current_path)?;
        let rel = resolve_markdown_asset_source(current_path, source)?;
        let rc = chars_of(rel.as_str());
        let mut expected = chars_of("assets/");
        crate::text::append_str(&mut expected, m.as_str());
        crate::text::append_str(&mut expected, "/");
        crate::text::append_str(&mut expected, document_id);
        crate::text::append_str(&mut expected, "/");
        let folder = document_folder_exec(current_path);
        if !crate::text::starts_with(rc.as_slice(), expected.as_slice()) && !crate::text::starts_with(
            rc.as_slice(),
            folder.as_slice(),
        ) {
            return Err(owned("Markdown asset source is outside the document folder or document asset folder."));
        }
        let mime = mime_for_asset_path(rel.as_str())?;
        Ok((m, rel, mime))
    }

    /// The image read, unless it is over the size limit.
    pub fn asset_read_result(
        module_id: String,
        document_id: &str,
        vault_relative_path: String,
        mime_type: &str,
        bytes: Vec<u8>,
    ) -> (r: Result<MarkdownAssetRead, String>)
        ensures
            bytes@.len() > 10485760 ==> (r matches Err(e) && e@ == "Markdown asset is larger than the 10 MB preview limit."@),
            bytes@.len() <= 10485760 ==> (r matches Ok(a) && a.module_id == module_id && a.document_id@ == document_id@
                && a.vault_relative_path == vault_relative_path && a.mime_type@ == mime_type@ && a.byte_len
                == bytes@.len() && a.bytes@ == bytes@),
    {
        if bytes.len() > MAX_MARKDOWN_ASSET_BYTES {
            return Err(owned("Markdown asset is larger than the 10 MB preview limit."));
        }
        let n = bytes.len() as u64;
        Ok(MarkdownAssetRead {
            module_id,
            document_id: owned(document_id),
            vault_relative_path,
            mime_type: owned(mime_type),
            byte_len: n,
            bytes,
        })
    }
}


impl MarkdownAssetService {
    /// Saves a pasted image of a document (whose metadata records
    /// `current_path`): refused as `save_check` says, or when the document
    /// is not in the module; else the first free path among a hundred
    /// candidates (time label, hash digits, the stem of the pasted name,
    /// a counter), with its link from the document.  `existing_paths` are
    /// the vault paths already taken; the caller writes the bytes.
    pub fn save_markdown_asset(
        module_id: &str,
        document_id: &str,
        file_name: Option<&str>,
        mime_type: &str,
        bytes: &[u8],
        current_path: &str,
        existing_paths: &Vec<String>,
    ) -> (r: Result<MarkdownAsset, String>)
        ensures
            match save_check(module_id@, mime_type@, bytes@.len()) {
                Err(e) => r matches Err(x) && x@ == e,
                Ok((m, ext)) => if !document_in_module(current_path@, m) {
                    r matches Err(x) && x@ == "Markdown asset module does not match the target document."@
                } else {
                    match r {
                        Ok(a) => {
                            &&& a.module_id@ == m
                            &&& a.document_id@ == document_id@
                            &&& !crate::text::string_views(existing_paths@).contains(a.vault_relative_path@)
                            &&& crate::text::has_prefix(
                                a.vault_relative_path@,
                                "assets/"@ + m + "/"@ + document_id@ + "/"@,
                            )
                            &&& crate::text::has_suffix(
                                a.vault_relative_path@,
                                "-"@ + asset_stem(
                                    match file_name {
                                        Some(n) => Some(n@),
                                        None => None,
                                    },
                                ) + "."@ + ext,
                            ) || exists|c: nat|
                                1 <= c < 100 && #[trigger] crate::text::has_suffix(
                                    a.vault_relative_path@,
                                    "-"@ + crate::storage::decimal(c) + "."@ + ext,
                                )
                            &&& a.markdown_link@ == markdown_link_of(current_path@, a.vault_relative_path@)
                            &&& a.content_hash@ == crate::storage::hex_padded(
                                crate::storage::bytes_digest(bytes@) as nat,
                                16,
                            )
                            &&& a.byte_len == bytes@.len()
                            &&& a.mime_type@ == mime_type@
                        },
                        Err(x) => x@ == "Unable to allocate a unique asset path."@,
                    }
                },
            },
    {
        let (module, ext) = match Self::check_asset_save(module_id, mime_type, bytes.len()) {
            Ok(p) => p,
            Err(e) => {
                return Err(e);
            },
        };
        match Self::check_asset_document(module.as_str(), current_path) {
            Ok(_) => {},
            Err(e) => {
                return Err(e);
            },
        }
        let hash = crate::storage::content_hash_bytes(bytes);
        let stem = asset_name_stem(file_name);
        let timestamp = crate::storage::current_timestamp_label();
        let mut counter: u32 = 0;
        while counter < 100
            invariant
                counter <= 100,
                save_check(module_id@, mime_type@, bytes@.len()) == Ok::<(Seq<char>, Seq<char>), Seq<char>>(
                    (module@, ext@),
                ),
                document_in_module(current_path@, module@),
                crate::storage::is_hash_label(hash@),
                hash@ == crate::storage::hex_padded(crate::storage::bytes_digest(bytes@) as nat, 16),
                stem@ == asset_stem(
                    match file_name {
                        Some(n) => Some(n@),
                        None => None,
                    },
                ),
            decreases 100 - counter,
        {
            let candidate = Self::asset_candidate_path(
                module.as_str(),
                document_id,
                timestamp.as_str(),
                hash.as_str(),
                stem.as_str(),
                ext,
                counter,
            );
            if !crate::module_schema::contains_text(existing_paths, &candidate) {
                let link = match relative_markdown_link(current_path, candidate.as_str()) {
                    Ok(l) => l,
                    Err(e) => {
                        return Err(e);
                    },
                };
                proof {
                    let pre = "assets/"@ + module@ + "/"@ + document_id@ + "/"@;
                    assert(candidate@.subrange(0, pre.len() as int) =~= pre);
                    if counter == 0 {
                        let suf = "-"@ + stem@ + "."@ + ext@;
                        assert(candidate@.subrange(candidate@.len() - suf.len(), candidate@.len() as int) =~= suf);
                    } else {
                        let suf = "-"@ + crate::storage::decimal(counter as nat) + "."@ + ext@;
                        assert(candidate@.subrange(candidate@.len() - suf.len(), candidate@.len() as int) =~= suf);
                        assert(crate::text::has_suffix(candidate@, "-"@ + crate::storage::decimal(counter as nat) + "."@ + ext@));
                    }
                }
                return Ok(MarkdownAsset {
                    module_id: module,
                    document_id: owned(document_id),
                    vault_relative_path: candidate,
                    markdown_link: link,
                    content_hash: hash,
                    byte_len: bytes.len() as u64,
                    mime_type: owned(mime_type),
                });
            }
            counter = counter + 1;
        }
        Err(owned("Unable to allocate a unique asset path."))
    }
}

} // verus!
