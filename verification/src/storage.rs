//! Vault-relative metadata paths, timestamps and content hashes.
use std::hash::{Hash, Hasher};
use vstd::prelude::*;
use crate::paths::{
    has_parent_component, has_parent_component_exec, is_absolute_path, is_absolute_path_exec,
    path_join, path_join_exec,
};
use crate::security::{res_view, unit_view};
use crate::text::{append, chars_of, owned, string_of};

verus! {

/// The decimal digits of `n`, most significant first.
pub open spec fn decimal(n: nat) -> Seq<char>
    decreases n,
{
    if n < 10 {
        seq![digit_char(n)]
    } else {
        decimal(n / 10).push(digit_char(n % 10))
    }
}

/// The character of a decimal digit.
pub open spec fn digit_char(d: nat) -> char {
    if d == 0 {
        '0'
    } else if d == 1 {
        '1'
    } else if d == 2 {
        '2'
    } else if d == 3 {
        '3'
    } else if d == 4 {
        '4'
    } else if d == 5 {
        '5'
    } else if d == 6 {
        '6'
    } else if d == 7 {
        '7'
    } else if d == 8 {
        '8'
    } else {
        '9'
    }
}

fn digit_char_exec(d: u64) -> (c: char)
    requires
        d < 10,
    ensures
        c == digit_char(d as nat),
{
    if d == 0 {
        '0'
    } else if d == 1 {
        '1'
    } else if d == 2 {
        '2'
    } else if d == 3 {
        '3'
    } else if d == 4 {
        '4'
    } else if d == 5 {
        '5'
    } else if d == 6 {
        '6'
    } else if d == 7 {
        '7'
    } else if d == 8 {
        '8'
    } else {
        '9'
    }
}

/// The decimal form of `n` (`u64::to_string`).
pub fn decimal_exec(n: u64) -> (r: Vec<char>)
    ensures
        r@ == decimal(n as nat),
    decreases n,
{
    if n < 10 {
        let mut r: Vec<char> = Vec::new();
        r.push(digit_char_exec(n));
        r
    } else {
        let mut r = decimal_exec(n / 10);
        r.push(digit_char_exec(n % 10));
        r
    }
}

/// The lowercase hexadecimal digit of `d`.
pub open spec fn hex_char(d: nat) -> char {
    if d < 10 {
        digit_char(d)
    } else if d == 10 {
        'a'
    } else if d == 11 {
        'b'
    } else if d == 12 {
        'c'
    } else if d == 13 {
        'd'
    } else if d == 14 {
        'e'
    } else {
        'f'
    }
}

/// The `width` lowest hexadecimal digits of `n`, zero-padded (`{:016x}`
/// for a `u64` and width 16).
pub open spec fn hex_padded(n: nat, width: nat) -> Seq<char>
    decreases width,
{
    if width == 0 {
        seq![]
    } else {
        hex_padded(n / 16, (width - 1) as nat).push(hex_char(n % 16))
    }
}

pub(crate) fn hex_char_exec(d: u64) -> (c: char)
    requires
        d < 16,
    ensures
        c == hex_char(d as nat),
{
    if d < 10 {
        digit_char_exec(d)
    } else if d == 10 {
        'a'
    } else if d == 11 {
        'b'
    } else if d == 12 {
        'c'
    } else if d == 13 {
        'd'
    } else if d == 14 {
        'e'
    } else {
        'f'
    }
}

/// The `width` lowest hexadecimal digits of `n`, zero-padded: the label a
/// digest is written as.
pub fn hex_padded_exec(n: u64, width: u64) -> (r: Vec<char>)
    ensures
        r@ == hex_padded(n as nat, width as nat),
    decreases width,
{
    if width == 0 {
        Vec::new()
    } else {
        let mut r = hex_padded_exec(n / 16, width - 1);
        r.push(hex_char_exec(n % 16));
        r
    }
}

/// Seconds since the Unix epoch on the system clock; zero if the clock is
/// before the epoch.
#[verifier::external_body]
fn unix_seconds_now() -> u64 {
    std::time::SystemTime::now().duration_since(std::time::UNIX_EPOCH).map(|d| d.as_secs()).unwrap_or_default()
}

/// A timestamp label of the form `unix:<seconds>`.
pub open spec fn timestamp_label(seconds: nat) -> Seq<char> {
    "unix:"@ + decimal(seconds)
}

/// The current time as a `unix:<seconds>` label.
pub fn current_timestamp_label() -> (r: String)
    ensures
        exists|s: u64| r@ == timestamp_label(s as nat),
{
    let secs = unix_seconds_now();
    let mut v = chars_of("unix:");
    let d = decimal_exec(secs);
    append(&mut v, d.as_slice());
    let r = string_of(v.as_slice());
    assert(r@ == timestamp_label(secs as nat));
    r
}

/// The 64-bit digest that a fresh, unseeded `DefaultHasher` gives for a
/// string slice (`new`, `hash`, `finish`).  It is a function of the text
/// alone: the hasher starts from fixed keys, and a string is hashed as its
/// bytes followed by a `0xFF` marker.
pub uninterp spec fn text_digest(s: Seq<char>) -> u64;

/// The content hash of a text: the sixteen hexadecimal digits of its
/// digest.
pub open spec fn text_hash(s: Seq<char>) -> Seq<char> {
    hex_padded(text_digest(s) as nat, 16)
}

/// `DefaultHasher::new`, `Hash::hash` and `Hasher::finish` on a string
/// slice.  The contract claims that the digest is `text_digest` of the
/// text: the same text always gives the same digest.
#[verifier::external_body]
fn default_hash_str(content: &str) -> (r: u64)
    ensures
        r == text_digest(content@),
{
    let mut hasher = std::collections::hash_map::DefaultHasher::new();
    (&content).hash(&mut hasher);
    hasher.finish()
}

/// The 64-bit digest that a fresh, unseeded `DefaultHasher` gives for a
/// byte slice written as its length (eight little-endian bytes) followed by
/// its bytes.  That is what `Hash` for a byte slice writes on a 64-bit
/// little-endian machine; writing the length out this way makes the digest
/// a function of the bytes alone on every machine.
pub uninterp spec fn bytes_digest(b: Seq<u8>) -> u64;

/// `DefaultHasher::new`, `Hasher::write` (the length, then the bytes) and
/// `Hasher::finish`.  The contract claims that the digest is
/// `bytes_digest` of the bytes.
#[verifier::external_body]
fn default_hash_bytes(content: &[u8]) -> (r: u64)
    ensures
        r == bytes_digest(content@),
{
    let mut hasher = std::collections::hash_map::DefaultHasher::new();
    hasher.write(&(content.len() as u64).to_le_bytes());
    hasher.write(content);
    hasher.finish()
}

/// Nanoseconds since the Unix epoch on the system clock; zero if the clock
/// is before the epoch.
#[verifier::external_body]
pub(crate) fn unix_nanos_now() -> u128 {
    std::time::SystemTime::now().duration_since(std::time::UNIX_EPOCH).map(|d| d.as_nanos()).unwrap_or_default()
}

/// The 64-bit digest that a fresh, unseeded `DefaultHasher` gives for a
/// seed, a time and a process ID written in turn: the seed as a string (its
/// bytes and a `0xFF` marker), then the time and the process ID as
/// little-endian bytes.  That is what hashing the tuple writes on a
/// little-endian machine; writing the numbers out this way makes the digest
/// a function of the three values alone on every machine.
pub uninterp spec fn identity_digest(seed: Seq<char>, nanos: u128, process_id: u32) -> u64;

/// `DefaultHasher::new`, `Hash::hash` of the seed, `Hasher::write` of the
/// time and the process ID, and `Hasher::finish`.  The contract claims that
/// the digest is `identity_digest` of the three values.
#[verifier::external_body]
fn default_hash_identity(seed: &str, nanos: u128, process_id: u32) -> (r: u64)
    ensures
        r == identity_digest(seed@, nanos, process_id),
{
    let mut hasher = std::collections::hash_map::DefaultHasher::new();
    seed.hash(&mut hasher);
    hasher.write(&nanos.to_le_bytes());
    hasher.write(&process_id.to_le_bytes());
    hasher.finish()
}

/// A document ID: `bl_doc_` and sixteen lowercase hexadecimal digits.
pub open spec fn is_document_id(r: Seq<char>) -> bool {
    exists|h: u64| r == "bl_doc_"@ + hex_padded(h as nat, 16)
}

/// The document ID written for a digest: `bl_doc_` and its sixteen
/// hexadecimal digits.
pub fn document_id_for_digest(digest: u64) -> (r: String)
    ensures
        r@ == "bl_doc_"@ + hex_padded(digest as nat, 16),
        is_document_id(r@),
{
    let mut v = chars_of("bl_doc_");
    let d = hex_padded_exec(digest, 16);
    append(&mut v, d.as_slice());
    let r = string_of(v.as_slice());
    assert(r@ == "bl_doc_"@ + hex_padded(digest as nat, 16));
    r
}

/// A new document ID, from the digest of the seed, the current time (read
/// from the clock) and the process ID.
pub fn generate_document_id(seed: &str, process_id: u32) -> (r: String)
    ensures
        exists|n: u128| r@ == "bl_doc_"@ + hex_padded(identity_digest(seed@, n, process_id) as nat, 16),
        is_document_id(r@),
{
    let nanos = unix_nanos_now();
    let h = default_hash_identity(seed, nanos, process_id);
    document_id_for_digest(h)
}

/// A content hash: sixteen lowercase hexadecimal digits of a 64-bit digest.
pub open spec fn is_hash_label(r: Seq<char>) -> bool {
    exists|h: u64| r == hex_padded(h as nat, 16)
}

/// The content hash of text.
pub fn content_hash(content: &str) -> (r: String)
    ensures
        r@ == text_hash(content@),
        is_hash_label(r@),
{
    let h = default_hash_str(content);
    let v = hex_padded_exec(h, 16);
    string_of(v.as_slice())
}

/// The content hash of bytes.
pub fn content_hash_bytes(content: &[u8]) -> (r: String)
    ensures
        r@ == hex_padded(bytes_digest(content@) as nat, 16),
        is_hash_label(r@),
{
    let h = default_hash_bytes(content);
    let v = hex_padded_exec(h, 16);
    string_of(v.as_slice())
}

/// A metadata path must be relative and stay inside the vault.
pub open spec fn vault_relative_check(p: Seq<char>) -> Result<(), Seq<char>> {
    if is_absolute_path(p) {
        Err("Vault metadata paths must be vault-relative."@)
    } else if has_parent_component(p) {
        Err("Vault metadata paths must not escape the vault."@)
    } else {
        Ok(())
    }
}

pub(crate) fn vault_relative_chars(p: &[char]) -> (r: Result<(), Vec<char>>)
    ensures
        match r {
            Ok(_) => vault_relative_check(p@) is Ok,
            Err(e) => vault_relative_check(p@) == Err::<(), Seq<char>>(e@),
        },
{
    if is_absolute_path_exec(p) {
        return Err(chars_of("Vault metadata paths must be vault-relative."));
    }
    if has_parent_component_exec(p) {
        return Err(chars_of("Vault metadata paths must not escape the vault."));
    }
    Ok(())
}

/// Refuses absolute paths and paths with a `..` component.
pub fn ensure_vault_relative_path(path: &str) -> (r: Result<(), String>)
    ensures
        unit_view(r) == vault_relative_check(path@),
{
    let p = chars_of(path);
    match vault_relative_chars(p.as_slice()) {
        Ok(_) => Ok(()),
        Err(e) => Err(string_of(e.as_slice())),
    }
}

/// The vault path joined with a checked vault-relative path.
pub open spec fn resolved_path(vault: Seq<char>, rel: Seq<char>) -> Result<Seq<char>, Seq<char>> {
    match vault_relative_check(rel) {
        Err(e) => Err(e),
        Ok(_) => Ok(path_join(vault, rel)),
    }
}

/// Joins a checked vault-relative path onto the vault path.
pub fn resolve_vault_relative_path(vault_path: &str, relative_path: &str) -> (r: Result<
    String,
    String,
>)
    ensures
        res_view(r) == resolved_path(vault_path@, relative_path@),
{
    let p = chars_of(relative_path);
    match vault_relative_chars(p.as_slice()) {
        Err(e) => Err(string_of(e.as_slice())),
        Ok(_) => {
            let v = chars_of(vault_path);
            let j = path_join_exec(v.as_slice(), p.as_slice());
            Ok(string_of(j.as_slice()))
        },
    }
}


/// The digits of a hexadecimal label are ASCII letters and digits.
pub proof fn lemma_hex_padded_alnum(n: nat, width: nat)
    ensures
        hex_padded(n, width).len() == width,
        forall|i: int| 0 <= i < width ==> crate::text::is_ascii_alnum(#[trigger] hex_padded(n, width)[i]),
    decreases width,
{
    if width > 0 {
        lemma_hex_padded_alnum(n / 16, (width - 1) as nat);
        let d = n % 16;
        assert(crate::text::is_ascii_alnum(hex_char(d)));
        assert forall|i: int| 0 <= i < width implies crate::text::is_ascii_alnum(#[trigger] hex_padded(n, width)[i]) by {
            if i < width - 1 {
                assert(hex_padded(n, width)[i] == hex_padded(n / 16, (width - 1) as nat)[i]);
            }
        }
    }
}

/// A generated document id passes the document id check.
pub proof fn lemma_generated_id_valid(r: Seq<char>)
    requires
        is_document_id(r),
    ensures
        crate::document_metadata::document_id_check(r) is Ok,
{
    let h = choose|h: u64| r == "bl_doc_"@ + hex_padded(h as nat, 16);
    reveal_strlit("bl_doc_");
    lemma_hex_padded_alnum(h as nat, 16);
    assert(crate::text::has_prefix(r, "bl_doc_"@)) by {
        assert(r.subrange(0, 7) =~= "bl_doc_"@);
    }
    assert forall|i: int| 0 <= i < r.len() implies (crate::text::is_ascii_alnum(#[trigger] r[i]) || r[i] == '_') by {
        if i >= 7 {
            assert(r[i] == hex_padded(h as nat, 16)[i - 7]);
        } else {
            assert(r[i] == "bl_doc_"@[i]);
        }
    }
}

} // verus!
