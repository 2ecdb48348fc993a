use vstd::prelude::*;

use crate::chars::chars_of;

verus! {

/// The extension of the path written `p`, as `std::path::Path::extension` finds it.
pub uninterp spec fn file_extension(p: Seq<char>) -> Option<Seq<char>>;

/// Relies on `std::path::Path::extension`: the extension depends on the path's text alone.
#[verifier::external_body]
fn extension_of(path: &str) -> (r: Option<String>)
    ensures
        r is Some <==> file_extension(path@) is Some,
        r is Some ==> file_extension(path@) == Some(r->0@),
{
    std::path::Path::new(path).extension().and_then(|e| e.to_str()).map(|e| e.to_string())
}

/// `c` with an ASCII upper-case letter taken to lower case, as a code point.
pub open spec fn ascii_folded(c: char) -> u32 {
    if 'A' <= c && c <= 'Z' {
        (c as u32 + 32) as u32
    } else {
        c as u32
    }
}

/// `a` and `b` are equal but for the case of ASCII letters.
pub open spec fn eq_ignore_ascii_case(a: Seq<char>, b: Seq<char>) -> bool {
    a.len() == b.len() && forall|k: int| 0 <= k < a.len() ==> ascii_folded(a[k]) == ascii_folded(b[k])
}

/// Whether `ext` is `jsonc`, ASCII letters in any case.
pub fn is_jsonc_extension(ext: &str) -> (r: bool)
    ensures
        r == eq_ignore_ascii_case(ext@, "jsonc"@),
{
    let a = chars_of(ext);
    let b = chars_of("jsonc");
    if a.len() != b.len() {
        return false;
    }
    let mut i: usize = 0;
    while i < a.len()
        invariant
            a@ == ext@,
            b@ == "jsonc"@,
            a@.len() == b@.len(),
            i <= a@.len(),
            forall|k: int| 0 <= k < i ==> ascii_folded(a@[k]) == ascii_folded(b@[k]),
        decreases a.len() - i,
    {
        let x = a[i];
        let y = b[i];
        let fx: u32 = if 'A' <= x && x <= 'Z' { x as u32 + 32 } else { x as u32 };
        let fy: u32 = if 'A' <= y && y <= 'Z' { y as u32 + 32 } else { y as u32 };
        if fx != fy {
            return false;
        }
        i += 1;
    }
    true
}

/// Whether the path names a file with the `jsonc` extension, in any ASCII case.
pub fn is_jsonc_path(path: &str) -> (r: bool)
    ensures
        r == (file_extension(path@) is Some && eq_ignore_ascii_case(file_extension(path@)->0, "jsonc"@)),
{
    match extension_of(path) {
        Some(ext) => is_jsonc_extension(ext.as_str()),
        None => false,
    }
}

} // verus!
