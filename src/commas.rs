use vstd::prelude::*;

use crate::chars::{chars_of, is_white_space, string_of, white_space};
use crate::comments::quoted_body;

verus! {

/// The first non-whitespace character of `t` closes an array or an object.
pub open spec fn closer_follows(t: Seq<char>) -> bool
    decreases t.len(),
{
    if t.len() == 0 {
        false
    } else if white_space(t[0]) {
        closer_follows(t.drop_first())
    } else {
        t[0] == ']' || t[0] == '}'
    }
}

/// The output of the separator scanner on `s`, starting inside a quoted
/// string when `quoted` holds.
pub open spec fn decomma(s: Seq<char>, quoted: bool) -> Seq<char>
    decreases s.len(),
{
    if s.len() == 0 {
        seq![]
    } else {
        let c = s[0];
        if quoted {
            if c == '\\' && s.len() > 1 {
                seq![c, s[1]] + decomma(s.subrange(2, s.len() as int), true)
            } else {
                seq![c] + decomma(s.drop_first(), c != '"')
            }
        } else if c == '"' {
            seq![c] + decomma(s.drop_first(), true)
        } else if c == ',' && closer_follows(s.drop_first()) {
            decomma(s.drop_first(), false)
        } else {
            seq![c] + decomma(s.drop_first(), false)
        }
    }
}

/// `s` with each separator that stands right before a closer (whitespace
/// aside) removed, quoted strings kept verbatim.
pub open spec fn separators_stripped(s: Seq<char>) -> Seq<char> {
    decomma(s, false)
}

/// `s` holds no comma outside quoted strings whose next non-whitespace
/// character closes an array or an object.
pub open spec fn separator_free(s: Seq<char>, quoted: bool) -> bool
    decreases s.len(),
{
    if s.len() == 0 {
        true
    } else {
        let c = s[0];
        if quoted {
            if c == '\\' && s.len() > 1 {
                separator_free(s.subrange(2, s.len() as int), true)
            } else {
                separator_free(s.drop_first(), c != '"')
            }
        } else if c == '"' {
            separator_free(s.drop_first(), true)
        } else {
            !(c == ',' && closer_follows(s.drop_first())) && separator_free(s.drop_first(), false)
        }
    }
}

/// Text without trailing separators passes the separator scanner unchanged.
pub proof fn lemma_separator_free_unchanged(s: Seq<char>, quoted: bool)
    requires
        separator_free(s, quoted),
    ensures
        decomma(s, quoted) == s,
    decreases s.len(),
{
    if s.len() > 0 {
        let c = s[0];
        if quoted && c == '\\' && s.len() > 1 {
            lemma_separator_free_unchanged(s.subrange(2, s.len() as int), true);
            assert(seq![c, s[1]] + s.subrange(2, s.len() as int) =~= s);
        } else {
            let q = if quoted { c != '"' } else { c == '"' };
            lemma_separator_free_unchanged(s.drop_first(), q);
            assert(seq![c] + s.drop_first() =~= s);
        }
    }
}

proof fn lemma_quoted_body_kept(b: Seq<char>, t: Seq<char>)
    requires
        quoted_body(b),
    ensures
        decomma(b + seq!['"'] + t, true) == b + seq!['"'] + decomma(t, false),
    decreases b.len(),
{
    let s = b + seq!['"'] + t;
    if b.len() == 0 {
        assert(s.drop_first() =~= t);
        assert(b + seq!['"'] + decomma(t, false) =~= seq!['"'] + decomma(t, false));
    } else if b[0] == '\\' {
        let b2 = b.subrange(2, b.len() as int);
        lemma_quoted_body_kept(b2, t);
        assert(s.subrange(2, s.len() as int) =~= b2 + seq!['"'] + t);
        assert(seq![b[0], b[1]] + (b2 + seq!['"'] + decomma(t, false)) =~= b + seq!['"'] + decomma(t, false));
    } else {
        let b1 = b.drop_first();
        lemma_quoted_body_kept(b1, t);
        assert(s.drop_first() =~= b1 + seq!['"'] + t);
        assert(seq![b[0]] + (b1 + seq!['"'] + decomma(t, false)) =~= b + seq!['"'] + decomma(t, false));
    }
}

/// A string literal met outside quotes passes the separator scanner verbatim,
/// whatever separators and closers it holds.
pub proof fn lemma_quoted_string_kept_by_separators(b: Seq<char>, t: Seq<char>)
    requires
        quoted_body(b),
    ensures
        separators_stripped(seq!['"'] + b + seq!['"'] + t) == seq!['"'] + b + seq!['"'] + separators_stripped(t),
{
    let s = seq!['"'] + b + seq!['"'] + t;
    lemma_quoted_body_kept(b, t);
    assert(s.drop_first() =~= b + seq!['"'] + t);
    assert(seq!['"'] + (b + seq!['"'] + decomma(t, false)) =~= seq!['"'] + b + seq!['"'] + separators_stripped(t));
}

/// Every character of `t` is whitespace.
pub open spec fn all_white(t: Seq<char>) -> bool {
    forall|k: int| 0 <= k < t.len() ==> white_space(t[k])
}

proof fn lemma_closer_follows_append(r: Seq<char>, u: Seq<char>)
    requires
        !all_white(r),
    ensures
        closer_follows(r + u) == closer_follows(r),
    decreases r.len(),
{
    if r.len() > 0 {
        assert((r + u)[0] == r[0]);
        if white_space(r[0]) {
            assert(!all_white(r.drop_first())) by {
                let k = choose|k: int| 0 <= k < r.len() && !white_space(r[k]);
                assert(r.drop_first()[k - 1] == r[k]);
            }
            assert((r + u).drop_first() =~= r.drop_first() + u);
            lemma_closer_follows_append(r.drop_first(), u);
        }
    }
}

/// Whether the separator scan of `t` from state `quoted` ends in a quoted
/// string, when it ends without waiting on what follows `t`: a `\` last in a
/// string, or a comma followed only by whitespace, waits.
pub open spec fn decomma_end(t: Seq<char>, quoted: bool) -> Option<bool>
    decreases t.len(),
{
    if t.len() == 0 {
        Some(quoted)
    } else {
        let c = t[0];
        if quoted {
            if c == '\\' {
                if t.len() > 1 { decomma_end(t.subrange(2, t.len() as int), true) } else { None }
            } else {
                decomma_end(t.drop_first(), c != '"')
            }
        } else if c == ',' && all_white(t.drop_first()) {
            None
        } else {
            decomma_end(t.drop_first(), c == '"')
        }
    }
}

/// When the separator scan of `t` ends without waiting on what follows, the
/// output on `t + u` is the output on `t` followed by the output on `u`.
pub proof fn lemma_decomma_append(t: Seq<char>, u: Seq<char>, quoted: bool)
    requires
        decomma_end(t, quoted) is Some,
    ensures
        decomma(t + u, quoted) == decomma(t, quoted) + decomma(u, decomma_end(t, quoted)->0),
    decreases t.len(),
{
    let s = t + u;
    let e = decomma_end(t, quoted)->0;
    if t.len() == 0 {
        assert(s =~= u);
        assert(decomma(t, quoted) + decomma(u, e) =~= decomma(u, e));
    } else {
        let c = t[0];
        let r1 = t.drop_first();
        assert(s.drop_first() =~= r1 + u);
        if quoted && c == '\\' {
            let r2 = t.subrange(2, t.len() as int);
            assert(s.subrange(2, s.len() as int) =~= r2 + u);
            assert(s[1] == t[1]);
            lemma_decomma_append(r2, u, true);
            assert(seq![c, t[1]] + (decomma(r2, true) + decomma(u, e))
                =~= seq![c, t[1]] + decomma(r2, true) + decomma(u, e));
        } else {
            let q = if quoted { c != '"' } else { c == '"' };
            lemma_decomma_append(r1, u, q);
            if !quoted && c == ',' {
                lemma_closer_follows_append(r1, u);
            }
            assert(seq![c] + (decomma(r1, q) + decomma(u, e)) =~= seq![c] + decomma(r1, q) + decomma(u, e));
        }
    }
}

/// Wherever ordinary text resumes, a string literal passes the separator
/// scanner verbatim, whatever separators and closers it holds.
pub proof fn lemma_quoted_string_kept_by_separators_after(t: Seq<char>, b: Seq<char>, w: Seq<char>)
    requires
        decomma_end(t, false) == Some(false),
        quoted_body(b),
    ensures
        separators_stripped(t + seq!['"'] + b + seq!['"'] + w)
            == separators_stripped(t) + seq!['"'] + b + seq!['"'] + separators_stripped(w),
{
    let rest = seq!['"'] + b + seq!['"'] + w;
    assert(t + seq!['"'] + b + seq!['"'] + w =~= t + rest);
    lemma_decomma_append(t, rest, false);
    lemma_quoted_string_kept_by_separators(b, w);
    assert(separators_stripped(t) + (seq!['"'] + b + seq!['"'] + separators_stripped(w))
        =~= separators_stripped(t) + seq!['"'] + b + seq!['"'] + separators_stripped(w));
}

/// Removes each comma outside quoted strings whose next non-whitespace
/// character is `]` or `}`.
pub fn strip_jsonc_trailing_commas(input: &str) -> (r: String)
    ensures
        r@ == separators_stripped(input@),
{
    let s = chars_of(input);
    let n = s.len();
    let mut out: Vec<char> = Vec::new();
    let mut i: usize = 0;
    let mut in_string = false;
    assert(s@.subrange(0, n as int) =~= s@);
    while i < n
        invariant
            n == s@.len(),
            i <= n,
            out@ + decomma(s@.subrange(i as int, n as int), in_string) == decomma(s@, false),
        decreases n - i,
    {
        let ghost rest = s@.subrange(i as int, n as int);
        assert(rest.drop_first() =~= s@.subrange(i + 1, n as int));
        assert(i + 1 < n ==> rest.subrange(2, rest.len() as int) =~= s@.subrange(i + 2, n as int));
        let c = s[i];
        if in_string {
            out.push(c);
            if c == '\\' && i + 1 < n {
                out.push(s[i + 1]);
                i += 2;
            } else {
                if c == '"' {
                    in_string = false;
                }
                i += 1;
            }
        } else if c == '"' {
            in_string = true;
            out.push(c);
            i += 1;
        } else {
            let mut drop = false;
            if c == ',' {
                let mut j: usize = i + 1;
                while j < n && is_white_space(s[j])
                    invariant
                        n == s@.len(),
                        i < j <= n,
                        closer_follows(s@.subrange(i + 1, n as int)) == closer_follows(s@.subrange(j as int, n as int)),
                    decreases n - j,
                {
                    assert(s@.subrange(j as int, n as int).drop_first() =~= s@.subrange(j + 1, n as int));
                    j += 1;
                }
                if j < n && (s[j] == ']' || s[j] == '}') {
                    drop = true;
                }
                assert(drop == closer_follows(s@.subrange(j as int, n as int)));
            }
            if !drop {
                out.push(c);
            }
            i += 1;
        }
        assert(out@ + decomma(s@.subrange(i as int, n as int), in_string) =~= decomma(s@, false));
    }
    assert(s@.subrange(n as int, n as int) =~= Seq::<char>::empty());
    assert(out@ =~= decomma(s@, false));
    string_of(&out)
}

} // verus!
