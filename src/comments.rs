use vstd::prelude::*;

use crate::chars::{chars_of, string_of};

verus! {

/// Where the comment scanner stands: in ordinary text, inside a quoted
/// string, inside a `//` comment, or inside a `/* */` comment.
#[derive(PartialEq, Eq, Structural, Clone, Copy)]
pub enum CommentScan {
    Code,
    Quoted,
    LineComment,
    BlockComment,
}

/// The output of the comment scanner on `s`, starting in state `m`.
pub open spec fn uncomment(s: Seq<char>, m: CommentScan) -> Seq<char>
    decreases s.len(),
{
    if s.len() == 0 {
        seq![]
    } else {
        let c = s[0];
        let two = s.len() > 1;
        match m {
            CommentScan::Code => {
                if c == '"' {
                    seq![c] + uncomment(s.drop_first(), CommentScan::Quoted)
                } else if c == '/' && two && s[1] == '/' {
                    uncomment(s.subrange(2, s.len() as int), CommentScan::LineComment)
                } else if c == '/' && two && s[1] == '*' {
                    uncomment(s.subrange(2, s.len() as int), CommentScan::BlockComment)
                } else {
                    seq![c] + uncomment(s.drop_first(), CommentScan::Code)
                }
            },
            CommentScan::Quoted => {
                if c == '\\' && two {
                    seq![c, s[1]] + uncomment(s.subrange(2, s.len() as int), CommentScan::Quoted)
                } else if c == '"' {
                    seq![c] + uncomment(s.drop_first(), CommentScan::Code)
                } else {
                    seq![c] + uncomment(s.drop_first(), CommentScan::Quoted)
                }
            },
            CommentScan::LineComment => {
                if c == '\n' {
                    seq![c] + uncomment(s.drop_first(), CommentScan::Code)
                } else if c == '\r' && two && s[1] == '\n' {
                    seq![c, '\n'] + uncomment(s.subrange(2, s.len() as int), CommentScan::Code)
                } else if c == '\r' {
                    seq![c] + uncomment(s.drop_first(), CommentScan::Code)
                } else {
                    uncomment(s.drop_first(), CommentScan::LineComment)
                }
            },
            CommentScan::BlockComment => {
                if c == '*' && two && s[1] == '/' {
                    uncomment(s.subrange(2, s.len() as int), CommentScan::Code)
                } else {
                    uncomment(s.drop_first(), CommentScan::BlockComment)
                }
            },
        }
    }
}

/// `s` with its comments removed: text scanned from the start in ordinary text.
pub open spec fn comments_stripped(s: Seq<char>) -> Seq<char> {
    uncomment(s, CommentScan::Code)
}

/// `s` holds no comment opener outside quoted strings, scanning from state `m`
/// (ordinary text, or inside a quoted string).
pub open spec fn comment_free(s: Seq<char>, m: CommentScan) -> bool
    decreases s.len(),
{
    if s.len() == 0 {
        true
    } else {
        let c = s[0];
        let two = s.len() > 1;
        if m == CommentScan::Quoted {
            if c == '\\' && two {
                comment_free(s.subrange(2, s.len() as int), CommentScan::Quoted)
            } else if c == '"' {
                comment_free(s.drop_first(), CommentScan::Code)
            } else {
                comment_free(s.drop_first(), CommentScan::Quoted)
            }
        } else if c == '"' {
            comment_free(s.drop_first(), CommentScan::Quoted)
        } else if c == '/' && two && (s[1] == '/' || s[1] == '*') {
            false
        } else {
            comment_free(s.drop_first(), CommentScan::Code)
        }
    }
}

/// The state in which the scanner's output is read back: quoted strings stay
/// quoted, everything else is ordinary text.
pub open spec fn resume_state(m: CommentScan) -> CommentScan {
    if m == CommentScan::Quoted {
        CommentScan::Quoted
    } else {
        CommentScan::Code
    }
}

/// Text without comment openers passes the comment scanner unchanged.
pub proof fn lemma_comment_free_unchanged(s: Seq<char>, m: CommentScan)
    requires
        m == CommentScan::Code || m == CommentScan::Quoted,
        comment_free(s, m),
    ensures
        uncomment(s, m) == s,
    decreases s.len(),
{
    if s.len() > 0 {
        let c = s[0];
        if m == CommentScan::Quoted && c == '\\' && s.len() > 1 {
            lemma_comment_free_unchanged(s.subrange(2, s.len() as int), m);
            assert(seq![c, s[1]] + s.subrange(2, s.len() as int) =~= s);
        } else if (m == CommentScan::Quoted && c == '"') || (m == CommentScan::Code && c != '"') {
            lemma_comment_free_unchanged(s.drop_first(), CommentScan::Code);
            assert(seq![c] + s.drop_first() =~= s);
        } else {
            lemma_comment_free_unchanged(s.drop_first(), CommentScan::Quoted);
            assert(seq![c] + s.drop_first() =~= s);
        }
    }
}

proof fn lemma_first_kept(s: Seq<char>)
    requires
        s.len() > 0,
        s[0] != '/',
    ensures
        uncomment(s, CommentScan::Code).len() > 0,
        uncomment(s, CommentScan::Code)[0] == s[0],
{
}

/// What the comment scanner writes holds no comment opener.
pub proof fn lemma_uncomment_comment_free(s: Seq<char>, m: CommentScan)
    ensures
        comment_free(uncomment(s, m), resume_state(m)),
    decreases s.len(),
{
    if s.len() > 0 {
        let c = s[0];
        let two = s.len() > 1;
        let r1 = s.drop_first();
        let r2 = if two { s.subrange(2, s.len() as int) } else { seq![] };
        let out = uncomment(s, m);
        match m {
            CommentScan::Code => {
                if c == '"' {
                    lemma_uncomment_comment_free(r1, CommentScan::Quoted);
                    assert(out.drop_first() =~= uncomment(r1, CommentScan::Quoted));
                } else if c == '/' && two && s[1] == '/' {
                    lemma_uncomment_comment_free(r2, CommentScan::LineComment);
                } else if c == '/' && two && s[1] == '*' {
                    lemma_uncomment_comment_free(r2, CommentScan::BlockComment);
                } else {
                    lemma_uncomment_comment_free(r1, CommentScan::Code);
                    assert(out.drop_first() =~= uncomment(r1, CommentScan::Code));
                    if c == '/' && two {
                        lemma_first_kept(r1);
                        assert(out[1] == uncomment(r1, CommentScan::Code)[0]);
                    }
                }
            },
            CommentScan::Quoted => {
                if c == '\\' && two {
                    lemma_uncomment_comment_free(r2, CommentScan::Quoted);
                    assert(out.subrange(2, out.len() as int) =~= uncomment(r2, CommentScan::Quoted));
                } else if c == '"' {
                    lemma_uncomment_comment_free(r1, CommentScan::Code);
                    assert(out.drop_first() =~= uncomment(r1, CommentScan::Code));
                } else {
                    lemma_uncomment_comment_free(r1, CommentScan::Quoted);
                    assert(out.drop_first() =~= uncomment(r1, CommentScan::Quoted));
                }
            },
            CommentScan::LineComment => {
                if c == '\n' || (c == '\r' && !(two && s[1] == '\n')) {
                    lemma_uncomment_comment_free(r1, CommentScan::Code);
                    assert(out.drop_first() =~= uncomment(r1, CommentScan::Code));
                } else if c == '\r' {
                    lemma_uncomment_comment_free(r2, CommentScan::Code);
                    assert(out.drop_first().drop_first() =~= uncomment(r2, CommentScan::Code));
                    assert(out.drop_first()[0] == '\n');
                    assert(comment_free(out.drop_first(), CommentScan::Code));
                } else {
                    lemma_uncomment_comment_free(r1, CommentScan::LineComment);
                }
            },
            CommentScan::BlockComment => {
                if c == '*' && two && s[1] == '/' {
                    lemma_uncomment_comment_free(r2, CommentScan::Code);
                } else {
                    lemma_uncomment_comment_free(r1, CommentScan::BlockComment);
                }
            },
        }
    }
}

/// Stripping comments twice gives what stripping once gives.
pub proof fn lemma_strip_comments_idempotent(s: Seq<char>)
    ensures
        comments_stripped(comments_stripped(s)) == comments_stripped(s),
{
    lemma_uncomment_comment_free(s, CommentScan::Code);
    lemma_comment_free_unchanged(comments_stripped(s), CommentScan::Code);
}

/// `b` can stand between the quotes of a string literal: it holds no bare `"`,
/// and each `\` escapes the character after it.
pub open spec fn quoted_body(b: Seq<char>) -> bool
    decreases b.len(),
{
    if b.len() == 0 {
        true
    } else if b[0] == '\\' {
        b.len() > 1 && quoted_body(b.subrange(2, b.len() as int))
    } else {
        b[0] != '"' && quoted_body(b.drop_first())
    }
}

proof fn lemma_quoted_body_kept(b: Seq<char>, t: Seq<char>)
    requires
        quoted_body(b),
    ensures
        uncomment(b + seq!['"'] + t, CommentScan::Quoted) == b + seq!['"'] + uncomment(t, CommentScan::Code),
    decreases b.len(),
{
    let s = b + seq!['"'] + t;
    if b.len() == 0 {
        assert(s.drop_first() =~= t);
        assert(b + seq!['"'] + uncomment(t, CommentScan::Code) =~= seq!['"'] + uncomment(t, CommentScan::Code));
    } else if b[0] == '\\' {
        let b2 = b.subrange(2, b.len() as int);
        lemma_quoted_body_kept(b2, t);
        assert(s.subrange(2, s.len() as int) =~= b2 + seq!['"'] + t);
        assert(seq![b[0], b[1]] + (b2 + seq!['"'] + uncomment(t, CommentScan::Code)) =~= b + seq!['"'] + uncomment(t, CommentScan::Code));
    } else {
        let b1 = b.drop_first();
        lemma_quoted_body_kept(b1, t);
        assert(s.drop_first() =~= b1 + seq!['"'] + t);
        assert(seq![b[0]] + (b1 + seq!['"'] + uncomment(t, CommentScan::Code)) =~= b + seq!['"'] + uncomment(t, CommentScan::Code));
    }
}

/// A string literal met in ordinary text passes the comment scanner verbatim,
/// whatever comment-like text it holds.
pub proof fn lemma_quoted_string_kept(b: Seq<char>, t: Seq<char>)
    requires
        quoted_body(b),
    ensures
        comments_stripped(seq!['"'] + b + seq!['"'] + t) == seq!['"'] + b + seq!['"'] + comments_stripped(t),
{
    let s = seq!['"'] + b + seq!['"'] + t;
    lemma_quoted_body_kept(b, t);
    assert(s.drop_first() =~= b + seq!['"'] + t);
    assert(seq!['"'] + (b + seq!['"'] + uncomment(t, CommentScan::Code)) =~= seq!['"'] + b + seq!['"'] + comments_stripped(t));
}

/// `t` holds no line break.
pub open spec fn single_line(t: Seq<char>) -> bool {
    forall|k: int| 0 <= k < t.len() ==> t[k] != '\n' && t[k] != '\r'
}

proof fn lemma_line_comment_skips(t: Seq<char>, rest: Seq<char>)
    requires
        single_line(t),
    ensures
        uncomment(t + rest, CommentScan::LineComment) == uncomment(rest, CommentScan::LineComment),
    decreases t.len(),
{
    if t.len() > 0 {
        lemma_line_comment_skips(t.drop_first(), rest);
        assert((t + rest).drop_first() =~= t.drop_first() + rest);
    } else {
        assert(t + rest =~= rest);
    }
}

/// A line comment that runs to the end of the text leaves nothing behind.
pub proof fn lemma_line_comment_at_end(t: Seq<char>)
    requires
        single_line(t),
    ensures
        comments_stripped(seq!['/', '/'] + t) == Seq::<char>::empty(),
{
    let s = seq!['/', '/'] + t;
    assert(s.subrange(2, s.len() as int) =~= t + Seq::<char>::empty());
    lemma_line_comment_skips(t, Seq::<char>::empty());
}

/// A line comment ended by a carriage return and line feed leaves that pair.
pub proof fn lemma_line_comment_keeps_crlf(t: Seq<char>, u: Seq<char>)
    requires
        single_line(t),
    ensures
        comments_stripped(seq!['/', '/'] + t + seq!['\r', '\n'] + u) == seq!['\r', '\n'] + comments_stripped(u),
{
    let s = seq!['/', '/'] + t + seq!['\r', '\n'] + u;
    let rest = seq!['\r', '\n'] + u;
    assert(s.subrange(2, s.len() as int) =~= t + rest);
    lemma_line_comment_skips(t, rest);
    assert(rest.subrange(2, rest.len() as int) =~= u);
}

/// Whether the scanner, in state `m`, needs the character after `c` to decide.
pub open spec fn looks_ahead(c: char, m: CommentScan) -> bool {
    match m {
        CommentScan::Code => c == '/',
        CommentScan::Quoted => c == '\\',
        CommentScan::LineComment => c == '\r',
        CommentScan::BlockComment => c == '*',
    }
}

/// The scanner's state after reading all of `t` from state `m`, and whether it
/// stops there between two steps, not waiting on the character after `t`.
pub open spec fn scan_end(t: Seq<char>, m: CommentScan) -> Option<CommentScan>
    decreases t.len(),
{
    if t.len() == 0 {
        Some(m)
    } else if t.len() == 1 && looks_ahead(t[0], m) {
        None
    } else {
        let c = t[0];
        let two = t.len() > 1;
        let r1 = t.drop_first();
        let r2 = t.subrange(2, t.len() as int);
        match m {
            CommentScan::Code => {
                if c == '"' {
                    scan_end(r1, CommentScan::Quoted)
                } else if c == '/' && two && t[1] == '/' {
                    scan_end(r2, CommentScan::LineComment)
                } else if c == '/' && two && t[1] == '*' {
                    scan_end(r2, CommentScan::BlockComment)
                } else {
                    scan_end(r1, CommentScan::Code)
                }
            },
            CommentScan::Quoted => {
                if c == '\\' && two {
                    scan_end(r2, CommentScan::Quoted)
                } else if c == '"' {
                    scan_end(r1, CommentScan::Code)
                } else {
                    scan_end(r1, CommentScan::Quoted)
                }
            },
            CommentScan::LineComment => {
                if c == '\n' {
                    scan_end(r1, CommentScan::Code)
                } else if c == '\r' && two && t[1] == '\n' {
                    scan_end(r2, CommentScan::Code)
                } else if c == '\r' {
                    scan_end(r1, CommentScan::Code)
                } else {
                    scan_end(r1, CommentScan::LineComment)
                }
            },
            CommentScan::BlockComment => {
                if c == '*' && two && t[1] == '/' {
                    scan_end(r2, CommentScan::Code)
                } else {
                    scan_end(r1, CommentScan::BlockComment)
                }
            },
        }
    }
}

/// When the scan of `t` stops between two steps, the output on `t + u` is the
/// output on `t` followed by the output on `u` from the state reached.
pub proof fn lemma_uncomment_append(t: Seq<char>, u: Seq<char>, m: CommentScan)
    requires
        scan_end(t, m) is Some,
    ensures
        uncomment(t + u, m) == uncomment(t, m) + uncomment(u, scan_end(t, m)->0),
    decreases t.len(),
{
    let s = t + u;
    if t.len() == 0 {
        assert(s =~= u);
        assert(uncomment(t, m) + uncomment(u, m) =~= uncomment(u, m));
    } else {
        let c = t[0];
        let two = t.len() > 1;
        let r1 = t.drop_first();
        assert(s.drop_first() =~= r1 + u);
        if two {
            let r2 = t.subrange(2, t.len() as int);
            assert(s.subrange(2, s.len() as int) =~= r2 + u);
            assert(s[1] == t[1]);
            if (m == CommentScan::Code && c == '/' && (t[1] == '/' || t[1] == '*'))
                || (m == CommentScan::Quoted && c == '\\')
                || (m == CommentScan::LineComment && c == '\r' && t[1] == '\n')
                || (m == CommentScan::BlockComment && c == '*' && t[1] == '/') {
                let m2 = if m == CommentScan::Code && t[1] == '/' {
                    CommentScan::LineComment
                } else if m == CommentScan::Code {
                    CommentScan::BlockComment
                } else if m == CommentScan::Quoted {
                    CommentScan::Quoted
                } else {
                    CommentScan::Code
                };
                lemma_uncomment_append(r2, u, m2);
                if m == CommentScan::Quoted {
                    assert(seq![c, t[1]] + (uncomment(r2, m2) + uncomment(u, scan_end(t, m)->0))
                        =~= seq![c, t[1]] + uncomment(r2, m2) + uncomment(u, scan_end(t, m)->0));
                } else if m == CommentScan::LineComment {
                    assert(seq![c, '\n'] + (uncomment(r2, m2) + uncomment(u, scan_end(t, m)->0))
                        =~= seq![c, '\n'] + uncomment(r2, m2) + uncomment(u, scan_end(t, m)->0));
                }
                return;
            }
        }
        let m1 = match m {
            CommentScan::Code => if c == '"' { CommentScan::Quoted } else { CommentScan::Code },
            CommentScan::Quoted => if c == '"' { CommentScan::Code } else { CommentScan::Quoted },
            CommentScan::LineComment => if c == '\n' || c == '\r' { CommentScan::Code } else { CommentScan::LineComment },
            CommentScan::BlockComment => CommentScan::BlockComment,
        };
        lemma_uncomment_append(r1, u, m1);
        assert(seq![c] + (uncomment(r1, m1) + uncomment(u, scan_end(t, m)->0))
            =~= seq![c] + uncomment(r1, m1) + uncomment(u, scan_end(t, m)->0));
    }
}

/// `t` is read to its end in ordinary text: outside strings and comments, not
/// waiting on the next character.
pub open spec fn ends_in_code(t: Seq<char>) -> bool {
    scan_end(t, CommentScan::Code) == Some(CommentScan::Code)
}

/// Wherever ordinary text resumes, a string literal passes the comment scanner
/// verbatim, whatever comment-like text it holds.
pub proof fn lemma_quoted_string_kept_after(t: Seq<char>, b: Seq<char>, w: Seq<char>)
    requires
        ends_in_code(t),
        quoted_body(b),
    ensures
        comments_stripped(t + seq!['"'] + b + seq!['"'] + w)
            == comments_stripped(t) + seq!['"'] + b + seq!['"'] + comments_stripped(w),
{
    let rest = seq!['"'] + b + seq!['"'] + w;
    assert(t + seq!['"'] + b + seq!['"'] + w =~= t + rest);
    lemma_uncomment_append(t, rest, CommentScan::Code);
    lemma_quoted_string_kept(b, w);
    assert(comments_stripped(t) + (seq!['"'] + b + seq!['"'] + comments_stripped(w))
        =~= comments_stripped(t) + seq!['"'] + b + seq!['"'] + comments_stripped(w));
}

/// A line comment that runs to the end of the text leaves nothing behind,
/// wherever ordinary text stood before it.
pub proof fn lemma_line_comment_at_end_after(t: Seq<char>, u: Seq<char>)
    requires
        ends_in_code(t),
        single_line(u),
    ensures
        comments_stripped(t + seq!['/', '/'] + u) == comments_stripped(t),
{
    let rest = seq!['/', '/'] + u;
    assert(t + seq!['/', '/'] + u =~= t + rest);
    lemma_uncomment_append(t, rest, CommentScan::Code);
    lemma_line_comment_at_end(u);
    assert(comments_stripped(t) + Seq::<char>::empty() =~= comments_stripped(t));
}

/// A line comment ended by a carriage return and line feed leaves exactly that
/// pair, wherever ordinary text stood before it.
pub proof fn lemma_line_comment_keeps_crlf_after(t: Seq<char>, u: Seq<char>, w: Seq<char>)
    requires
        ends_in_code(t),
        single_line(u),
    ensures
        comments_stripped(t + seq!['/', '/'] + u + seq!['\r', '\n'] + w)
            == comments_stripped(t) + seq!['\r', '\n'] + comments_stripped(w),
{
    let rest = seq!['/', '/'] + u + seq!['\r', '\n'] + w;
    assert(t + seq!['/', '/'] + u + seq!['\r', '\n'] + w =~= t + rest);
    lemma_uncomment_append(t, rest, CommentScan::Code);
    lemma_line_comment_keeps_crlf(u, w);
    assert(comments_stripped(t) + (seq!['\r', '\n'] + comments_stripped(w))
        =~= comments_stripped(t) + seq!['\r', '\n'] + comments_stripped(w));
}

/// The line-break characters (`\r` and `\n`) of `s`, in order.
pub open spec fn line_breaks(s: Seq<char>) -> Seq<char>
    decreases s.len(),
{
    if s.len() == 0 {
        seq![]
    } else if s[0] == '\r' || s[0] == '\n' {
        seq![s[0]] + line_breaks(s.drop_first())
    } else {
        line_breaks(s.drop_first())
    }
}

proof fn lemma_line_breaks_append(a: Seq<char>, b: Seq<char>)
    ensures
        line_breaks(a + b) == line_breaks(a) + line_breaks(b),
    decreases a.len(),
{
    if a.len() == 0 {
        assert(a + b =~= b);
        assert(line_breaks(a) + line_breaks(b) =~= line_breaks(b));
    } else {
        assert((a + b).drop_first() =~= a.drop_first() + b);
        lemma_line_breaks_append(a.drop_first(), b);
        assert(seq![a[0]] + (line_breaks(a.drop_first()) + line_breaks(b))
            =~= seq![a[0]] + line_breaks(a.drop_first()) + line_breaks(b));
    }
}

proof fn lemma_line_breaks_one(c: char)
    ensures
        line_breaks(seq![c]) == (if c == '\r' || c == '\n' { seq![c] } else { Seq::<char>::empty() }),
{
    let e = Seq::<char>::empty();
    assert(seq![c].drop_first() =~= e);
    assert(seq![c][0] == c);
    assert(line_breaks(e) == e);
    assert(seq![c] + e =~= seq![c]);
}

/// Scanning `s` from state `m` never opens a block comment.
pub open spec fn opens_no_block(s: Seq<char>, m: CommentScan) -> bool
    decreases s.len(),
{
    if s.len() == 0 {
        m != CommentScan::BlockComment
    } else {
        let c = s[0];
        let two = s.len() > 1;
        match m {
            CommentScan::Code => {
                if c == '"' {
                    opens_no_block(s.drop_first(), CommentScan::Quoted)
                } else if c == '/' && two && s[1] == '/' {
                    opens_no_block(s.subrange(2, s.len() as int), CommentScan::LineComment)
                } else if c == '/' && two && s[1] == '*' {
                    false
                } else {
                    opens_no_block(s.drop_first(), CommentScan::Code)
                }
            },
            CommentScan::Quoted => {
                if c == '\\' && two {
                    opens_no_block(s.subrange(2, s.len() as int), CommentScan::Quoted)
                } else {
                    opens_no_block(s.drop_first(), if c == '"' { CommentScan::Code } else { CommentScan::Quoted })
                }
            },
            CommentScan::LineComment => {
                if c == '\r' && two && s[1] == '\n' {
                    opens_no_block(s.subrange(2, s.len() as int), CommentScan::Code)
                } else if c == '\n' || c == '\r' {
                    opens_no_block(s.drop_first(), CommentScan::Code)
                } else {
                    opens_no_block(s.drop_first(), CommentScan::LineComment)
                }
            },
            CommentScan::BlockComment => false,
        }
    }
}

/// Where no block comment is opened, the comment scanner keeps every line
/// break, in order: each line comment's `\n`, `\r\n` or lone `\r` comes out
/// once.
pub proof fn lemma_line_breaks_kept(s: Seq<char>, m: CommentScan)
    requires
        opens_no_block(s, m),
    ensures
        line_breaks(uncomment(s, m)) == line_breaks(s),
    decreases s.len(),
{
    if s.len() > 0 {
        let c = s[0];
        let two = s.len() > 1;
        let r1 = s.drop_first();
        assert(s =~= seq![c] + r1);
        lemma_line_breaks_append(seq![c], r1);
        lemma_line_breaks_one(c);
        if two {
            let d = s[1];
            let r2 = s.subrange(2, s.len() as int);
            assert(s =~= seq![c, d] + r2);
            assert(seq![c, d] =~= seq![c] + seq![d]);
            lemma_line_breaks_append(seq![c, d], r2);
            lemma_line_breaks_append(seq![c], seq![d]);
            lemma_line_breaks_one(d);
            if (m == CommentScan::Code && c == '/' && d == '/')
                || (m == CommentScan::Quoted && c == '\\')
                || (m == CommentScan::LineComment && c == '\r' && d == '\n') {
                let m2 = if m == CommentScan::Code {
                    CommentScan::LineComment
                } else if m == CommentScan::Quoted {
                    CommentScan::Quoted
                } else {
                    CommentScan::Code
                };
                lemma_line_breaks_kept(r2, m2);
                if m != CommentScan::Code {
                    lemma_line_breaks_append(seq![c, d], uncomment(r2, m2));
                }
                return;
            }
        }
        let m1 = match m {
            CommentScan::Code => if c == '"' { CommentScan::Quoted } else { CommentScan::Code },
            CommentScan::Quoted => if c == '"' { CommentScan::Code } else { CommentScan::Quoted },
            CommentScan::LineComment => if c == '\n' || c == '\r' { CommentScan::Code } else { CommentScan::LineComment },
            CommentScan::BlockComment => CommentScan::BlockComment,
        };
        lemma_line_breaks_kept(r1, m1);
        lemma_line_breaks_append(seq![c], uncomment(r1, m1));
    }
}

/// Removes `//` line comments and `/* */` block comments, keeping quoted
/// strings verbatim and the line break that ends a line comment.
pub fn strip_jsonc_comments(input: &str) -> (r: String)
    ensures
        r@ == comments_stripped(input@),
{
    let s = chars_of(input);
    let n = s.len();
    let mut out: Vec<char> = Vec::new();
    let mut mode = CommentScan::Code;
    let mut i: usize = 0;
    assert(s@.subrange(0, n as int) =~= s@);
    while i < n
        invariant
            n == s@.len(),
            i <= n,
            out@ + uncomment(s@.subrange(i as int, n as int), mode) == uncomment(s@, CommentScan::Code),
        decreases n - i,
    {
        let ghost rest = s@.subrange(i as int, n as int);
        assert(rest.drop_first() =~= s@.subrange(i + 1, n as int));
        assert(i + 1 < n ==> rest.subrange(2, rest.len() as int) =~= s@.subrange(i + 2, n as int));
        let c = s[i];
        let two = i + 1 < n;
        match mode {
            CommentScan::Code => {
                if c == '"' {
                    out.push(c);
                    mode = CommentScan::Quoted;
                    i += 1;
                } else if c == '/' && two && s[i + 1] == '/' {
                    mode = CommentScan::LineComment;
                    i += 2;
                } else if c == '/' && two && s[i + 1] == '*' {
                    mode = CommentScan::BlockComment;
                    i += 2;
                } else {
                    out.push(c);
                    i += 1;
                }
            },
            CommentScan::Quoted => {
                out.push(c);
                if c == '\\' && two {
                    out.push(s[i + 1]);
                    i += 2;
                } else {
                    if c == '"' {
                        mode = CommentScan::Code;
                    }
                    i += 1;
                }
            },
            CommentScan::LineComment => {
                if c == '\n' {
                    out.push(c);
                    mode = CommentScan::Code;
                    i += 1;
                } else if c == '\r' {
                    out.push(c);
                    mode = CommentScan::Code;
                    if two && s[i + 1] == '\n' {
                        out.push('\n');
                        i += 2;
                    } else {
                        i += 1;
                    }
                } else {
                    i += 1;
                }
            },
            CommentScan::BlockComment => {
                if c == '*' && two && s[i + 1] == '/' {
                    mode = CommentScan::Code;
                    i += 2;
                } else {
                    i += 1;
                }
            },
        }
        assert(out@ + uncomment(s@.subrange(i as int, n as int), mode) =~= uncomment(s@, CommentScan::Code));
    }
    assert(s@.subrange(n as int, n as int) =~= Seq::<char>::empty());
    assert(out@ =~= uncomment(s@, CommentScan::Code));
    string_of(&out)
}

} // verus!
