//! Path handling for the render pipeline: normalizing a subtitle path into a
//! filter-graph argument (forward slashes, colons escaped with a backslash),
//! undoing that escaping, enforcing the container extension on the output
//! path, and shortening a path for display.

use vstd::prelude::*;
use vstd::string::*;

verus! {

/// The subtitle path with every backslash replaced by a forward slash, the
/// path-separator form the filter syntax expects.
pub open spec fn slashed(s: Seq<char>) -> Seq<char> {
    s.map_values(|c: char| if c == '\\' { '/' } else { c })
}

/// Every colon prefixed with a backslash, so that it no longer reads as the
/// filter-graph argument separator.
pub open spec fn escape_colons(s: Seq<char>) -> Seq<char>
    decreases s.len(),
{
    if s.len() == 0 {
        Seq::empty()
    } else {
        (if s[0] == ':' {
            seq!['\\', ':']
        } else {
            seq![s[0]]
        }) + escape_colons(s.drop_first())
    }
}

/// The inverse of `escape_colons`: each backslash-colon pair collapses back
/// to a bare colon; everything else is kept as it stands.
pub open spec fn unescape_colons(s: Seq<char>) -> Seq<char>
    decreases s.len(),
{
    if s.len() >= 2 && s[0] == '\\' && s[1] == ':' {
        seq![':'] + unescape_colons(s.subrange(2, s.len() as int))
    } else if s.len() >= 1 {
        seq![s[0]] + unescape_colons(s.drop_first())
    } else {
        Seq::empty()
    }
}

/// A subtitle path as it is embedded in the filter argument: slashes
/// normalized first, then colons escaped.
pub open spec fn escaped_filter_path(s: Seq<char>) -> Seq<char> {
    escape_colons(slashed(s))
}

/// No colon in `s` stands on its own: each is immediately preceded by a
/// backslash.
pub open spec fn colons_escaped(s: Seq<char>) -> bool {
    forall|i: int| 0 <= i < s.len() && #[trigger] s[i] == ':' ==> i > 0 && s[i - 1] == '\\'
}

/// Relies on `String::push`: appends the given character to the end of the
/// string.
#[verifier::external_body]
pub(crate) fn push_char(s: &mut String, c: char)
    ensures
        final(s)@ == old(s)@.push(c),
{
    s.push(c);
}

proof fn lemma_escape_colons_concat(a: Seq<char>, b: Seq<char>)
    ensures
        escape_colons(a + b) == escape_colons(a) + escape_colons(b),
    decreases a.len(),
{
    if a.len() == 0 {
        assert(a + b =~= b);
        assert(escape_colons(a) + escape_colons(b) =~= escape_colons(b));
    } else {
        assert((a + b).drop_first() =~= a.drop_first() + b);
        lemma_escape_colons_concat(a.drop_first(), b);
        assert(escape_colons(a + b) =~= escape_colons(a) + escape_colons(b));
    }
}

proof fn lemma_escaped_filter_path_step(s: Seq<char>, i: int)
    requires
        0 <= i < s.len(),
    ensures
        escaped_filter_path(s.subrange(0, i + 1)) == escaped_filter_path(s.subrange(0, i)) + (
        if s[i] == '\\' {
            seq!['/']
        } else if s[i] == ':' {
            seq!['\\', ':']
        } else {
            seq![s[i]]
        }),
{
    let a = s.subrange(0, i);
    let one = seq![s[i]];
    assert(s.subrange(0, i + 1) =~= a + one);
    assert(slashed(a + one) =~= slashed(a) + slashed(one));
    lemma_escape_colons_concat(slashed(a), slashed(one));
    let c = if s[i] == '\\' {
        '/'
    } else {
        s[i]
    };
    assert(slashed(one) =~= seq![c]);
    assert(seq![c][0] == c);
    assert(seq![c].drop_first() =~= Seq::<char>::empty());
    assert(escape_colons(Seq::<char>::empty()) =~= Seq::<char>::empty());
    if c == ':' {
        assert(escape_colons(seq![c]) =~= seq!['\\', ':']);
    } else {
        assert(escape_colons(seq![c]) =~= seq![c]);
    }
}

/// Turns a subtitle path into the form embedded in the filter-graph argument:
/// backslashes become forward slashes, and every colon of the result is
/// escaped with a backslash.
pub fn escape_filter_path(path: &str) -> (r: String)
    ensures
        r@ == escaped_filter_path(path@),
{
    let n: usize = path.unicode_len();
    let mut out: String = String::new();
    let mut i: usize = 0;
    while i < n
        invariant
            n == path@.len(),
            i <= n,
            out@ == escaped_filter_path(path@.subrange(0, i as int)),
        decreases n - i,
    {
        let c: char = path.get_char(i);
        if c == '\\' {
            push_char(&mut out, '/');
        } else if c == ':' {
            push_char(&mut out, '\\');
            push_char(&mut out, ':');
        } else {
            push_char(&mut out, c);
        }
        proof {
            lemma_escaped_filter_path_step(path@, i as int);
            assert(out@ =~= escaped_filter_path(path@.subrange(0, i + 1 as int)));
        }
        i = i + 1;
    }
    proof {
        assert(path@.subrange(0, n as int) =~= path@);
    }
    out
}

/// Undoes the colon escaping of `escape_filter_path`, recovering the
/// forward-slash form of the original path.
pub fn unescape_filter_path(s: &str) -> (r: String)
    ensures
        r@ == unescape_colons(s@),
{
    let n: usize = s.unicode_len();
    let mut out: String = String::new();
    let mut i: usize = 0;
    proof {
        assert(s@.subrange(0, n as int) =~= s@);
        assert(Seq::<char>::empty() + unescape_colons(s@) =~= unescape_colons(s@));
    }
    while i < n
        invariant
            n == s@.len(),
            i <= n,
            unescape_colons(s@) == out@ + unescape_colons(s@.subrange(i as int, n as int)),
        decreases n - i,
    {
        let ghost tail = s@.subrange(i as int, n as int);
        let c: char = s.get_char(i);
        let mut pair: bool = false;
        if c == '\\' && i + 1 < n {
            let d: char = s.get_char(i + 1);
            if d == ':' {
                pair = true;
            }
        }
        if pair {
            push_char(&mut out, ':');
            proof {
                assert(tail.subrange(2, tail.len() as int) =~= s@.subrange(
                    i + 2 as int,
                    n as int,
                ));
                assert(out@ + unescape_colons(s@.subrange(i + 2 as int, n as int))
                    =~= unescape_colons(s@));
            }
            i = i + 2;
        } else {
            push_char(&mut out, c);
            proof {
                assert(tail.drop_first() =~= s@.subrange(i + 1 as int, n as int));
                assert(out@ + unescape_colons(s@.subrange(i + 1 as int, n as int))
                    =~= unescape_colons(s@));
            }
            i = i + 1;
        }
    }
    proof {
        assert(s@.subrange(n as int, n as int) =~= Seq::<char>::empty());
        assert(out@ + unescape_colons(Seq::<char>::empty()) =~= out@);
    }
    out
}

/// Escaping leaves no bare colon: every colon of the escaped path is
/// immediately preceded by a backslash.
proof fn lemma_escape_colons_escaped(s: Seq<char>)
    requires
        forall|i: int| 0 <= i < s.len() ==> s[i] != '\\',
    ensures
        colons_escaped(escape_colons(s)),
    decreases s.len(),
{
    if s.len() > 0 {
        let rest = s.drop_first();
        assert(forall|i: int| 0 <= i < rest.len() ==> rest[i] == s[i + 1]);
        lemma_escape_colons_escaped(rest);
        let h = if s[0] == ':' {
            seq!['\\', ':']
        } else {
            seq![s[0]]
        };
        let e = escape_colons(s);
        let t = escape_colons(rest);
        assert(e == h + t);
        assert forall|i: int| 0 <= i < e.len() && #[trigger] e[i] == ':' implies i > 0 && e[i - 1]
            == '\\' by {
            if i < h.len() {
                assert(e[i] == h[i]);
                if s[0] == ':' {
                    assert(h[0] == '\\');
                } else {
                    assert(h[0] == s[0]);
                }
            } else {
                let j = i - h.len();
                assert(e[i] == t[j]);
                assert(j > 0 && t[j - 1] == '\\');
                assert(e[i - 1] == t[j - 1]);
            }
        }
    }
}

/// Unescaping undoes escaping exactly, on any string free of backslashes.
proof fn lemma_unescape_escape_colons(s: Seq<char>)
    requires
        forall|i: int| 0 <= i < s.len() ==> s[i] != '\\',
    ensures
        unescape_colons(escape_colons(s)) == s,
    decreases s.len(),
{
    if s.len() == 0 {
        assert(escape_colons(s) =~= Seq::<char>::empty());
        assert(unescape_colons(Seq::<char>::empty()) =~= s);
    } else {
        let rest = s.drop_first();
        assert(forall|i: int| 0 <= i < rest.len() ==> rest[i] == s[i + 1]);
        lemma_unescape_escape_colons(rest);
        let t = escape_colons(rest);
        if s[0] == ':' {
            let e = seq!['\\', ':'] + t;
            assert(escape_colons(s) == e);
            assert(e.len() >= 2 && e[0] == '\\' && e[1] == ':');
            assert(e.subrange(2, e.len() as int) =~= t);
            assert(seq![':'] + rest =~= s);
        } else {
            let e = seq![s[0]] + t;
            assert(escape_colons(s) == e);
            assert(e[0] == s[0]);
            assert(e.drop_first() =~= t);
            assert(seq![s[0]] + rest =~= s);
        }
    }
}

/// The escaping contract for the subtitle filter argument: the escaped path
/// carries no unescaped colon, and undoing the colon escaping recovers the
/// forward-slash form of the original path.
pub proof fn lemma_filter_path_roundtrip(s: Seq<char>)
    ensures
        colons_escaped(escaped_filter_path(s)),
        unescape_colons(escaped_filter_path(s)) == slashed(s),
{
    assert(forall|i: int| 0 <= i < slashed(s).len() ==> slashed(s)[i] != '\\');
    lemma_escape_colons_escaped(slashed(s));
    lemma_unescape_escape_colons(slashed(s));
}

/// The container extension the output path must carry.
pub open spec fn mp4_ext() -> Seq<char> {
    seq!['.', 'm', 'p', '4']
}

/// Whether a path already ends in the container extension.
pub open spec fn has_mp4_ext(s: Seq<char>) -> bool {
    s.len() >= 4 && s.subrange(s.len() - 4, s.len() as int) == mp4_ext()
}

/// The path as the render step will use it: unchanged when the extension is
/// already there, with the extension appended otherwise.
pub open spec fn with_mp4_ext(s: Seq<char>) -> Seq<char> {
    if has_mp4_ext(s) {
        s
    } else {
        s + mp4_ext()
    }
}

/// Appending the extension settles it: the result always carries it, a path
/// that already carries it is returned unchanged, and applying the rule twice
/// is the same as applying it once.
pub proof fn lemma_with_mp4_ext_idempotent(s: Seq<char>)
    ensures
        has_mp4_ext(with_mp4_ext(s)),
        has_mp4_ext(s) ==> with_mp4_ext(s) == s,
        with_mp4_ext(with_mp4_ext(s)) == with_mp4_ext(s),
{
    if !has_mp4_ext(s) {
        let t = s + mp4_ext();
        assert(t.subrange(t.len() - 4, t.len() as int) =~= mp4_ext());
    }
}

/// Enforces the container extension on an output path: appends `.mp4` when
/// the chosen path does not already end in it.
pub fn ensure_mp4_extension(path: &str) -> (r: String)
    ensures
        r@ == with_mp4_ext(path@),
{
    let n: usize = path.unicode_len();
    let mut found: bool = false;
    if n >= 4 {
        let c0: char = path.get_char(n - 4);
        let c1: char = path.get_char(n - 3);
        let c2: char = path.get_char(n - 2);
        let c3: char = path.get_char(n - 1);
        found = c0 == '.' && c1 == 'm' && c2 == 'p' && c3 == '4';
        proof {
            let tail = path@.subrange(n - 4 as int, n as int);
            if found {
                assert(tail =~= mp4_ext());
            } else {
                assert(tail[0] == path@[n - 4 as int]);
                assert(tail[1] == path@[n - 3 as int]);
                assert(tail[2] == path@[n - 2 as int]);
                assert(tail[3] == path@[n - 1 as int]);
                assert(tail != mp4_ext());
            }
        }
    }
    if found {
        let r = String::from_str(path);
        r
    } else {
        let mut r = String::from_str(path);
        push_char(&mut r, '.');
        push_char(&mut r, 'm');
        push_char(&mut r, 'p');
        push_char(&mut r, '4');
        proof {
            assert(r@ =~= path@ + mp4_ext());
        }
        r
    }
}

/// A path shortened for display: short paths stand as they are, long ones are
/// cut to an ellipsis followed by their last forty characters.
pub open spec fn trimmed_path(s: Seq<char>) -> Seq<char> {
    if s.len() < 40 {
        s
    } else {
        seq!['.', '.', '.'] + s.subrange(s.len() - 40, s.len() as int)
    }
}

/// Shortens a path for display in a label, keeping only the tail of a long
/// path behind an ellipsis.
pub fn trim_path(path: &str) -> (r: String)
    ensures
        r@ == trimmed_path(path@),
{
    let n: usize = path.unicode_len();
    if n < 40 {
        String::from_str(path)
    } else {
        let tail = path.substring_char(n - 40, n);
        let mut r = String::from_str("...");
        r.append(tail);
        proof {
            reveal_strlit("...");
            assert("..."@ =~= seq!['.', '.', '.']);
        }
        r
    }
}

} // verus!
