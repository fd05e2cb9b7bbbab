//! Paths, held as text with `/` between components.
//!
//! Joining and taking the parent follow the rules of `std::path` on Unix for
//! paths made of plain components; backslashes are only turned into slashes
//! for display.
use vstd::prelude::*;
use crate::text::{append_all, chars_of, replace_char, string_of};

verus! {

/// `rel` appended to `base`: an absolute `rel` (one that begins with `/`)
/// replaces `base`; otherwise a `/` is put between them unless `base` is
/// empty or already ends with `/`.
pub open spec fn joined_path(base: Seq<char>, rel: Seq<char>) -> Seq<char> {
    if rel.len() > 0 && rel[0] == '/' {
        rel
    } else if base.len() == 0 || base.last() == '/' {
        base + rel
    } else {
        base + seq!['/'] + rel
    }
}

/// Joins two paths, as `Path::join` does on Unix.
pub fn join_path(base: &str, rel: &str) -> (res: String)
    ensures
        res@ == joined_path(base@, rel@),
{
    let b = chars_of(base);
    let r = chars_of(rel);
    if r.len() > 0 && r[0] == '/' {
        return rel.to_owned();
    }
    let mut out = b.clone();
    if b.len() > 0 && b[b.len() - 1] != '/' {
        out.push('/');
    }
    append_all(&mut out, r.as_slice());
    proof {
        if b@.len() > 0 {
            assert(b@.last() == b@[b@.len() - 1]);
        }
    }
    string_of(out.as_slice())
}

/// `s` without its trailing `/` characters, keeping a lone leading one.
pub open spec fn trim_trailing_slashes(s: Seq<char>) -> Seq<char>
    decreases s.len(),
{
    if s.len() > 1 && s.last() == '/' {
        trim_trailing_slashes(s.drop_last())
    } else {
        s
    }
}

/// The position of the last `/` in `s`, if any.
pub open spec fn last_slash(s: Seq<char>) -> Option<int>
    decreases s.len(),
{
    if s.len() == 0 {
        None
    } else if s.last() == '/' {
        Some(s.len() - 1)
    } else {
        last_slash(s.drop_last())
    }
}

/// The path without its final component: `None` for the empty path and for
/// the root `/`; the empty path for a single relative component; the root
/// for a component directly under it.
pub open spec fn parent_path(p: Seq<char>) -> Option<Seq<char>> {
    let t = trim_trailing_slashes(p);
    if t.len() == 0 || t == seq!['/'] {
        None
    } else {
        match last_slash(t) {
            None => Some(Seq::<char>::empty()),
            Some(i) => if i == 0 {
                Some(seq!['/'])
            } else {
                Some(trim_trailing_slashes(t.subrange(0, i)))
            },
        }
    }
}

/// Drops trailing slashes, keeping a lone leading one.
fn trim_slashes(v: &mut Vec<char>)
    ensures
        final(v)@ == trim_trailing_slashes(old(v)@),
{
    while v.len() > 1 && v[v.len() - 1] == '/'
        invariant
            trim_trailing_slashes(v@) == trim_trailing_slashes(old(v)@),
        decreases v@.len(),
    {
        assert(v@.last() == v@[v@.len() - 1]);
        v.pop();
    }
}

/// The parent directory of a path, as `Path::parent` gives it on Unix for
/// paths made of plain components.
pub fn parent_of(path: &str) -> (res: Option<String>)
    ensures
        match parent_path(path@) {
            None => res is None,
            Some(p) => res matches Some(r) && r@ == p,
        },
{
    let mut t = chars_of(path);
    trim_slashes(&mut t);
    if t.len() == 0 || (t.len() == 1 && t[0] == '/') {
        proof {
            if t@.len() == 1 {
                assert(t@ =~= seq!['/']);
            }
        }
        return None;
    }
    proof {
        if t@ == seq!['/'] {
            assert(t@[0] == '/');
        }
    }
    let mut i = t.len();
    assert(t@.subrange(0, t@.len() as int) =~= t@);
    while i > 0 && t[i - 1] != '/'
        invariant
            i <= t@.len(),
            last_slash(t@) == last_slash(t@.subrange(0, i as int)),
        decreases i,
    {
        proof {
            let u = t@.subrange(0, i as int);
            assert(u.last() == t@[i - 1]);
            assert(u.drop_last() =~= t@.subrange(0, i - 1));
        }
        i = i - 1;
    }
    proof {
        assert(t@.subrange(0, t@.len() as int) =~= t@);
    }
    if i == 0 {
        assert(t@.subrange(0, 0) =~= Seq::<char>::empty());
        return Some(String::new());
    }
    proof {
        let u = t@.subrange(0, i as int);
        assert(u.last() == t@[i - 1]);
    }
    if i == 1 {
        let mut root = String::new();
        crate::text::push_char(&mut root, '/');
        assert(root@ =~= seq!['/']);
        return Some(root);
    }
    let mut head: Vec<char> = Vec::new();
    let mut k: usize = 0;
    while k < i - 1
        invariant
            k <= i - 1,
            i <= t@.len(),
            head@ == t@.subrange(0, k as int),
        decreases i - 1 - k,
    {
        head.push(t[k]);
        k = k + 1;
        assert(head@ =~= t@.subrange(0, k as int));
    }
    trim_slashes(&mut head);
    Some(string_of(head.as_slice()))
}

/// A path as shown to the user: backslashes turned into slashes.
pub fn display_path(path: &str) -> (res: String)
    ensures
        res@ == replace_char(path@, '\\', '/'),
        !res@.contains('\\'),
        res@.len() == path@.len(),
{
    let chars = chars_of(path);
    let mut out: Vec<char> = Vec::new();
    let mut i: usize = 0;
    while i < chars.len()
        invariant
            i <= chars@.len(),
            out@ == replace_char(chars@.take(i as int), '\\', '/'),
        decreases chars@.len() - i,
    {
        let c = chars[i];
        if c == '\\' {
            out.push('/');
        } else {
            out.push(c);
        }
        i = i + 1;
        assert(out@ =~= replace_char(chars@.take(i as int), '\\', '/'));
    }
    assert(chars@.take(chars@.len() as int) =~= chars@);
    assert(!out@.contains('\\'));
    string_of(out.as_slice())
}

} // verus!
