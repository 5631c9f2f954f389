//! File paths as strings with `/` separators: parent directory, file name,
//! extension replacement and prefix removal.
use vstd::prelude::*;

use crate::text::chars_of;

verus! {

/// Index of the last `/` in `p`, or -1.
pub open spec fn last_slash(p: Seq<char>) -> int
    decreases p.len(),
{
    if p.len() == 0 {
        -1
    } else if p.last() == '/' {
        p.len() - 1
    } else {
        last_slash(p.drop_last())
    }
}

pub proof fn lemma_last_slash(p: Seq<char>)
    ensures
        -1 <= last_slash(p) < p.len(),
        last_slash(p) >= 0 ==> p[last_slash(p)] == '/',
        forall|k: int| last_slash(p) < k < p.len() ==> p[k] != '/',
    decreases p.len(),
{
    if p.len() > 0 && p.last() != '/' {
        lemma_last_slash(p.drop_last());
        assert forall|k: int| last_slash(p) < k < p.len() implies p[k] != '/' by {
            if k < p.len() - 1 {
                assert(p[k] == p.drop_last()[k]);
            }
        }
    }
}

/// `s` without the `/.` components at its end (a directory named `.` is
/// the directory itself): `/` for the root.
pub open spec fn trim_cur_dirs(s: Seq<char>) -> Seq<char>
    decreases s.len(),
{
    if s.len() >= 3 && s[s.len() - 2] == '/' && s.last() == '.' {
        trim_cur_dirs(s.take(s.len() - 2))
    } else if s == seq!['/', '.'] {
        seq!['/']
    } else {
        s
    }
}

/// The directory part of `p`: what comes before its last `/`, without the
/// `/.` components that end it (`/` itself for a file at the root, empty
/// for a bare file name); none for an empty path or the root.
pub open spec fn parent(p: Seq<char>) -> Option<Seq<char>> {
    if p.len() == 0 || p == seq!['/'] {
        None
    } else if last_slash(p) < 0 {
        Some(Seq::empty())
    } else if last_slash(p) == 0 {
        Some(seq!['/'])
    } else {
        Some(trim_cur_dirs(p.subrange(0, last_slash(p))))
    }
}

/// The last component of `p`.
pub open spec fn file_name(p: Seq<char>) -> Seq<char> {
    p.subrange(last_slash(p) + 1, p.len() as int)
}

/// Index of the last `.` in `s`, or -1.
pub open spec fn last_dot(s: Seq<char>) -> int
    decreases s.len(),
{
    if s.len() == 0 {
        -1
    } else if s.last() == '.' {
        s.len() - 1
    } else {
        last_dot(s.drop_last())
    }
}

pub proof fn lemma_last_dot(s: Seq<char>)
    ensures
        -1 <= last_dot(s) < s.len(),
        last_dot(s) >= 0 ==> s[last_dot(s)] == '.',
        forall|k: int| last_dot(s) < k < s.len() ==> s[k] != '.',
    decreases s.len(),
{
    if s.len() > 0 && s.last() != '.' {
        lemma_last_dot(s.drop_last());
        assert forall|k: int| last_dot(s) < k < s.len() implies s[k] != '.' by {
            if k < s.len() - 1 {
                assert(s[k] == s.drop_last()[k]);
            }
        }
    }
}

/// `p` with the extension of its file name replaced by `ext`, or `ext`
/// added when it has none. The extension is what follows the last `.` of
/// the file name, unless that `.` begins the name; a path whose file name
/// is empty, `.` or `..` is left as it is.
pub open spec fn with_extension(p: Seq<char>, ext: Seq<char>) -> Seq<char> {
    let start = last_slash(p) + 1;
    let name = file_name(p);
    if name.len() == 0 || name == seq!['.'] || name == seq!['.', '.'] {
        p
    } else if last_dot(name) > 0 {
        p.subrange(0, start + last_dot(name)) + seq!['.'] + ext
    } else {
        p + seq!['.'] + ext
    }
}

/// `p` relative to `base`: what follows `base` when `base` is a whole
/// leading run of components of `p`.
pub open spec fn strip_prefix(p: Seq<char>, base: Seq<char>) -> Option<Seq<char>> {
    if base.len() == 0 {
        Some(p)
    } else if base.len() > p.len() || p.subrange(0, base.len() as int) != base {
        None
    } else if base.len() == p.len() {
        Some(Seq::empty())
    } else if base.last() == '/' {
        Some(p.subrange(base.len() as int, p.len() as int))
    } else if p[base.len() as int] == '/' {
        Some(p.subrange(base.len() as int + 1, p.len() as int))
    } else {
        None
    }
}

fn find_last_slash(v: &Vec<char>) -> (r: Option<usize>)
    ensures
        match r {
            Some(i) => i as int == last_slash(v@) && i < v@.len(),
            None => last_slash(v@) < 0,
        },
{
    proof {
        lemma_last_slash(v@);
    }
    let mut k = v.len();
    while k > 0
        invariant
            k <= v.len(),
            -1 <= last_slash(v@) < v@.len(),
            last_slash(v@) >= 0 ==> v@[last_slash(v@)] == '/',
            forall|j: int| last_slash(v@) < j < v@.len() ==> v@[j] != '/',
            forall|j: int| k <= j < v@.len() ==> v@[j] != '/',
        decreases k,
    {
        if v[k - 1] == '/' {
            return Some(k - 1);
        }
        k -= 1;
    }
    None
}

/// The directory part of `p` (see `parent`).
pub fn path_parent(p: &str) -> (r: Option<String>)
    ensures
        match r {
            Some(s) => parent(p@) == Some(s@),
            None => parent(p@) is None,
        },
{
    let v = chars_of(p);
    if v.len() == 0 || (v.len() == 1 && v[0] == '/') {
        assert(v.len() == 1 ==> v@ =~= seq!['/']);
        return None;
    }
    assert(v@ != seq!['/']);
    match find_last_slash(&v) {
        None => Some(String::new()),
        Some(0) => {
            let mut s = String::new();
            s.push('/');
            assert(s@ =~= seq!['/']);
            Some(s)
        },
        Some(i) => {
            let mut end = i;
            while end >= 3 && v[end - 1] == '.' && v[end - 2] == '/'
                invariant
                    1 <= end <= i < v@.len(),
                    trim_cur_dirs(v@.take(end as int)) == trim_cur_dirs(v@.take(i as int)),
                decreases end,
            {
                assert(v@.take(end as int).take(end - 2) =~= v@.take(end - 2));
                end -= 2;
            }
            if end == 2 && v[0] == '/' && v[1] == '.' {
                assert(v@.take(2) =~= seq!['/', '.']);
                let mut s = String::new();
                s.push('/');
                assert(s@ =~= seq!['/']);
                return Some(s);
            }
            let r = crate::text::string_from_chars(&v, 0, end);
            assert(v@.subrange(0, i as int) =~= v@.take(i as int));
            assert(r@ =~= v@.take(end as int));
            Some(r)
        },
    }
}

/// The last component of `p`.
pub fn path_file_name(p: &str) -> (r: String)
    ensures
        r@ == file_name(p@),
{
    let v = chars_of(p);
    let start = match find_last_slash(&v) {
        Some(i) => i + 1,
        None => 0,
    };
    proof {
        lemma_last_slash(p@);
    }
    assert(start as int == last_slash(p@) + 1);
    let r = crate::text::string_from_chars(&v, start, v.len());
    assert(r@ =~= file_name(p@));
    r
}

/// `p` with its extension replaced by `ext` (see `with_extension`).
pub fn path_with_extension(p: &str, ext: &str) -> (r: String)
    ensures
        r@ == with_extension(p@, ext@),
{
    let v = chars_of(p);
    let start = match find_last_slash(&v) {
        Some(i) => i + 1,
        None => 0,
    };
    proof {
        lemma_last_slash(p@);
    }
    assert(start as int == last_slash(p@) + 1);
    let name = crate::text::string_from_chars(&v, start, v.len());
    let nv = chars_of(name.as_str());
    assert(nv@ =~= file_name(p@));
    if nv.len() == 0 || (nv.len() == 1 && nv[0] == '.') || (nv.len() == 2 && nv[0] == '.' && nv[1]
        == '.') {
        assert(nv.len() == 1 ==> nv@ =~= seq!['.']);
        assert(nv.len() == 2 ==> nv@ =~= seq!['.', '.']);
        return crate::text::string_of_str(p);
    }
    assert(nv@ != seq!['.'] && nv@ != seq!['.', '.']);
    proof {
        lemma_last_dot(nv@);
    }
    let mut k = nv.len();
    while k > 0 && nv[k - 1] != '.'
        invariant
            k <= nv.len(),
            -1 <= last_dot(nv@) < nv@.len(),
            last_dot(nv@) >= 0 ==> nv@[last_dot(nv@)] == '.',
            forall|j: int| last_dot(nv@) < j < nv@.len() ==> nv@[j] != '.',
            forall|j: int| k <= j < nv@.len() ==> nv@[j] != '.',
        decreases k,
    {
        k -= 1;
    }
    let found = k > 0;
    let dot: usize = if found {
        k - 1
    } else {
        0
    };
    let mut r = if found && dot > 0 {
        assert(dot as int == last_dot(nv@));
        crate::text::string_from_chars(&v, 0, start + dot)
    } else {
        crate::text::string_of_str(p)
    };
    r.push('.');
    r.push_str(ext);
    r
}

/// `p` relative to `base` (see `strip_prefix`).
pub fn path_strip_prefix(p: &str, base: &str) -> (r: Option<String>)
    ensures
        match r {
            Some(s) => strip_prefix(p@, base@) == Some(s@),
            None => strip_prefix(p@, base@) is None,
        },
{
    let v = chars_of(p);
    let b = chars_of(base);
    if b.len() == 0 {
        return Some(crate::text::string_of_str(p));
    }
    if b.len() > v.len() {
        return None;
    }
    let mut i: usize = 0;
    while i < b.len()
        invariant
            v@ == p@,
            b@ == base@,
            b.len() > 0,
            b.len() <= v.len(),
            i <= b.len(),
            forall|j: int| 0 <= j < i ==> v@[j] == b@[j],
        decreases b.len() - i,
    {
        if v[i] != b[i] {
            assert(v@.subrange(0, b@.len() as int)[i as int] != b@[i as int]);
            return None;
        }
        i += 1;
    }
    assert(v@.subrange(0, b@.len() as int) =~= b@);
    if b.len() == v.len() {
        return Some(String::new());
    }
    if b[b.len() - 1] == '/' {
        Some(crate::text::string_from_chars(&v, b.len(), v.len()))
    } else if v[b.len()] == '/' {
        Some(crate::text::string_from_chars(&v, b.len() + 1, v.len()))
    } else {
        None
    }
}

/// `rel` joined onto the directory `base` (see `crate::config::path_join`).
pub fn path_join(base: &str, rel: &str) -> (r: String)
    ensures
        r@ == crate::config::path_join(base@, rel@),
{
    let b = chars_of(base);
    let r = chars_of(rel);
    crate::config::join_exec(&b, &r)
}

} // verus!
