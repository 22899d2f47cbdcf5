//! A plain-text model of file paths.
//!
//! Paths are strings whose components are separated by `/`; a path beginning
//! with `/` is absolute. This mirrors how the orchestrator's own path values
//! are formed; conversion to the host's native form happens outside the
//! crate, except for the explicit Windows rendering used for source-control
//! commands.

use vstd::prelude::*;

use crate::strutil::{concat2, rfind, str_find_char, str_rfind_char, str_starts_with};

verus! {

/// `a` extended with the component(s) `b`: no separator is added after an
/// empty or `/`-terminated `a`, and an absolute `b` replaces `a` entirely.
pub open spec fn path_join(a: Seq<char>, b: Seq<char>) -> Seq<char> {
    if a.len() == 0 {
        b
    } else if b.len() > 0 && b[0] == '/' {
        b
    } else if a.last() == '/' {
        a + b
    } else {
        a + seq!['/'] + b
    }
}

pub fn join(a: &str, b: &str) -> (r: String)
    ensures
        r@ == path_join(a@, b@),
{
    let a_len = a.unicode_len();
    let b_len = b.unicode_len();
    if a_len == 0 {
        return b.to_owned();
    }
    if b_len > 0 && b.get_char(0) == '/' {
        return b.to_owned();
    }
    if a.get_char(a_len - 1) == '/' {
        return concat2(a, b);
    }
    let mut r = a.to_owned();
    r.push('/');
    r.append(b);
    proof {
        assert(r@ =~= a@ + seq!['/'] + b@);
    }
    r
}

/// The start of the last path component.
pub open spec fn file_name_start(p: Seq<char>) -> int {
    match rfind(p, '/') {
        Some(i) => i + 1,
        None => 0,
    }
}

/// The last path component.
pub open spec fn file_name_of(p: Seq<char>) -> Seq<char> {
    p.subrange(file_name_start(p), p.len() as int)
}

/// Everything before the last path component's separator; a path without
/// a separator has the empty parent.
pub open spec fn parent_of(p: Seq<char>) -> Seq<char> {
    match rfind(p, '/') {
        Some(i) => p.subrange(0, i),
        None => Seq::empty(),
    }
}

pub fn file_name(p: &str) -> (r: String)
    ensures
        r@ == file_name_of(p@),
{
    let n = p.unicode_len();
    match str_rfind_char(p, '/') {
        Some(i) => p.substring_char(i + 1, n).to_owned(),
        None => {
            proof {
                assert(p@.subrange(0, n as int) =~= p@);
            }
            p.substring_char(0, n).to_owned()
        },
    }
}

pub fn parent(p: &str) -> (r: String)
    ensures
        r@ == parent_of(p@),
{
    match str_rfind_char(p, '/') {
        Some(i) => p.substring_char(0, i).to_owned(),
        None => String::new(),
    }
}

/// The path without its extension: the text from the last `.` of the last
/// component onward is removed, unless that `.` begins the component.
pub open spec fn strip_ext(p: Seq<char>) -> Seq<char> {
    match rfind(p, '.') {
        Some(d) => if d > file_name_start(p) {
            p.subrange(0, d)
        } else {
            p
        },
        None => p,
    }
}

/// The path with its extension replaced by `ext`; an empty `ext` just
/// removes the extension, as `Path::set_extension("")` does.
pub open spec fn with_ext(p: Seq<char>, ext: Seq<char>) -> Seq<char> {
    if ext.len() == 0 {
        strip_ext(p)
    } else {
        strip_ext(p) + seq!['.'] + ext
    }
}

fn strip_extension(p: &str) -> (r: String)
    ensures
        r@ == strip_ext(p@),
{
    let n = p.unicode_len();
    let dot = str_rfind_char(p, '.');
    let slash = str_rfind_char(p, '/');
    let ghost fstart = file_name_start(p@);
    let start: usize = match slash {
        Some(i) => i + 1,
        None => 0,
    };
    proof {
        assert(fstart == start as int);
        assert(p@.subrange(0, n as int) =~= p@);
    }
    match dot {
        Some(d) => {
            if d > start {
                p.substring_char(0, d).to_owned()
            } else {
                p.substring_char(0, n).to_owned()
            }
        },
        None => p.substring_char(0, n).to_owned(),
    }
}

pub fn replace_extension(p: &str, ext: &str) -> (r: String)
    ensures
        r@ == with_ext(p@, ext@),
{
    let mut r = strip_extension(p);
    if ext.unicode_len() == 0 {
        return r;
    }
    r.push('.');
    r.append(ext);
    proof {
        assert(r@ =~= strip_ext(p@) + seq!['.'] + ext@);
    }
    r
}

/// The path rendered with backslash separators, for Windows-only tools.
pub open spec fn windows_path_of(p: Seq<char>) -> Seq<char> {
    p.map_values(|c: char| if c == '/' { '\\' } else { c })
}

pub fn windows_path(p: &str) -> (r: String)
    ensures
        r@ == windows_path_of(p@),
{
    let n = p.unicode_len();
    let mut r = String::new();
    let mut i: usize = 0;
    proof {
        assert(r@ =~= windows_path_of(p@.subrange(0, 0)));
    }
    while i < n
        invariant
            n == p@.len(),
            i <= n,
            r@ == windows_path_of(p@.subrange(0, i as int)),
        decreases n - i,
    {
        let c = p.get_char(i);
        if c == '/' {
            r.push('\\');
        } else {
            r.push(c);
        }
        proof {
            assert(r@ =~= windows_path_of(p@.subrange(0, i + 1)));
        }
        i += 1;
    }
    proof {
        assert(p@.subrange(0, n as int) =~= p@);
    }
    r
}

} // verus!
