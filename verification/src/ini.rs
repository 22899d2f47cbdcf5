//! Line-oriented lookup in INI-style config text.
//!
//! The engine's config files are read through two narrow lookups: the first
//! `key=value` line of the whole file, and the `key=value` lines of one
//! `[section]`. A key matches when the line begins with `key=`; the value is
//! the rest of the line with surrounding whitespace trimmed. A section header
//! is a line whose trimmed text is `[name]`; a section extends to the next
//! header or the end of the file.

use vstd::prelude::*;

use crate::strutil::{
    split_on, str_split, str_starts_with, str_trim, trim_spec, views_of,
};

verus! {

/// Whether the line's trimmed text is a `[name]` section header.
pub open spec fn is_section_header(line: Seq<char>) -> bool {
    let t = trim_spec(line);
    t.len() >= 2 && t[0] == '[' && t.last() == ']'
}

/// The `name` of a `[name]` header line.
pub open spec fn header_name(line: Seq<char>) -> Seq<char> {
    let t = trim_spec(line);
    t.subrange(1, t.len() - 1)
}

/// The trimmed value of a `key=value` line, when the line begins with `key=`.
pub open spec fn line_value(line: Seq<char>, key: Seq<char>) -> Option<Seq<char>> {
    if crate::strutil::starts_with(line, key.push('=')) {
        Some(trim_spec(line.subrange(key.len() + 1 as int, line.len() as int)))
    } else {
        None
    }
}

/// The values of every `key=` line within the named section, walking the
/// lines in order and tracking whether the current section matches.
pub open spec fn collect_section_values(
    ls: Seq<Seq<char>>,
    section: Seq<char>,
    key: Seq<char>,
    in_sec: bool,
) -> Seq<Seq<char>>
    decreases ls.len(),
{
    if ls.len() == 0 {
        Seq::empty()
    } else {
        let l = ls[0];
        let rest = ls.drop_first();
        if is_section_header(l) {
            collect_section_values(rest, section, key, header_name(l) == section)
        } else if in_sec && line_value(l, key) is Some {
            seq![line_value(l, key)->Some_0] + collect_section_values(rest, section, key, in_sec)
        } else {
            collect_section_values(rest, section, key, in_sec)
        }
    }
}

/// All values of `key=` lines in section `[section]` of `text`, in order.
pub open spec fn section_values_spec(
    text: Seq<char>,
    section: Seq<char>,
    key: Seq<char>,
) -> Seq<Seq<char>> {
    collect_section_values(split_on(text, '\n'), section, key, false)
}

/// The first of a value list, if any.
pub open spec fn first_of(vs: Seq<Seq<char>>) -> Option<Seq<char>> {
    if vs.len() > 0 {
        Some(vs[0])
    } else {
        None
    }
}

/// The value of the first `key=` line anywhere in the given lines.
pub open spec fn first_value(ls: Seq<Seq<char>>, key: Seq<char>) -> Option<Seq<char>>
    decreases ls.len(),
{
    if ls.len() == 0 {
        None
    } else if line_value(ls[0], key) is Some {
        line_value(ls[0], key)
    } else {
        first_value(ls.drop_first(), key)
    }
}

/// The value of the first `key=` line anywhere in `text`.
pub open spec fn ini_prop_spec(text: Seq<char>, key: Seq<char>) -> Option<Seq<char>> {
    first_value(split_on(text, '\n'), key)
}

fn line_value_exec(line: &str, probe: &str, key_len: usize) -> (r: Option<String>)
    requires
        probe@.len() == key_len + 1,
        probe@.last() == '=',
    ensures
        ({
            let key = probe@.drop_last();
            match r {
                Some(v) => line_value(line@, key) == Some(v@),
                None => line_value(line@, key) is None,
            }
        }),
{
    let ghost key = probe@.drop_last();
    proof {
        assert(key.push('=') =~= probe@);
    }
    if str_starts_with(line, probe) {
        let n = line.unicode_len();
        let rest = line.substring_char(key_len + 1, n);
        let v = str_trim(rest).to_owned();
        Some(v)
    } else {
        None
    }
}

fn header_of(line: &str) -> (r: Option<String>)
    ensures
        match r {
            Some(h) => is_section_header(line@) && header_name(line@) == h@,
            None => !is_section_header(line@),
        },
{
    let t = str_trim(line);
    let n = t.unicode_len();
    if n >= 2 && t.get_char(0) == '[' && t.get_char(n - 1) == ']' {
        Some(t.substring_char(1, n - 1).to_owned())
    } else {
        None
    }
}

/// All values of `key=` lines in section `[section]` of `text`, in order.
pub fn section_values(text: &str, section: &str, key: &str) -> (r: Vec<String>)
    ensures
        views_of(r@) == section_values_spec(text@, section@, key@),
{
    let lines = str_split(text, '\n');
    let mut probe = String::from_str(key);
    probe.push('=');
    let key_len = key.unicode_len();
    proof {
        assert(probe@.drop_last() =~= key@);
    }
    let mut out: Vec<String> = Vec::new();
    let mut in_sec = false;
    let mut i: usize = 0;
    let ghost ls = views_of(lines@);
    proof {
        assert(ls.subrange(0, ls.len() as int) =~= ls);
    }
    while i < lines.len()
        invariant
            ls == views_of(lines@),
            probe@.len() == key_len + 1,
            probe@.last() == '=',
            probe@.drop_last() == key@,
            i <= lines@.len(),
            views_of(out@) + collect_section_values(
                ls.subrange(i as int, ls.len() as int),
                section@,
                key@,
                in_sec,
            ) == collect_section_values(ls, section@, key@, false),
        decreases lines@.len() - i,
    {
        let ghost suffix = ls.subrange(i as int, ls.len() as int);
        proof {
            assert(suffix[0] == lines@[i as int]@);
            assert(suffix.drop_first() =~= ls.subrange(i + 1, ls.len() as int));
        }
        let line = &lines[i];
        match header_of(line.as_str()) {
            Some(h) => {
                in_sec = crate::strutil::str_eq(h.as_str(), section);
            },
            None => {
                if in_sec {
                    match line_value_exec(line.as_str(), probe.as_str(), key_len) {
                        Some(v) => {
                            out.push(v);
                            proof {
                                assert(views_of(out@) =~= views_of(out@.drop_last())
                                    + seq![out@.last()@]);
                            }
                        },
                        None => {},
                    }
                }
            },
        }
        i += 1;
    }
    proof {
        assert(ls.subrange(ls.len() as int, ls.len() as int) =~= Seq::<Seq<char>>::empty());
        assert(views_of(out@) + Seq::<Seq<char>>::empty() =~= views_of(out@));
    }
    out
}

/// The value of the first `key=` line in section `[section]`, if any.
pub fn section_value(text: &str, section: &str, key: &str) -> (r: Option<String>)
    ensures
        ({
            let vs = section_values_spec(text@, section@, key@);
            match r {
                Some(v) => vs.len() > 0 && v@ == vs[0],
                None => vs.len() == 0,
            }
        }),
{
    let vs = section_values(text, section, key);
    if vs.len() > 0 {
        Some(vs[0].clone())
    } else {
        None
    }
}

/// The trimmed value of the first `key=value` line anywhere in `text`.
/// This is the whole-file lookup used for single-key config probes.
pub fn read_ini_prop(text: &str, key: &str) -> (r: Option<String>)
    ensures
        match r {
            Some(v) => ini_prop_spec(text@, key@) == Some(v@),
            None => ini_prop_spec(text@, key@) is None,
        },
{
    let lines = str_split(text, '\n');
    let mut probe = String::from_str(key);
    probe.push('=');
    let key_len = key.unicode_len();
    proof {
        assert(probe@.drop_last() =~= key@);
    }
    let mut i: usize = 0;
    let ghost ls = views_of(lines@);
    proof {
        assert(ls.subrange(0, ls.len() as int) =~= ls);
    }
    while i < lines.len()
        invariant
            ls == views_of(lines@),
            ls == split_on(text@, '\n'),
            probe@.len() == key_len + 1,
            probe@.last() == '=',
            probe@.drop_last() == key@,
            i <= lines@.len(),
            first_value(ls.subrange(i as int, ls.len() as int), key@) == first_value(ls, key@),
        decreases lines@.len() - i,
    {
        let ghost suffix = ls.subrange(i as int, ls.len() as int);
        proof {
            assert(suffix[0] == lines@[i as int]@);
            assert(suffix.drop_first() =~= ls.subrange(i + 1, ls.len() as int));
        }
        let line = &lines[i];
        match line_value_exec(line.as_str(), probe.as_str(), key_len) {
            Some(v) => {
                proof {
                    assert(suffix.len() > 0);
                    assert(first_value(suffix, key@) == line_value(suffix[0], key@));
                }
                return Some(v);
            },
            None => {},
        }
        i += 1;
    }
    proof {
        assert(ls.subrange(ls.len() as int, ls.len() as int) =~= Seq::<Seq<char>>::empty());
    }
    None
}

} // verus!
