//! Paths as `/`-separated text: joining, the final component, its extension,
//! and the name of a temporary sibling.

use vstd::prelude::*;

use crate::text::{chars_of, concat, decimal, decimal_string, string_of_range};

verus! {

/// The index of the last `c` in `s`, or -1 where there is none.
pub open spec fn last_index(s: Seq<char>, c: char) -> int
    decreases s.len(),
{
    if s.len() == 0 {
        -1
    } else if s.last() == c {
        s.len() - 1
    } else {
        last_index(s.drop_last(), c)
    }
}

pub proof fn lemma_last_index(s: Seq<char>, c: char)
    ensures
        -1 <= last_index(s, c) < s.len(),
        last_index(s, c) >= 0 ==> s[last_index(s, c)] == c,
        forall|j: int| last_index(s, c) < j < s.len() ==> s[j] != c,
    decreases s.len(),
{
    if s.len() > 0 && s.last() != c {
        lemma_last_index(s.drop_last(), c);
        assert forall|j: int| last_index(s, c) < j < s.len() implies s[j] != c by {
            if j < s.len() - 1 {
                assert(s.drop_last()[j] == s[j]);
            }
        }
    }
}

/// `rel` placed under `base`: an absolute `rel` stands alone, and a
/// separator is added between the two where `base` lacks one.
pub open spec fn join_spec(base: Seq<char>, rel: Seq<char>) -> Seq<char> {
    if rel.len() > 0 && rel[0] == '/' {
        rel
    } else if base.len() == 0 || base.last() == '/' {
        base + rel
    } else {
        base + seq!['/'] + rel
    }
}

/// What follows the last separator.
pub open spec fn last_component(p: Seq<char>) -> Seq<char> {
    p.subrange(last_index(p, '/') + 1, p.len() as int)
}

/// Everything up to and including the last separator.
pub open spec fn dir_prefix(p: Seq<char>) -> Seq<char> {
    p.subrange(0, last_index(p, '/') + 1)
}

/// A path without its trailing separators and trailing `.` components,
/// which do not change what it names.
pub open spec fn trim_tail(p: Seq<char>) -> Seq<char>
    decreases p.len(),
{
    if p.len() > 0 && p.last() == '/' {
        trim_tail(p.drop_last())
    } else if p.len() >= 2 && p.last() == '.' && p[p.len() - 2] == '/' {
        trim_tail(p.subrange(0, p.len() - 2))
    } else {
        p
    }
}

/// The final component of a path, as `std::path::Path::file_name` gives
/// it: trailing separators and `.` components are passed over, and a final
/// component that is empty, `.` or `..` names no file.
pub open spec fn file_name_spec(p: Seq<char>) -> Option<Seq<char>> {
    final_name(trim_tail(p))
}

/// The last component of `p`, where it is not empty, `.` or `..`.
pub open spec fn final_name(p: Seq<char>) -> Option<Seq<char>> {
    let n = last_component(p);
    if n.len() == 0 || n == seq!['.'] || n == seq!['.', '.'] {
        None
    } else {
        Some(n)
    }
}

/// The extension of a file name: what follows its last dot, where that dot
/// is not the first character.
pub open spec fn name_extension(n: Seq<char>) -> Option<Seq<char>> {
    let k = last_index(n, '.');
    if k <= 0 {
        None
    } else {
        Some(n.subrange(k + 1, n.len() as int))
    }
}

/// A file name without its extension.
pub open spec fn name_stem(n: Seq<char>) -> Seq<char> {
    let k = last_index(n, '.');
    if k <= 0 {
        n
    } else {
        n.subrange(0, k)
    }
}

/// The extension of a path's file name.
pub open spec fn extension_spec(p: Seq<char>) -> Option<Seq<char>> {
    match file_name_spec(p) {
        Some(n) => name_extension(n),
        None => None,
    }
}

/// The temporary sibling of `p`: in the same directory, its stem followed
/// by `.tmp.` and `stamp`.
pub open spec fn temp_sibling_spec(p: Seq<char>, stamp: nat) -> Seq<char> {
    dir_prefix(p) + name_stem(last_component(p)) + ".tmp."@ + decimal(stamp)
}

fn last_index_of(cs: &Vec<char>, c: char) -> (r: Option<usize>)
    ensures
        r is None <==> last_index(cs@, c) == -1,
        r matches Some(i) ==> i == last_index(cs@, c),
{
    let mut i: usize = cs.len();
    assert(cs@.subrange(0, i as int) =~= cs@);
    while i > 0
        invariant
            i <= cs@.len(),
            last_index(cs@, c) == last_index(cs@.subrange(0, i as int), c),
        decreases i,
    {
        let ghost pre = cs@.subrange(0, i as int);
        if cs[i - 1] == c {
            return Some(i - 1);
        }
        assert(pre.drop_last() =~= cs@.subrange(0, i - 1));
        i = i - 1;
    }
    None
}

/// `rel` placed under `base`.
pub fn join(base: &str, rel: &str) -> (r: String)
    ensures
        r@ == join_spec(base@, rel@),
{
    let b = chars_of(base);
    let rl = chars_of(rel);
    if rl.len() > 0 && rl[0] == '/' {
        String::from_str(rel)
    } else if b.len() == 0 || b[b.len() - 1] == '/' {
        concat(base, rel)
    } else {
        let with_sep = concat(base, "/");
        proof {
            reveal_strlit("/");
        }
        let r = concat(with_sep.as_str(), rel);
        assert(r@ =~= base@ + seq!['/'] + rel@);
        r
    }
}

/// The final component of `p`, where it names a file.
pub fn file_name(p: &str) -> (r: Option<String>)
    ensures
        r matches Some(n) ==> file_name_spec(p@) == Some(n@),
        r is None ==> file_name_spec(p@) is None,
{
    let cs = chars_of(p);
    let mut end: usize = cs.len();
    assert(cs@.subrange(0, end as int) =~= cs@);
    loop
        invariant
            end <= cs@.len(),
            trim_tail(cs@.subrange(0, end as int)) == trim_tail(p@),
            cs@ == p@,
        ensures
            end <= cs@.len(),
            cs@.subrange(0, end as int) == trim_tail(p@),
        decreases end,
    {
        let ghost sub = cs@.subrange(0, end as int);
        if end > 0 && cs[end - 1] == '/' {
            assert(sub.drop_last() =~= cs@.subrange(0, end - 1));
            end = end - 1;
        } else if end >= 2 && cs[end - 1] == '.' && cs[end - 2] == '/' {
            assert(sub.subrange(0, sub.len() - 2) =~= cs@.subrange(0, end - 2));
            end = end - 2;
        } else {
            assert(trim_tail(sub) == sub);
            break;
        }
    }
    let trimmed = string_of_range(&cs, 0, end);
    last_name(trimmed.as_str())
}

/// The last component of `p`, where it is not empty, `.` or `..`.
fn last_name(p: &str) -> (r: Option<String>)
    ensures
        r matches Some(n) ==> final_name(p@) == Some(n@),
        r is None ==> final_name(p@) is None,
{
    let cs = chars_of(p);
    proof {
        lemma_last_index(cs@, '/');
    }
    let start: usize = match last_index_of(&cs, '/') {
        Some(i) => {
            assert(i < cs.len());
            i + 1
        },
        None => 0,
    };
    let n = string_of_range(&cs, start, cs.len());
    let len = cs.len() - start;
    if len == 0 || (len == 1 && cs[start] == '.') || (len == 2 && cs[start] == '.' && cs[start
        + 1] == '.') {
        proof {
            if len == 1 {
                assert(n@ =~= seq!['.']);
            }
            if len == 2 {
                assert(n@ =~= seq!['.', '.']);
            }
        }
        None
    } else {
        proof {
            if len == 1 {
                assert(n@[0] == cs@[start as int]);
                assert(seq!['.'][0] == '.');
            }
            if len == 2 {
                assert(n@[0] == cs@[start as int] && n@[1] == cs@[start + 1]);
                assert(seq!['.', '.'][0] == '.' && seq!['.', '.'][1] == '.');
            }
        }
        Some(n)
    }
}

/// The extension of `p`'s file name.
pub fn extension(p: &str) -> (r: Option<String>)
    ensures
        r matches Some(e) ==> extension_spec(p@) == Some(e@),
        r is None ==> extension_spec(p@) is None,
{
    match file_name(p) {
        None => None,
        Some(n) => {
            let cs = chars_of(n.as_str());
            match last_index_of(&cs, '.') {
                None => None,
                Some(k) => {
                    if k == 0 {
                        None
                    } else {
                        proof {
                            lemma_last_index(cs@, '.');
                        }
                        assert(k < cs.len());
                        Some(string_of_range(&cs, k + 1, cs.len()))
                    }
                },
            }
        },
    }
}

/// A fresh temporary sibling of `p`, told apart from others by `stamp`.
pub fn temp_sibling(p: &str, stamp: u64) -> (r: String)
    ensures
        r@ == temp_sibling_spec(p@, stamp as nat),
{
    let cs = chars_of(p);
    proof {
        lemma_last_index(cs@, '/');
    }
    let start: usize = match last_index_of(&cs, '/') {
        Some(i) => {
            assert(i < cs.len());
            i + 1
        },
        None => 0,
    };
    let dir = string_of_range(&cs, 0, start);
    let name = string_of_range(&cs, start, cs.len());
    let ncs = chars_of(name.as_str());
    proof {
        lemma_last_index(ncs@, '.');
    }
    let stem = match last_index_of(&ncs, '.') {
        Some(k) => {
            if k == 0 {
                name
            } else {
                string_of_range(&ncs, 0, k)
            }
        },
        None => name,
    };
    let a = concat(dir.as_str(), stem.as_str());
    let b = concat(a.as_str(), ".tmp.");
    let d = decimal_string(stamp);
    let r = concat(b.as_str(), d.as_str());
    r
}

} // verus!
