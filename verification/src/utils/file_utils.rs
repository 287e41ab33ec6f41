//! File names: the extension of a path, and unique names for saved files.
use vstd::prelude::*;
use crate::text::{chars_of, string_from_chars, to_lowercase, unicode_to_lowercase};
use crate::utils::numbers::{int_decimal, i64_decimal};

verus! {

broadcast use vstd::string::group_string_axioms;

/// The pieces of `s` between slashes; there is always at least one.
pub open spec fn split_slash(s: Seq<char>) -> Seq<Seq<char>>
    decreases s.len(),
{
    if s.len() == 0 {
        seq![Seq::empty()]
    } else {
        let r = split_slash(s.drop_last());
        if s.last() == '/' {
            r.push(Seq::empty())
        } else {
            r.update(r.len() - 1, r.last().push(s.last()))
        }
    }
}

/// The last named component among path pieces: empty pieces and `.` are
/// skipped, and a final `..` names nothing.
pub open spec fn last_name(pieces: Seq<Seq<char>>) -> Option<Seq<char>>
    decreases pieces.len(),
{
    if pieces.len() == 0 {
        None
    } else {
        let l = pieces.last();
        if l.len() == 0 || l == seq!['.'] {
            last_name(pieces.drop_last())
        } else if l == seq!['.', '.'] {
            None
        } else {
            Some(l)
        }
    }
}

/// The file name of a path (`Path::file_name`).
pub open spec fn file_name(path: Seq<char>) -> Option<Seq<char>> {
    last_name(split_slash(path))
}

/// Position of the last dot in `s`, or -1.
pub open spec fn last_dot(s: Seq<char>) -> int
    decreases s.len(),
{
    if s.len() == 0 {
        -1
    } else if s.last() == '.' {
        s.len() - 1
    } else {
        last_dot(s.drop_last())
    }
}

/// The extension of a file name: what follows its last dot, unless that
/// dot is the first character or there is none.
pub open spec fn name_extension(name: Seq<char>) -> Option<Seq<char>> {
    let k = last_dot(name);
    if k <= 0 {
        None
    } else {
        Some(name.subrange(k + 1, name.len() as int))
    }
}

/// The lower-cased extension of a path.
pub open spec fn path_extension(path: Seq<char>) -> Option<Seq<char>> {
    match file_name(path) {
        Some(n) => match name_extension(n) {
            Some(e) => Some(unicode_to_lowercase(e)),
            None => None,
        },
        None => None,
    }
}

/// `last_dot` stays below the length.
proof fn lemma_last_dot(s: Seq<char>)
    ensures
        -1 <= last_dot(s) < s.len(),
        last_dot(s) >= 0 ==> s[last_dot(s)] == '.',
    decreases s.len(),
{
    if s.len() > 0 && s.last() != '.' {
        lemma_last_dot(s.drop_last());
    }
}

/// `split_slash` never gives an empty list.
proof fn lemma_split_slash_len(s: Seq<char>)
    ensures
        split_slash(s).len() >= 1,
    decreases s.len(),
{
    if s.len() > 0 {
        lemma_split_slash_len(s.drop_last());
    }
}

/// The position of the piece that names the file, if any.
fn find_last_name(pieces: &Vec<Vec<char>>) -> (r: Option<usize>)
    ensures
        match last_name(pieces@.map_values(|p: Vec<char>| p@)) {
            Some(n) => r matches Some(i) && i < pieces@.len() && pieces@[i as int]@ == n,
            None => r is None,
        },
{
    let ghost all = pieces@.map_values(|p: Vec<char>| p@);
    let mut k: usize = pieces.len();
    assert(all.subrange(0, k as int) =~= all);
    while k > 0
        invariant
            all == pieces@.map_values(|p: Vec<char>| p@),
            k <= pieces@.len(),
            last_name(all) == last_name(all.subrange(0, k as int)),
        decreases k,
    {
        let ghost pre = all.subrange(0, k as int);
        assert(pre.drop_last() =~= all.subrange(0, k - 1));
        assert(pre.last() == pieces@[k - 1]@);
        let p = &pieces[k - 1];
        if p.len() == 0 || (p.len() == 1 && p[0] == '.') {
            if p.len() == 1 {
                assert(p@ =~= seq!['.']);
            }
            k = k - 1;
        } else if p.len() == 2 && p[0] == '.' && p[1] == '.' {
            assert(p@ =~= seq!['.', '.']);
            return None;
        } else {
            assert(p@ != seq!['.']) by {
                if p@.len() == 1 {
                    assert(p@[0] != '.');
                }
            }
            assert(p@ != seq!['.', '.']) by {
                if p@.len() == 2 {
                    assert(p@[0] != '.' || p@[1] != '.');
                }
            }
            return Some(k - 1);
        }
    }
    assert(all.subrange(0, 0) =~= Seq::<Seq<char>>::empty());
    None
}

/// The lower-cased extension of a path, if it has one.
pub fn get_file_extension(path: &str) -> (r: Option<String>)
    ensures
        match path_extension(path@) {
            Some(e) => r matches Some(x) && x@ == e,
            None => r is None,
        },
{
    let cs = chars_of(path);
    let mut pieces: Vec<Vec<char>> = Vec::new();
    let mut cur: Vec<char> = Vec::new();
    let mut i: usize = 0;
    while i < cs.len()
        invariant
            cs@ == path@,
            i <= cs@.len(),
            split_slash(path@.subrange(0, i as int)) == pieces@.map_values(|p: Vec<char>| p@).push(cur@),
        decreases cs.len() - i,
    {
        let c = cs[i];
        let ghost p0 = pieces@.map_values(|p: Vec<char>| p@);
        assert(path@.subrange(0, i + 1).drop_last() =~= path@.subrange(0, i as int));
        assert(path@.subrange(0, i + 1).last() == c);
        if c == '/' {
            let done = cur;
            pieces.push(done);
            cur = Vec::new();
            assert(pieces@.map_values(|p: Vec<char>| p@) =~= p0.push(pieces@.last()@));
            assert(split_slash(path@.subrange(0, i + 1)) =~= pieces@.map_values(|p: Vec<char>| p@).push(cur@));
        } else {
            cur.push(c);
            assert(split_slash(path@.subrange(0, i + 1)) =~= p0.push(cur@));
        }
        i = i + 1;
    }
    assert(path@.subrange(0, path@.len() as int) =~= path@);
    pieces.push(cur);
    let ghost all = pieces@.map_values(|p: Vec<char>| p@);
    assert(all == split_slash(path@));
    let idx = match find_last_name(&pieces) {
        Some(n) => n,
        None => {
            return None;
        },
    };
    assert(file_name(path@) == Some(pieces@[idx as int]@));
    let n = &pieces[idx];
    let ghost nv = n@;
    let mut j: usize = n.len();
    assert(nv.subrange(0, j as int) =~= nv);
    while j > 0 && n[j - 1] != '.'
        invariant
            nv == n@,
            j <= n@.len(),
            last_dot(nv) == last_dot(nv.subrange(0, j as int)),
        decreases j,
    {
        assert(nv.subrange(0, j as int).drop_last() =~= nv.subrange(0, j - 1));
        j = j - 1;
    }
    proof {
        if j > 0 {
            assert(nv.subrange(0, j as int).last() == '.');
        } else {
            assert(nv.subrange(0, 0) =~= Seq::<char>::empty());
        }
    }
    if j <= 1 {
        return None;
    }
    let mut ext: Vec<char> = Vec::new();
    let mut m: usize = j;
    while m < n.len()
        invariant
            nv == n@,
            1 < j <= m <= n@.len(),
            ext@ == nv.subrange(j as int, m as int),
        decreases n.len() - m,
    {
        ext.push(n[m]);
        assert(ext@ =~= nv.subrange(j as int, m + 1));
        m = m + 1;
    }
    let e = string_from_chars(&ext);
    Some(to_lowercase(e.as_str()))
}

/// The text `{prefix}_{timestamp}.{extension}`.
pub open spec fn unique_filename(prefix: Seq<char>, timestamp: int, extension: Seq<char>) -> Seq<char> {
    prefix + seq!['_'] + int_decimal(timestamp) + seq!['.'] + extension
}

/// A file name made unique by a timestamp in seconds.
pub fn unique_filename_at(prefix: &str, extension: &str, timestamp: i64) -> (r: String)
    ensures
        r@ == unique_filename(prefix@, timestamp as int, extension@),
{
    let mut s = crate::text::owned(prefix);
    crate::text::push_char(&mut s, '_');
    let d = i64_decimal(timestamp);
    let ds = string_from_chars(&d);
    s.append(ds.as_str());
    crate::text::push_char(&mut s, '.');
    s.append(extension);
    s
}

/// A file name made unique by the current time.
pub fn generate_unique_filename(prefix: &str, extension: &str) -> (r: String)
    ensures
        exists|t: i64| r@ == unique_filename(prefix@, t as int, extension@),
{
    let t = crate::error::now_unix_seconds();
    unique_filename_at(prefix, extension, t)
}

} // verus!
