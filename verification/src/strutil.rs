//! Character-level string primitives: substring search, prefix tests,
//! splicing and global replacement, with exact sequence-level contracts.

use vstd::prelude::*;

verus! {

/// `p` occurs in `t` starting at index `i`.
pub open spec fn starts_with_at(t: Seq<char>, p: Seq<char>, i: int) -> bool {
    0 <= i && i + p.len() <= t.len() && t.subrange(i, i + p.len() as int) == p
}

/// Index of the first occurrence of `p` in `t` at or after `i`.
pub open spec fn find_at(t: Seq<char>, p: Seq<char>, i: int) -> Option<int>
    decreases t.len() - i,
{
    if i < 0 || i + p.len() > t.len() {
        None
    } else if p.len() == 0 || starts_with_at(t, p, i) {
        Some(i)
    } else {
        find_at(t, p, i + 1)
    }
}

/// `t` with every occurrence of `p` at or after `i` replaced by `rep`,
/// scanning left to right, skipping the text already present before `i`.
pub open spec fn replace_from(t: Seq<char>, p: Seq<char>, rep: Seq<char>, i: int) -> Seq<char>
    recommends
        p.len() > 0,
        0 <= i <= t.len(),
    decreases t.len() - i,
        via replace_from_decreases
{
    if p.len() == 0 || i < 0 || i > t.len() {
        t.subrange(if i < 0 { 0 } else if i > t.len() { t.len() as int } else { i }, t.len() as int)
    } else {
        match find_at(t, p, i) {
            Option::None => t.subrange(i, t.len() as int),
            Option::Some(j) => t.subrange(i, j) + rep + replace_from(t, p, rep, j + p.len()),
        }
    }
}

#[via_fn]
proof fn replace_from_decreases(t: Seq<char>, p: Seq<char>, rep: Seq<char>, i: int) {
    if p.len() > 0 && 0 <= i <= t.len() && find_at(t, p, i) is Some {
        lemma_find_at_some(t, p, i);
    }
}

/// `t` with every occurrence of `p` replaced by `rep`, left to right,
/// non-overlapping.
pub open spec fn replace_all(t: Seq<char>, p: Seq<char>, rep: Seq<char>) -> Seq<char> {
    replace_from(t, p, rep, 0)
}

/// A found occurrence is in range and matches.
pub proof fn lemma_find_at_some(t: Seq<char>, p: Seq<char>, i: int)
    requires
        0 <= i,
        p.len() > 0,
        find_at(t, p, i) is Some,
    ensures
        i <= find_at(t, p, i)->Some_0,
        starts_with_at(t, p, find_at(t, p, i)->Some_0),
    decreases t.len() - i,
{
    if i + p.len() > t.len() {
    } else if starts_with_at(t, p, i) {
    } else {
        assert(i + 1 <= t.len());
        lemma_find_at_some(t, p, i + 1);
    }
}

/// Two strings hold the same characters.
pub fn str_eq(a: &str, b: &str) -> (r: bool)
    ensures
        r == (a@ == b@),
{
    let alen = a.unicode_len();
    let blen = b.unicode_len();
    if alen != blen {
        proof {
            assert(a@ != b@);
        }
        return false;
    }
    let mut k: usize = 0;
    while k < alen
        invariant
            alen == a@.len(),
            alen == b@.len(),
            k <= alen,
            forall|j: int| 0 <= j < k ==> a@[j] == b@[j],
        decreases alen - k,
    {
        if a.get_char(k) != b.get_char(k) {
            proof {
                assert(a@[k as int] != b@[k as int]);
            }
            return false;
        }
        k += 1;
    }
    proof {
        assert(a@ =~= b@);
    }
    true
}

/// `p` occurs in `t` at index `i`.
pub fn starts_with_from(t: &str, p: &str, i: usize) -> (r: bool)
    requires
        i <= t@.len(),
    ensures
        r == starts_with_at(t@, p@, i as int),
{
    let tlen = t.unicode_len();
    let plen = p.unicode_len();
    if plen > tlen - i {
        proof {
            assert(!starts_with_at(t@, p@, i as int));
        }
        return false;
    }
    let mut k: usize = 0;
    while k < plen
        invariant
            tlen == t@.len(),
            plen == p@.len(),
            i + plen <= tlen,
            k <= plen,
            forall|j: int| 0 <= j < k ==> t@[i + j] == p@[j],
        decreases plen - k,
    {
        if t.get_char(i + k) != p.get_char(k) {
            proof {
                assert(t@[i + k] != p@[k as int]);
                assert(!starts_with_at(t@, p@, i as int));
            }
            return false;
        }
        k += 1;
    }
    proof {
        assert(t@.subrange(i as int, i + p@.len() as int) =~= p@);
    }
    true
}

/// First occurrence of `p` in `t` at or after `from`.
pub fn find_from(t: &str, p: &str, from: usize) -> (r: Option<usize>)
    requires
        from <= t@.len(),
    ensures
        match r {
            Option::Some(j) => find_at(t@, p@, from as int) == Option::Some(j as int),
            Option::None => find_at(t@, p@, from as int) is None,
        },
{
    let tlen = t.unicode_len();
    let plen = p.unicode_len();
    if plen > tlen {
        return None;
    }
    if plen == 0 {
        proof {
            assert(t@.subrange(from as int, from as int) =~= p@);
        }
        return Some(from);
    }
    let mut j: usize = from;
    while j <= tlen - plen
        invariant
            tlen == t@.len(),
            plen == p@.len(),
            0 < plen <= tlen,
            from <= j,
            j <= tlen,
            find_at(t@, p@, from as int) == find_at(t@, p@, j as int),
        decreases tlen - j,
    {
        if starts_with_from(t, p, j) {
            return Some(j);
        }
        j += 1;
    }
    None
}

/// Copy of the characters of `t` in `[from, to)`.
pub fn substr(t: &str, from: usize, to: usize) -> (r: String)
    requires
        from <= to <= t@.len(),
    ensures
        r@ == t@.subrange(from as int, to as int),
{
    t.substring_char(from, to).to_owned()
}

/// `t` with every occurrence of `p` replaced by `rep`, left to right.
pub fn replace_all_str(t: &str, p: &str, rep: &str) -> (r: String)
    requires
        p@.len() > 0,
    ensures
        r@ == replace_all(t@, p@, rep@),
{
    let tlen = t.unicode_len();
    let mut out = String::new();
    let mut pos: usize = 0;
    let plen = p.unicode_len();
    loop
        invariant
            tlen == t@.len(),
            plen == p@.len(),
            plen > 0,
            pos <= tlen,
            out@ + replace_from(t@, p@, rep@, pos as int) == replace_all(t@, p@, rep@),
        decreases tlen - pos,
    {
        match find_from(t, p, pos) {
            Option::Some(j) => {
                proof {
                    lemma_find_at_some(t@, p@, pos as int);
                }
                let piece = t.substring_char(pos, j);
                out.append(piece);
                out.append(rep);
                pos = j + plen;
                proof {
                    assert(out@ + replace_from(t@, p@, rep@, pos as int) =~= replace_all(
                        t@,
                        p@,
                        rep@,
                    ));
                }
            },
            Option::None => {
                let piece = t.substring_char(pos, tlen);
                out.append(piece);
                proof {
                    assert(out@ =~= replace_all(t@, p@, rep@));
                }
                return out;
            },
        }
    }
}

/// `t` holds an occurrence of `p`.
pub fn contains_str(t: &str, p: &str) -> (r: bool)
    ensures
        r == (find_at(t@, p@, 0) is Some),
{
    match find_from(t, p, 0) {
        Option::Some(_) => true,
        Option::None => false,
    }
}

/// Index of the first line break at or after `i`, or the length of `t`.
pub open spec fn line_end(t: Seq<char>, i: int) -> int {
    match find_at(t, seq!['\n'], i) {
        Option::Some(j) => j,
        Option::None => t.len() as int,
    }
}

/// First line break at or after `from`, or the length of `t`.
pub fn line_end_from(t: &str, from: usize) -> (r: usize)
    requires
        from <= t@.len(),
    ensures
        r == line_end(t@, from as int),
        from <= r <= t@.len(),
        starts_with_at(t@, seq!['\n'], r as int) || r == t@.len(),
{
    let nl = "\n";
    proof {
        reveal_strlit("\n");
        assert(nl@ =~= seq!['\n']);
    }
    match find_from(t, nl, from) {
        Option::Some(j) => {
            proof {
                lemma_find_at_some(t@, seq!['\n'], from as int);
            }
            j
        },
        Option::None => t.unicode_len(),
    }
}

} // verus!
