//! Byte-pattern signature scanning over a module image.
//!
//! A signature is written as space-separated tokens: one or two hex digits for a
//! literal byte, or `?` / `??` for a wildcard that matches any byte. Scanning
//! returns the first position in the image where every literal token matches.
//! Signature scanning exists because compiled-in absolute offsets shift across
//! rebuilds of the target while the surrounding instruction bytes stay stable.

use vstd::prelude::*;

verus! {

/// The value of a hexadecimal digit, if `c` is one.
pub open spec fn spec_hex_val(c: char) -> Option<u8> {
    let v = c as u32;
    if '0' as u32 <= v && v <= '9' as u32 {
        Some((v - '0' as u32) as u8)
    } else if 'a' as u32 <= v && v <= 'f' as u32 {
        Some((v - 'a' as u32 + 10) as u8)
    } else if 'A' as u32 <= v && v <= 'F' as u32 {
        Some((v - 'A' as u32 + 10) as u8)
    } else {
        None
    }
}

/// The byte (or wildcard) that one signature token stands for, if well formed.
/// `None` on the outside means a malformed token; `Some(None)` is a wildcard.
pub open spec fn spec_token(t: Seq<char>) -> Option<Option<u8>> {
    if t.len() == 1 {
        if t[0] == '?' {
            Some(None)
        } else {
            match spec_hex_val(t[0]) {
                Some(v) => Some(Some(v)),
                None => None,
            }
        }
    } else if t.len() == 2 {
        if t[0] == '?' && t[1] == '?' {
            Some(None)
        } else {
            match (spec_hex_val(t[0]), spec_hex_val(t[1])) {
                (Some(h), Some(l)) => Some(Some((16 * h + l) as u8)),
                _ => None,
            }
        }
    } else {
        None
    }
}

/// The index of the first space at or after `i`, or the length if there is none.
pub open spec fn space_end(s: Seq<char>, i: int) -> int
    decreases s.len() - i,
    when 0 <= i <= s.len()
{
    if i >= s.len() {
        s.len() as int
    } else if s[i] == ' ' {
        i
    } else {
        space_end(s, i + 1)
    }
}

pub proof fn lemma_space_end(s: Seq<char>, i: int)
    requires
        0 <= i <= s.len(),
    ensures
        i <= space_end(s, i) <= s.len(),
        space_end(s, i) < s.len() ==> s[space_end(s, i)] == ' ',
        forall|k: int| i <= k < space_end(s, i) ==> s[k] != ' ',
    decreases s.len() - i,
{
    if i < s.len() && s[i] != ' ' {
        lemma_space_end(s, i + 1);
    }
}

/// The tokens of the signature text from position `i` on, if all are well formed.
pub open spec fn spec_parse_from(s: Seq<char>, i: int) -> Option<Seq<Option<u8>>>
    decreases s.len() - i,
    when 0 <= i <= s.len()
    via spec_parse_from_decreases
{
    if i >= s.len() {
        Some(Seq::empty())
    } else {
        let j = space_end(s, i);
        match spec_token(s.subrange(i, j)) {
            None => None,
            Some(t) => {
                if j >= s.len() {
                    Some(seq![t])
                } else {
                    match spec_parse_from(s, j + 1) {
                        None => None,
                        Some(rest) => Some(seq![t] + rest),
                    }
                }
            },
        }
    }
}

#[via_fn]
proof fn spec_parse_from_decreases(s: Seq<char>, i: int) {
    if 0 <= i <= s.len() {
        lemma_space_end(s, i);
    }
}

/// The whole signature text as tokens, if well formed.
pub open spec fn spec_parse_signature(s: Seq<char>) -> Option<Seq<Option<u8>>> {
    spec_parse_from(s, 0)
}

/// True when the signature matches the image at `pos`: the signature lies within
/// the image there, and every literal token equals the image byte under it. A
/// wildcard token constrains nothing.
pub open spec fn matches_at(img: Seq<u8>, sig: Seq<Option<u8>>, pos: int) -> bool {
    &&& 0 <= pos
    &&& pos + sig.len() <= img.len()
    &&& forall|j: int|
        0 <= j < sig.len() ==> ((#[trigger] sig[j]) matches Some(v) ==> img[pos + j] == v)
}

/// The first position at or after `i` where the signature matches, if any.
pub open spec fn find_from(img: Seq<u8>, sig: Seq<Option<u8>>, i: int) -> Option<int>
    decreases img.len() - i,
    when 0 <= i
{
    if i + sig.len() > img.len() {
        None
    } else if matches_at(img, sig, i) {
        Some(i)
    } else {
        find_from(img, sig, i + 1)
    }
}

/// The first position where the signature matches the image, if any.
pub open spec fn spec_find_pattern(img: Seq<u8>, sig: Seq<Option<u8>>) -> Option<int> {
    find_from(img, sig, 0)
}

/// What the scan's answer means: a hit is a match and nothing before it matches;
/// a miss means nothing matches anywhere.
pub proof fn lemma_find_from(img: Seq<u8>, sig: Seq<Option<u8>>, i: int)
    requires
        0 <= i,
    ensures
        find_from(img, sig, i) matches Some(p) ==> i <= p && matches_at(img, sig, p) && (forall|
            k: int,
        | i <= k < p ==> !matches_at(img, sig, k)),
        find_from(img, sig, i) is None ==> forall|k: int| k >= i ==> !matches_at(img, sig, k),
    decreases img.len() - i,
{
    if i + sig.len() > img.len() {
        assert forall|k: int| k >= i implies !matches_at(img, sig, k) by {
            assert(k + sig.len() > img.len());
        }
    } else if !matches_at(img, sig, i) {
        lemma_find_from(img, sig, i + 1);
    }
}

/// A wildcard token matches any byte: changing the image byte under a wildcard
/// position never changes whether the signature matches there.
pub proof fn lemma_wildcard_matches_any(
    img: Seq<u8>,
    sig: Seq<Option<u8>>,
    pos: int,
    j: int,
    b: u8,
)
    requires
        0 <= j < sig.len(),
        sig[j] is None,
        0 <= pos + j < img.len(),
    ensures
        matches_at(img.update(pos + j, b), sig, pos) == matches_at(img, sig, pos),
{
    let img2 = img.update(pos + j, b);
    assert(img2.len() == img.len());
    if matches_at(img, sig, pos) {
        assert forall|k: int| 0 <= k < sig.len() implies ((#[trigger] sig[k]) matches Some(v)
            ==> img2[pos + k] == v) by {
            if k != j {
                assert(img2[pos + k] == img[pos + k]);
            }
        }
    }
    if matches_at(img2, sig, pos) {
        assert forall|k: int| 0 <= k < sig.len() implies ((#[trigger] sig[k]) matches Some(v)
            ==> img[pos + k] == v) by {
            if k != j {
                assert(img2[pos + k] == img[pos + k]);
            }
        }
    }
}

/// The value of a hexadecimal digit, if `c` is one.
pub fn hex_val(c: char) -> (r: Option<u8>)
    ensures
        r == spec_hex_val(c),
{
    let v = c as u32;
    if '0' as u32 <= v && v <= '9' as u32 {
        Some((v - '0' as u32) as u8)
    } else if 'a' as u32 <= v && v <= 'f' as u32 {
        Some((v - 'a' as u32 + 10) as u8)
    } else if 'A' as u32 <= v && v <= 'F' as u32 {
        Some((v - 'A' as u32 + 10) as u8)
    } else {
        None
    }
}

/// Parse a signature text into tokens; `None` on a malformed token.
pub fn parse_signature(s: &str) -> (r: Option<Vec<Option<u8>>>)
    ensures
        r matches Some(v) ==> spec_parse_signature(s@) == Some(v@),
        r is None ==> spec_parse_signature(s@) is None,
{
    let n = s.unicode_len();
    let mut out: Vec<Option<u8>> = Vec::new();
    let mut i: usize = 0;
    loop
        invariant
            0 <= i <= n,
            n == s@.len(),
            match spec_parse_from(s@, i as int) {
                Some(rest) => spec_parse_signature(s@) == Some(out@ + rest),
                None => spec_parse_signature(s@) is None,
            },
        decreases n - i,
    {
        if i >= n {
            assert(out@ + Seq::<Option<u8>>::empty() =~= out@);
            return Some(out);
        }
        // scan to the end of the token
        let mut j: usize = i;
        while j < n && s.get_char(j) != ' '
            invariant
                i <= j <= n,
                n == s@.len(),
                space_end(s@, i as int) == space_end(s@, j as int),
            decreases n - j,
        {
            j = j + 1;
        }
        assert(space_end(s@, i as int) == j as int);
        let ghost tok = s@.subrange(i as int, j as int);
        let t: Option<u8>;
        if j - i == 1 {
            let c = s.get_char(i);
            assert(tok.len() == 1 && tok[0] == s@[i as int]);
            if c == '?' {
                t = None;
            } else {
                match hex_val(c) {
                    Some(v) => {
                        t = Some(v);
                    },
                    None => {
                        return None;
                    },
                }
            }
        } else if j - i == 2 {
            let c0 = s.get_char(i);
            let c1 = s.get_char(i + 1);
            assert(tok.len() == 2 && tok[0] == s@[i as int] && tok[1] == s@[i + 1]);
            if c0 == '?' && c1 == '?' {
                t = None;
            } else {
                match (hex_val(c0), hex_val(c1)) {
                    (Some(h), Some(l)) => {
                        t = Some(16 * h + l);
                    },
                    _ => {
                        return None;
                    },
                }
            }
        } else {
            assert(spec_token(tok) is None);
            return None;
        }
        assert(spec_token(tok) == Some(t));
        let ghost prev = out@;
        out.push(t);
        assert(out@ =~= prev + seq![t]);
        if j == n {
            proof {
                assert(spec_parse_from(s@, i as int) == Some(seq![t]));
                assert(prev + seq![t] =~= out@);
            }
            return Some(out);
        }
        proof {
            match spec_parse_from(s@, j + 1 as int) {
                Some(rest) => {
                    assert(spec_parse_from(s@, i as int) == Some(seq![t] + rest));
                    assert(prev + (seq![t] + rest) =~= out@ + rest);
                },
                None => {
                    assert(spec_parse_from(s@, i as int) is None);
                },
            }
        }
        i = j + 1;
    }
}

/// True when the signature matches the image at `pos`.
pub fn matches_here(img: &[u8], sig: &Vec<Option<u8>>, pos: usize) -> (r: bool)
    requires
        pos + sig@.len() <= img@.len(),
    ensures
        r == matches_at(img@, sig@, pos as int),
{
    let img_len = img.len();
    let n = sig.len();
    let mut j: usize = 0;
    while j < n
        invariant
            0 <= j <= n,
            n == sig@.len(),
            img_len == img@.len(),
            pos + n <= img_len,
            forall|k: int|
                0 <= k < j ==> ((#[trigger] sig@[k]) matches Some(v) ==> img@[pos + k] == v),
        decreases n - j,
    {
        match sig[j] {
            Some(v) => {
                if img[pos + j] != v {
                    assert(!matches_at(img@, sig@, pos as int));
                    return false;
                }
            },
            None => {},
        }
        j = j + 1;
    }
    true
}

/// Scan the image for the first position where the signature matches.
///
/// A present signature is found at its first occurrence; an absent one yields
/// `None`, never an arbitrary position.
pub fn find_pattern(img: &[u8], sig: &Vec<Option<u8>>) -> (r: Option<usize>)
    ensures
        r matches Some(p) ==> spec_find_pattern(img@, sig@) == Some(p as int),
        r is None ==> spec_find_pattern(img@, sig@) is None,
        r matches Some(p) ==> matches_at(img@, sig@, p as int) && (forall|k: int|
            0 <= k < p ==> !matches_at(img@, sig@, k)),
        r is None ==> forall|k: int| !matches_at(img@, sig@, k),
{
    proof {
        lemma_find_from(img@, sig@, 0);
    }
    let n = img.len();
    let m = sig.len();
    if m > n {
        assert(find_from(img@, sig@, 0) is None);
        return None;
    }
    if m == 0 {
        assert(matches_at(img@, sig@, 0));
        assert(find_from(img@, sig@, 0) == Some(0int));
        return Some(0);
    }
    let mut i: usize = 0;
    while i <= n - m
        invariant
            0 <= i <= n - m + 1,
            1 <= m <= n,
            n == img@.len(),
            m == sig@.len(),
            find_from(img@, sig@, 0) == find_from(img@, sig@, i as int),
        decreases n - i,
    {
        if matches_here(img, sig, i) {
            proof {
                lemma_find_from(img@, sig@, 0);
                assert(find_from(img@, sig@, i as int) == Some(i as int));
            }
            return Some(i);
        }
        assert(find_from(img@, sig@, i as int) == find_from(img@, sig@, i + 1 as int));
        i = i + 1;
    }
    assert(find_from(img@, sig@, i as int) is None);
    None
}

} // verus!
