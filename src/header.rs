use vstd::prelude::*;

use crate::text::{
    chars_of, find_from, is_trimmed, lemma_find_from_first, lemma_find_from_none, lemma_trim_padded,
    occurs_at, string_of, sub_chars, trim, trim_bounds, lemma_trim_padded_any,
};

verus! {

/// The opening delimiter of a header block.
pub open spec fn opening() -> Seq<char> {
    seq!['-', '-', '-']
}

/// A closing delimiter: `---` at the start of a line.
pub open spec fn closing() -> Seq<char> {
    seq!['\n', '-', '-', '-']
}

/// How a raw text splits into its header block and its body: the text must open
/// with `---`; the block ends at the first line that starts with `---`; both
/// parts are trimmed of white space.
pub open spec fn header_split(content: Seq<char>) -> Option<(Seq<char>, Seq<char>)> {
    if content.len() < 3 || content.subrange(0, 3) != opening() {
        None
    } else {
        let rest = content.subrange(3, content.len() as int);
        match find_from(rest, closing(), 0) {
            None => None,
            Some(p) => Some((trim(rest.subrange(0, p + 1)), trim(rest.subrange(p + 4, rest.len() as int)))),
        }
    }
}

/// The text that carries `block` as its header and `body` after it.
pub open spec fn assemble(block: Seq<char>, body: Seq<char>) -> Seq<char> {
    opening() + seq!['\n'] + block + closing() + seq!['\n'] + body
}

/// A header block that survives a round trip: no white space at its ends and
/// no line in it that starts with `---`.
pub open spec fn valid_block(block: Seq<char>) -> bool {
    is_trimmed(block) && find_from(seq!['\n'] + block, closing(), 0) is None
}

/// Splits a raw text into its header block and body; `None` when the text does
/// not open with `---` or has no closing `---` line. A block line that is
/// exactly `---` ends the block early: that is how the format is defined.
pub fn extract_frontmatter(content: &str) -> (r: Option<(String, String)>)
    ensures
        match header_split(content@) {
            None => r is None,
            Some(parts) => r matches Some(x) && x.0@ == parts.0 && x.1@ == parts.1,
        },
{
    let v = chars_of(content);
    let n = v.len();
    if n < 3 || v[0] != '-' || v[1] != '-' || v[2] != '-' {
        proof {
            if n >= 3 {
                assert(content@.subrange(0, 3)[0] == v@[0]);
                assert(content@.subrange(0, 3)[1] == v@[1]);
                assert(content@.subrange(0, 3)[2] == v@[2]);
            }
        }
        return None;
    }
    assert(content@.subrange(0, 3) =~= opening());
    let rest = sub_chars(v.as_slice(), 3, n);
    let m = rest.len();
    let mut i: usize = 0;
    while i < m && m - i >= 4
        invariant
            i <= m,
            content@.len() >= 3,
            content@.subrange(0, 3) == opening(),
            m == rest@.len(),
            rest@ == content@.subrange(3, content@.len() as int),
            forall|k: int| 0 <= k < i ==> !occurs_at(rest@, closing(), k),
        decreases m - i,
    {
        if rest[i] == '\n' && rest[i + 1] == '-' && rest[i + 2] == '-' && rest[i + 3] == '-' {
            assert(rest@.subrange(i as int, i + 4) =~= closing());
            proof {
                lemma_find_from_first(rest@, closing(), 0, i as int);
            }
            let (a, b) = trim_bounds(rest.as_slice(), 0, i + 1);
            let (c, d) = trim_bounds(rest.as_slice(), i + 4, m);
            let block = string_of(sub_chars(rest.as_slice(), a, b).as_slice());
            let body = string_of(sub_chars(rest.as_slice(), c, d).as_slice());
            assert(header_split(content@) == Some((block@, body@)));
            return Some((block, body));
        }
        proof {
            if occurs_at(rest@, closing(), i as int) {
                let w = rest@.subrange(i as int, i + 4);
                assert(w[0] == rest@[i as int] && w[1] == rest@[i + 1]);
                assert(w[2] == rest@[i + 2] && w[3] == rest@[i + 3]);
            }
        }
        i += 1;
    }
    proof {
        lemma_find_from_none(rest@, closing(), 0);
    }
    None
}

/// The text that carries `block` as its header and `body` after it.
pub fn assemble_frontmatter(block: &str, body: &str) -> (r: String)
    ensures
        r@ == assemble(block@, body@),
{
    let mut out = string_of(&['-', '-', '-', '\n']);
    out.append(block);
    out.append(string_of(&['\n', '-', '-', '-', '\n']).as_str());
    out.append(body);
    assert(out@ =~= assemble(block@, body@));
    out
}

proof fn lemma_find_none_no_occurrence(s: Seq<char>, pat: Seq<char>, i: int, k: int)
    requires
        0 <= i <= k,
        find_from(s, pat, i) is None,
    ensures
        !occurs_at(s, pat, k),
    decreases k - i,
{
    if i < k && i + pat.len() <= s.len() {
        lemma_find_none_no_occurrence(s, pat, i + 1, k);
    }
}

proof fn lemma_first_closing(h: Seq<char>, rest: Seq<char>)
    requires
        h.len() >= 1,
        find_from(h, closing(), 0) is None,
        rest.len() >= h.len() + 4,
        rest.subrange(0, h.len() as int) == h,
        rest.subrange(h.len() as int, h.len() + 4 as int) == closing(),
    ensures
        find_from(rest, closing(), 0) == Some(h.len() as int),
{
    let big_l = h.len() as int;
    assert forall|k: int| 0 <= k < big_l implies !occurs_at(rest, closing(), k) by {
        if k + 4 <= big_l {
            lemma_find_none_no_occurrence(h, closing(), 0, k);
            assert(rest.subrange(k, k + 4) =~= h.subrange(k, k + 4));
        } else if occurs_at(rest, closing(), k) {
            let w = rest.subrange(k, k + 4);
            assert(w[big_l - k] == rest.subrange(h.len() as int, h.len() + 4 as int)[0]);
        }
    }
    lemma_find_from_first(rest, closing(), 0, big_l);
}

/// Extracting from an assembled text gives back the block and the body, each
/// trimmed of white space, whenever no line of the block starts with `---`.
pub proof fn lemma_extract_assemble(block: Seq<char>, body: Seq<char>)
    requires
        find_from(seq!['\n'] + block, closing(), 0) is None,
    ensures
        header_split(assemble(block, body)) == Some((trim(block), trim(body))),
        valid_block(block) && is_trimmed(body) ==> header_split(assemble(block, body)) == Some((block, body)),
{
    let content = assemble(block, body);
    let h = seq!['\n'] + block;
    let rest = content.subrange(3, content.len() as int);
    let big_l = h.len() as int;
    assert(content.subrange(0, 3) =~= opening());
    assert(rest =~= h + closing() + seq!['\n'] + body);
    assert(rest.subrange(0, big_l) =~= h);
    assert(rest.subrange(big_l, big_l + 4) =~= closing());
    lemma_first_closing(h, rest);
    assert(rest.subrange(0, big_l + 1) =~= seq!['\n'] + block + seq!['\n']);
    lemma_trim_padded_any(seq!['\n'], block, seq!['\n']);
    assert(rest.subrange(big_l + 4, rest.len() as int) =~= seq!['\n'] + body + Seq::<char>::empty());
    lemma_trim_padded_any(seq!['\n'], body, Seq::<char>::empty());
    if valid_block(block) && is_trimmed(body) {
        lemma_trim_padded(Seq::<char>::empty(), block, Seq::<char>::empty());
        assert(Seq::<char>::empty() + block + Seq::<char>::empty() =~= block);
        lemma_trim_padded(Seq::<char>::empty(), body, Seq::<char>::empty());
        assert(Seq::<char>::empty() + body + Seq::<char>::empty() =~= body);
    }
}

} // verus!
