use vstd::prelude::*;

use crate::counts::owned;
use crate::status::{status_name, Status};
use crate::text::{chars_of, string_of, sub_chars};

verus! {

/// Number of bytes of a character in UTF-8.
pub open spec fn char_bytes(c: char) -> nat {
    if (c as u32) < 0x80 {
        1
    } else if (c as u32) < 0x800 {
        2
    } else if (c as u32) < 0x10000 {
        3
    } else {
        4
    }
}

/// Number of bytes of a text in UTF-8.
pub open spec fn utf8_len(s: Seq<char>) -> nat
    decreases s.len(),
{
    if s.len() == 0 {
        0
    } else {
        utf8_len(s.drop_last()) + char_bytes(s.last())
    }
}

/// Whether byte offset `k` of the text falls between two characters.
pub open spec fn is_char_boundary(s: Seq<char>, k: nat) -> bool {
    exists|j: int| 0 <= j <= s.len() && #[trigger] utf8_len(s.take(j)) == k
}

/// Bytes kept before the `...` of a cut text.
pub open spec fn kept_bytes(max_len: nat) -> nat {
    if max_len >= 3 {
        (max_len - 3) as nat
    } else {
        0
    }
}

/// A text cut to at most `max_len` bytes: a longer text keeps its first
/// `max_len - 3` bytes (none when `max_len < 3`), followed by `...`.
pub open spec fn truncated(s: Seq<char>, max_len: nat) -> Seq<char> {
    if utf8_len(s) <= max_len {
        s
    } else {
        let j = choose|j: int| 0 <= j <= s.len() && #[trigger] utf8_len(s.take(j)) == kept_bytes(max_len);
        s.take(j) + seq!['.', '.', '.']
    }
}

proof fn lemma_take_step(s: Seq<char>, i: int)
    requires
        0 <= i < s.len(),
    ensures
        utf8_len(s.take(i + 1)) == utf8_len(s.take(i)) + char_bytes(s[i]),
{
    assert(s.take(i + 1).drop_last() =~= s.take(i));
}

proof fn lemma_take_increasing(s: Seq<char>, a: int, b: int)
    requires
        0 <= a < b <= s.len(),
    ensures
        utf8_len(s.take(a)) < utf8_len(s.take(b)),
    decreases b - a,
{
    lemma_take_step(s, b - 1);
    if a < b - 1 {
        lemma_take_increasing(s, a, b - 1);
    }
}

fn char_len(c: char) -> (r: usize)
    ensures
        r == char_bytes(c),
{
    let u = c as u32;
    if u < 0x80 {
        1
    } else if u < 0x800 {
        2
    } else if u < 0x10000 {
        3
    } else {
        4
    }
}

/// Cuts a text for a table cell; see [`truncated`]. The cut must fall
/// between two characters.
pub fn truncate(s: &str, max_len: usize) -> (r: String)
    requires
        utf8_len(s@) <= max_len || is_char_boundary(s@, kept_bytes(max_len as nat)),
    ensures
        r@ == truncated(s@, max_len as nat),
{
    let v = chars_of(s);
    let ghost t = v@;
    assert(t.take(0) =~= Seq::<char>::empty());
    assert(t.take(t.len() as int) =~= t);
    let mut i: usize = 0;
    let mut acc: usize = 0;
    while i < v.len()
        invariant
            t == v@,
            t == s@,
            utf8_len(t) <= max_len || is_char_boundary(t, kept_bytes(max_len as nat)),
            t.take(t.len() as int) == t,
            i <= t.len(),
            acc == utf8_len(t.take(i as int)),
            acc <= max_len,
        decreases t.len() - i,
    {
        let b = char_len(v[i]);
        proof {
            lemma_take_step(t, i as int);
        }
        if b > max_len - acc {
            proof {
                if i + 1 < t.len() {
                    lemma_take_increasing(t, i + 1, t.len() as int);
                } else {
                    assert(t.take(i + 1) =~= t);
                }
            }
            return cut(&v, max_len);
        }
        acc = acc + b;
        i += 1;
    }
    string_of(v.as_slice())
}

fn cut(v: &Vec<char>, max_len: usize) -> (r: String)
    requires
        utf8_len(v@) > max_len,
        is_char_boundary(v@, kept_bytes(max_len as nat)),
    ensures
        r@ == truncated(v@, max_len as nat),
{
    let ghost t = v@;
    let keep: usize = if max_len >= 3 { max_len - 3 } else { 0 };
    assert(t.take(0) =~= Seq::<char>::empty());
    assert(t.take(t.len() as int) =~= t);
    let mut j: usize = 0;
    let mut acc: usize = 0;
    let n = v.len();
    while acc < keep
        invariant
            t == v@,
            n == t.len(),
            t.take(t.len() as int) == t,
            keep == kept_bytes(max_len as nat),
            keep + 3 <= max_len || keep == 0,
            keep <= max_len,
            utf8_len(t) > max_len,
            j <= t.len(),
            acc == utf8_len(t.take(j as int)),
            j > 0 ==> utf8_len(t.take(j - 1)) < keep,
        decreases t.len() - j,
    {
        proof {
            if j == t.len() {
                assert(t.take(j as int) =~= t);
            }
            assert(j < t.len());
            lemma_take_step(t, j as int);
        }
        let b = char_len(v[j]);
        acc = acc + b;
        j += 1;
    }
    proof {
        let w = choose|w: int| 0 <= w <= t.len() && #[trigger] utf8_len(t.take(w)) == keep;
        if w < j {
            if w < j - 1 {
                lemma_take_increasing(t, w, j - 1);
            }
        } else if w > j {
            lemma_take_increasing(t, j as int, w);
        }
        assert(w == j);
        reveal_strlit("...");
    }
    let mut out = string_of(sub_chars(v.as_slice(), 0, j).as_slice());
    out.append("...");
    assert(out@ =~= truncated(t, max_len as nat));
    out
}

/// The marker shown beside a status in wiki pages.
pub fn status_emoji(status: Status) -> (r: &'static str)
    ensures
        status == Status::Proposed ==> r@ == "\u{1F7E1}"@,
        status == Status::Accepted ==> r@ == "\u{2705}"@,
        status == Status::Deprecated ==> r@ == "\u{1F534}"@,
        status == Status::Superseded ==> r@ == "\u{26AA}"@,
{
    match status {
        Status::Proposed => "\u{1F7E1}",
        Status::Accepted => "\u{2705}",
        Status::Deprecated => "\u{1F534}",
        Status::Superseded => "\u{26AA}",
    }
}

/// The status name as inline code.
pub fn status_badge(status: Status) -> (r: String)
    ensures
        r@ == seq!['`'] + status_name(status) + seq!['`'],
{
    let mut out = owned("`");
    out.append(status.as_str());
    out.append("`");
    proof {
        reveal_strlit("`");
    }
    assert(out@ =~= seq!['`'] + status_name(status) + seq!['`']);
    out
}

} // verus!
