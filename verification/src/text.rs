//! Verified text utilities for the search and summarization stubs:
//! substring containment, line splitting as `str::lines` does it, and the
//! one trusted call to Unicode lowercasing.

use vstd::prelude::*;

verus! {

/// What `str::to_lowercase` returns for a given text: a function of the
/// characters alone, left uninterpreted.
pub uninterp spec fn lower_of(s: Seq<char>) -> Seq<char>;

/// Relies on `str::to_lowercase`: the lowercased text is a function of
/// the input characters alone.
#[verifier::external_body]
pub(crate) fn lowercase(s: &str) -> (r: String)
    ensures
        r@ == lower_of(s@),
{
    s.to_lowercase()
}

/// `needle` occurs as a contiguous run somewhere in `hay`.
pub open spec fn contains_seq(hay: Seq<char>, needle: Seq<char>) -> bool {
    exists|k: int|
        0 <= k && k + needle.len() <= hay.len() && #[trigger] hay.subrange(
            k,
            k + needle.len() as int,
        ) == needle
}

/// Substring search, checking each starting position in turn.
pub fn contains_str(hay: &str, needle: &str) -> (r: bool)
    ensures
        r == contains_seq(hay@, needle@),
{
    let h = hay.unicode_len();
    let n = needle.unicode_len();
    if n > h {
        return false;
    }
    let mut k: usize = 0;
    while k <= h - n
        invariant
            h == hay@.len(),
            n == needle@.len(),
            n <= h,
            k <= h - n + 1,
            forall|k2: int|
                0 <= k2 < k ==> #[trigger] hay@.subrange(k2, k2 + needle@.len() as int)
                    != needle@,
        decreases h - n - k + 1,
    {
        let mut m: usize = 0;
        while m < n && hay.get_char(k + m) == needle.get_char(m)
            invariant
                h == hay@.len(),
                n == needle@.len(),
                k + n <= h,
                m <= n,
                forall|x: int| 0 <= x < m ==> hay@[k + x] == needle@[x],
            decreases n - m,
        {
            m += 1;
        }
        if m == n {
            proof {
                assert(hay@.subrange(k as int, k as int + n as int) =~= needle@);
            }
            return true;
        }
        proof {
            assert(hay@.subrange(k as int, k as int + needle@.len() as int)[m as int] == hay@[k
                + m]);
            assert(hay@.subrange(k as int, k as int + needle@.len() as int) != needle@);
        }
        k += 1;
    }
    false
}

/// One carriage return just before a newline is not part of the line.
pub open spec fn strip_cr(l: Seq<char>) -> Seq<char> {
    if l.len() > 0 && l.last() == '\r' {
        l.drop_last()
    } else {
        l
    }
}

/// Position of the first newline in `s`, or `s.len()` when there is none.
pub open spec fn first_nl(s: Seq<char>) -> int
    decreases s.len(),
{
    if s.len() == 0 {
        0
    } else if s.first() == '\n' {
        0
    } else {
        1 + first_nl(s.drop_first())
    }
}

/// `first_nl` finds the first newline: it is in range, it points at a
/// newline when one exists, and nothing before it is a newline.
pub proof fn lemma_first_nl(s: Seq<char>)
    ensures
        0 <= first_nl(s) <= s.len(),
        first_nl(s) < s.len() ==> s[first_nl(s)] == '\n',
        forall|j: int| 0 <= j < first_nl(s) ==> s[j] != '\n',
    decreases s.len(),
{
    if s.len() > 0 && s.first() != '\n' {
        let t = s.drop_first();
        lemma_first_nl(t);
        if first_nl(s) < s.len() {
            assert(t[first_nl(s) - 1] == s[first_nl(s)]);
        }
        assert forall|j: int| 0 <= j < first_nl(s) implies s[j] != '\n' by {
            if j > 0 {
                assert(t[j - 1] == s[j]);
            }
        }
    }
}

/// The position of the first newline is the unique position with nothing
/// before it a newline, and a newline (or the end) at it.
proof fn lemma_first_nl_is(s: Seq<char>, i: int)
    requires
        0 <= i <= s.len(),
        forall|j: int| 0 <= j < i ==> s[j] != '\n',
        i < s.len() ==> s[i] == '\n',
    ensures
        first_nl(s) == i,
{
    lemma_first_nl(s);
}

/// The lines of a text, as `str::lines` yields them: split at each
/// newline, dropping one carriage return just before it; a final fragment
/// without a newline is a line of its own; a trailing newline adds no
/// empty final line.
pub open spec fn spec_lines(s: Seq<char>) -> Seq<Seq<char>>
    decreases s.len(),
    via spec_lines_decreases
{
    if s.len() == 0 {
        Seq::empty()
    } else {
        let i = first_nl(s);
        if i == s.len() {
            seq![s]
        } else {
            seq![strip_cr(s.subrange(0, i))] + spec_lines(s.subrange(i + 1, s.len() as int))
        }
    }
}

#[via_fn]
proof fn spec_lines_decreases(s: Seq<char>) {
    lemma_first_nl(s);
}

/// Split a text into its lines.
pub fn split_lines(s: &str) -> (v: Vec<String>)
    ensures
        spec_lines(s@) == v@.map_values(|l: String| l@),
{
    let len = s.unicode_len();
    let mut v: Vec<String> = Vec::new();
    let mut pos: usize = 0;
    proof {
        assert(s@.subrange(0, len as int) =~= s@);
        assert(v@.map_values(|l: String| l@) =~= Seq::<Seq<char>>::empty());
    }
    while pos < len
        invariant
            len == s@.len(),
            pos <= len,
            spec_lines(s@) == v@.map_values(|l: String| l@) + spec_lines(
                s@.subrange(pos as int, len as int),
            ),
        decreases len - pos,
    {
        let ghost suffix = s@.subrange(pos as int, len as int);
        let mut e: usize = pos;
        while e < len && s.get_char(e) != '\n'
            invariant
                len == s@.len(),
                pos <= e <= len,
                forall|j: int| pos <= j < e ==> s@[j] != '\n',
            decreases len - e,
        {
            e += 1;
        }
        proof {
            assert forall|j: int| 0 <= j < e - pos implies suffix[j] != '\n' by {
                assert(suffix[j] == s@[pos + j]);
            }
            if e < len {
                assert(suffix[e - pos] == s@[e as int]);
            }
            lemma_first_nl_is(suffix, e - pos);
        }
        if e < len {
            let cut = if e > pos && s.get_char(e - 1) == '\r' {
                e - 1
            } else {
                e
            };
            let piece = s.substring_char(pos, cut);
            let line = String::from_str(piece);
            proof {
                assert(suffix.subrange(0, e - pos as int) =~= s@.subrange(pos as int, e as int));
                if e > pos && s@[e - 1] == '\r' {
                    assert(s@.subrange(pos as int, e as int).last() == s@[e - 1]);
                    assert(strip_cr(suffix.subrange(0, e - pos as int)) =~= s@.subrange(
                        pos as int,
                        cut as int,
                    ));
                } else {
                    if e > pos {
                        assert(s@.subrange(pos as int, e as int).last() == s@[e - 1]);
                    }
                    assert(strip_cr(suffix.subrange(0, e - pos as int)) =~= s@.subrange(
                        pos as int,
                        cut as int,
                    ));
                }
                assert(suffix.subrange(e - pos + 1, suffix.len() as int) =~= s@.subrange(
                    e + 1,
                    len as int,
                ));
                assert((v@ + seq![line]).map_values(|l: String| l@) =~= v@.map_values(
                    |l: String| l@,
                ) + seq![line@]);
            }
            v.push(line);
            pos = e + 1;
        } else {
            let piece = s.substring_char(pos, len);
            let line = String::from_str(piece);
            proof {
                assert(first_nl(suffix) == suffix.len());
                assert(spec_lines(suffix) == seq![suffix]);
                assert(line@ == suffix);
                assert((v@ + seq![line]).map_values(|l: String| l@) =~= v@.map_values(
                    |l: String| l@,
                ) + seq![line@]);
                assert(spec_lines(s@.subrange(len as int, len as int)) == Seq::<Seq<char>>::empty());
            }
            v.push(line);
            pos = len;
        }
    }
    proof {
        assert(spec_lines(s@.subrange(pos as int, len as int)) == Seq::<Seq<char>>::empty());
        assert(spec_lines(s@) =~= v@.map_values(|l: String| l@));
    }
    v
}

} // verus!
