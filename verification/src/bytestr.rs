//! Byte-string utilities shared by the encoder, the header parsers and the
//! decimal readers: ASCII conversion, concatenation, substring search and
//! decimal parsing.

use vstd::prelude::*;

verus! {

/// The bytes of an ASCII character sequence, one byte per character.
pub open spec fn ascii_bytes_of(cs: Seq<char>) -> Seq<u8> {
    Seq::new(cs.len(), |i: int| cs[i] as u8)
}

/// The bytes of an ASCII `&str`, as a fresh vector.
pub fn ascii_str_bytes(s: &str) -> (r: Vec<u8>)
    requires
        vstd::string::is_ascii(s),
    ensures
        r@ == ascii_bytes_of(s@),
{
    let r = vstd::string::StrSliceExecFns::as_bytes_vec(s);
    proof {
        broadcast use vstd::string::is_ascii_spec_bytes;

        assert(r@ =~= ascii_bytes_of(s@));
    }
    r
}

/// Appends all of `src` to `dst`, in order.
pub fn extend_bytes(dst: &mut Vec<u8>, src: &[u8])
    ensures
        final(dst)@ == old(dst)@ + src@,
{
    let mut i: usize = 0;
    while i < src.len()
        invariant
            i <= src@.len(),
            dst@ == old(dst)@ + src@.subrange(0, i as int),
        decreases src@.len() - i,
    {
        dst.push(src[i]);
        i += 1;
        proof {
            assert(old(dst)@ + src@.subrange(0, i - 1) + seq![src@[i - 1]] =~= old(dst)@
                + src@.subrange(0, i as int));
        }
    }
    proof {
        assert(src@.subrange(0, src@.len() as int) =~= src@);
    }
}

/// Whether `s` starts with `p`.
pub open spec fn starts_with(s: Seq<u8>, p: Seq<u8>) -> bool {
    p.len() <= s.len() && s.subrange(0, p.len() as int) == p
}

/// Whether `p` occurs in `s` at position `i`.
pub open spec fn occurs_at(s: Seq<u8>, p: Seq<u8>, i: int) -> bool {
    0 <= i && i + p.len() <= s.len() && s.subrange(i, i + p.len()) == p
}

/// Whether `p` occurs anywhere in `s`.
pub open spec fn contains_sub(s: Seq<u8>, p: Seq<u8>) -> bool {
    exists|i: int| occurs_at(s, p, i)
}

/// The position of the first occurrence of `p` in `s`, if any.
pub open spec fn find_sub(s: Seq<u8>, p: Seq<u8>) -> Option<int>
    decreases s.len(),
{
    if p.len() > s.len() {
        None
    } else if s.subrange(0, p.len() as int) == p {
        Some(0)
    } else if s.len() == 0 {
        None
    } else {
        match find_sub(s.drop_first(), p) {
            None => None,
            Some(i) => Some(i + 1),
        }
    }
}

/// `s` without the prefix `p`, when `s` starts with it.
pub open spec fn strip_prefix_spec(s: Seq<u8>, p: Seq<u8>) -> Option<Seq<u8>> {
    if starts_with(s, p) {
        Some(s.skip(p.len() as int))
    } else {
        None
    }
}

/// `find_sub` answers `Some(i)` exactly at the first occurrence.
pub proof fn lemma_find_sub_some(s: Seq<u8>, p: Seq<u8>, i: int)
    requires
        occurs_at(s, p, i),
        forall|j: int| 0 <= j < i ==> !occurs_at(s, p, j),
    ensures
        find_sub(s, p) == Some(i),
    decreases i,
{
    if i == 0 {
        assert(s.subrange(0, p.len() as int) == p);
    } else {
        assert(!occurs_at(s, p, 0));
        assert(s.subrange(0, p.len() as int) != p);
        assert(s.len() > 0);
        let t = s.drop_first();
        assert(occurs_at(t, p, i - 1)) by {
            assert(t.subrange(i - 1, i - 1 + p.len() as int) =~= s.subrange(i, i + p.len() as int));
        }
        assert forall|j: int| 0 <= j < i - 1 implies !occurs_at(t, p, j) by {
            if occurs_at(t, p, j) {
                assert(s.subrange(j + 1, j + 1 + p.len() as int) =~= t.subrange(j, j + p.len() as int));
                assert(occurs_at(s, p, j + 1));
            }
        }
        lemma_find_sub_some(t, p, i - 1);
    }
}

/// `find_sub` answers `None` exactly when `p` never occurs.
pub proof fn lemma_find_sub_none(s: Seq<u8>, p: Seq<u8>)
    requires
        !contains_sub(s, p),
    ensures
        find_sub(s, p) is None,
    decreases s.len(),
{
    assert(!occurs_at(s, p, 0));
    if p.len() <= s.len() {
        assert(s.subrange(0, p.len() as int) != p);
        if s.len() > 0 {
            let t = s.drop_first();
            assert(!contains_sub(t, p)) by {
                if contains_sub(t, p) {
                    let j = choose|j: int| occurs_at(t, p, j);
                    assert(s.subrange(j + 1, j + 1 + p.len() as int) =~= t.subrange(j, j + p.len() as int));
                    assert(occurs_at(s, p, j + 1));
                }
            }
            lemma_find_sub_none(t, p);
        }
    }
}

/// When `p` never occurs in `a`, never recurs after its head byte, and
/// heads `tail`, its first occurrence in `a + tail` is exactly at the seam.
pub proof fn lemma_find_sub_at_seam(a: Seq<u8>, tail: Seq<u8>, p: Seq<u8>)
    requires
        p.len() > 0,
        forall|j: int| 0 < j < p.len() ==> #[trigger] p[j] != p[0],
        !contains_sub(a, p),
        starts_with(tail, p),
    ensures
        find_sub(a + tail, p) == Some(a.len() as int),
{
    let s = a + tail;
    assert(occurs_at(s, p, a.len() as int)) by {
        assert(s.subrange(a.len() as int, a.len() as int + p.len() as int) =~= tail.subrange(
            0,
            p.len() as int,
        ));
    }
    assert forall|j: int| 0 <= j < a.len() implies !occurs_at(s, p, j) by {
        if occurs_at(s, p, j) {
            if j + p.len() <= a.len() {
                assert(a.subrange(j, j + p.len() as int) =~= s.subrange(j, j + p.len() as int));
                assert(occurs_at(a, p, j));
            } else {
                let off = a.len() - j;
                assert(0 < off < p.len());
                assert(s[a.len() as int] == tail[0]);
                assert(tail[0] == p[0]) by {
                    assert(tail.subrange(0, p.len() as int) == p);
                    assert(tail.subrange(0, p.len() as int)[0] == tail[0]);
                }
                assert(s.subrange(j, j + p.len() as int)[off] == s[a.len() as int]);
                assert(p[off] == p[0]);
            }
        }
    }
    lemma_find_sub_some(s, p, a.len() as int);
}

/// Whether `s` starts with `p`, byte for byte.
pub fn starts_with_exec(s: &[u8], p: &[u8]) -> (r: bool)
    ensures
        r == starts_with(s@, p@),
{
    if p.len() > s.len() {
        return false;
    }
    let mut i: usize = 0;
    while i < p.len()
        invariant
            i <= p@.len(),
            p@.len() <= s@.len(),
            forall|j: int| 0 <= j < i ==> s@[j] == p@[j],
        decreases p@.len() - i,
    {
        if s[i] != p[i] {
            proof {
                assert(s@.subrange(0, p@.len() as int)[i as int] != p@[i as int]);
            }
            return false;
        }
        i += 1;
    }
    proof {
        assert(s@.subrange(0, p@.len() as int) =~= p@);
    }
    true
}

/// The remainder of `s` after the prefix `p`, when `s` starts with it.
pub fn strip_prefix_exec<'a>(s: &'a [u8], p: &[u8]) -> (r: Option<&'a [u8]>)
    ensures
        match r {
            Some(t) => strip_prefix_spec(s@, p@) == Some(t@),
            None => strip_prefix_spec(s@, p@) is None,
        },
{
    if starts_with_exec(s, p) {
        Some(vstd::slice::slice_subrange(s, p.len(), s.len()))
    } else {
        None
    }
}

/// The position of the first occurrence of `p` in `s`, if any.
pub fn find_sub_exec(s: &[u8], p: &[u8]) -> (r: Option<usize>)
    ensures
        match r {
            Some(i) => find_sub(s@, p@) == Some(i as int) && occurs_at(s@, p@, i as int),
            None => find_sub(s@, p@) is None,
        },
{
    if p.len() > s.len() {
        proof {
            assert forall|j: int| !occurs_at(s@, p@, j) by {}
            lemma_find_sub_none(s@, p@);
        }
        return None;
    }
    if p.len() == 0 {
        proof {
            assert(s@.subrange(0, 0) =~= p@);
        }
        return Some(0);
    }
    let mut i: usize = 0;
    while i <= s.len() - p.len()
        invariant
            0 < p@.len() <= s@.len(),
            i <= s@.len() - p@.len() + 1,
            forall|j: int| 0 <= j < i ==> !occurs_at(s@, p@, j),
        decreases s@.len() - i,
    {
        if starts_with_exec(vstd::slice::slice_subrange(s, i, s.len()), p) {
            proof {
                assert(s@.subrange(i as int, i + p@.len()) =~= s@.subrange(
                    i as int,
                    s@.len() as int,
                ).subrange(0, p@.len() as int));
                assert(occurs_at(s@, p@, i as int));
                lemma_find_sub_some(s@, p@, i as int);
            }
            return Some(i);
        }
        proof {
            assert(!occurs_at(s@, p@, i as int)) by {
                if occurs_at(s@, p@, i as int) {
                    assert(s@.subrange(i as int, s@.len() as int).subrange(0, p@.len() as int)
                        =~= s@.subrange(i as int, i + p@.len()));
                }
            }
        }
        i += 1;
    }
    proof {
        assert forall|j: int| !occurs_at(s@, p@, j) by {
            if occurs_at(s@, p@, j) {
                assert(0 <= j <= s@.len() - p@.len());
            }
        }
        lemma_find_sub_none(s@, p@);
    }
    None
}

/// Whether `b` is an ASCII decimal digit.
pub open spec fn is_digit_byte(b: u8) -> bool {
    48 <= b <= 57
}

/// Whether every byte of `s` is an ASCII decimal digit.
pub open spec fn all_digits(s: Seq<u8>) -> bool {
    forall|i: int| 0 <= i < s.len() ==> is_digit_byte(s[i])
}

/// The value of `s` read as a decimal numeral.
pub open spec fn dec_val(s: Seq<u8>) -> nat
    decreases s.len(),
{
    if s.len() == 0 {
        0
    } else {
        dec_val(s.drop_last()) * 10 + (if s.last() >= 48 {
            (s.last() - 48) as nat
        } else {
            0
        })
    }
}

/// Reading more digits never shrinks the value.
proof fn lemma_dec_val_prefix(s: Seq<u8>, j: int)
    requires
        0 <= j <= s.len(),
    ensures
        dec_val(s) >= dec_val(s.subrange(0, j)),
    decreases s.len(),
{
    if j < s.len() {
        assert(s.drop_last().subrange(0, j) =~= s.subrange(0, j));
        lemma_dec_val_prefix(s.drop_last(), j);
        assert(dec_val(s) >= dec_val(s.drop_last()));
    } else {
        assert(s.subrange(0, j) =~= s);
    }
}

/// Reads `s` as a decimal numeral. Returns the value exactly when `s` is a
/// non-empty run of digits whose value does not exceed `max`.
pub fn parse_decimal(s: &[u8], max: u64) -> (r: Option<u64>)
    ensures
        match r {
            Some(v) => s@.len() > 0 && all_digits(s@) && v == dec_val(s@) && v <= max,
            None => s@.len() == 0 || !all_digits(s@) || dec_val(s@) > max,
        },
{
    if s.len() == 0 {
        return None;
    }
    let mut acc: u64 = 0;
    let mut i: usize = 0;
    while i < s.len()
        invariant
            i <= s@.len(),
            all_digits(s@.subrange(0, i as int)),
            acc == dec_val(s@.subrange(0, i as int)),
            acc <= max,
        decreases s@.len() - i,
    {
        let b = s[i];
        if b < 48 || b > 57 {
            return None;
        }
        let d = (b - 48) as u64;
        if d > max || acc > (max - d) / 10 {
            proof {
                let pre = s@.subrange(0, i + 1);
                assert(pre.drop_last() =~= s@.subrange(0, i as int));
                assert(dec_val(pre) == acc * 10 + d);
                if d <= max {
                    assert(acc * 10 + d > max) by (nonlinear_arith)
                        requires
                            acc > (max - d) / 10,
                            d <= 9,
                            d <= max,
                    ;
                }
                if all_digits(s@) {
                    lemma_dec_val_prefix(s@, i + 1);
                }
            }
            return None;
        }
        proof {
            let pre = s@.subrange(0, i + 1);
            assert(pre.drop_last() =~= s@.subrange(0, i as int));
            assert(acc * 10 + d <= max) by (nonlinear_arith)
                requires
                    acc <= (max - d) / 10,
                    d <= max,
            ;
        }
        acc = acc * 10 + d;
        i += 1;
    }
    proof {
        assert(s@.subrange(0, s@.len() as int) =~= s@);
    }
    Some(acc)
}

} // verus!
