//! Filename extraction from a `content-disposition` header: split on `;`,
//! take the first segment whose trimmed text starts with `filename=`, strip
//! that prefix and any surrounding double quotes. The captioning upload
//! needs a filename, so callers treat a missing one as a schema violation.

use vstd::prelude::*;

use crate::bytestr::ascii_bytes_of;
use crate::bytestr::ascii_str_bytes;
use crate::bytestr::starts_with;
use crate::bytestr::starts_with_exec;

verus! {

/// ASCII whitespace, as header trimming sees it.
pub open spec fn is_ws_byte(b: u8) -> bool {
    b == 32 || (9 <= b <= 13)
}

/// `s` without its leading whitespace.
pub open spec fn trim_start_spec(s: Seq<u8>) -> Seq<u8>
    decreases s.len(),
{
    if s.len() > 0 && is_ws_byte(s[0]) {
        trim_start_spec(s.subrange(1, s.len() as int))
    } else {
        s
    }
}

/// `s` without its trailing whitespace.
pub open spec fn trim_end_spec(s: Seq<u8>) -> Seq<u8>
    decreases s.len(),
{
    if s.len() > 0 && is_ws_byte(s.last()) {
        trim_end_spec(s.drop_last())
    } else {
        s
    }
}

/// `s` without leading or trailing whitespace.
pub open spec fn trim_spec(s: Seq<u8>) -> Seq<u8> {
    trim_end_spec(trim_start_spec(s))
}

/// `s` without its leading double quotes.
pub open spec fn trim_quote_start(s: Seq<u8>) -> Seq<u8>
    decreases s.len(),
{
    if s.len() > 0 && s[0] == 34 {
        trim_quote_start(s.subrange(1, s.len() as int))
    } else {
        s
    }
}

/// `s` without its trailing double quotes.
pub open spec fn trim_quote_end(s: Seq<u8>) -> Seq<u8>
    decreases s.len(),
{
    if s.len() > 0 && s.last() == 34 {
        trim_quote_end(s.drop_last())
    } else {
        s
    }
}

/// `s` without surrounding double quotes.
pub open spec fn trim_quotes(s: Seq<u8>) -> Seq<u8> {
    trim_quote_end(trim_quote_start(s))
}

/// The segments of `s` between `;` bytes, in order. Splitting never drops
/// text: an empty segment stands where two separators touch.
pub open spec fn split_semi(s: Seq<u8>) -> Seq<Seq<u8>>
    decreases s.len(),
{
    if s.len() == 0 {
        seq![Seq::<u8>::empty()]
    } else if s[0] == 59 {
        seq![Seq::<u8>::empty()] + split_semi(s.drop_first())
    } else {
        let rest = split_semi(s.drop_first());
        seq![seq![s[0]] + rest[0]] + rest.drop_first()
    }
}

/// The `filename=` prefix, as bytes.
pub open spec fn filename_prefix() -> Seq<u8> {
    ascii_bytes_of("filename="@)
}

/// Whether this segment names the filename.
pub open spec fn is_filename_segment(seg: Seq<u8>) -> bool {
    starts_with(trim_start_spec(seg), filename_prefix())
}

/// The filename a matching segment carries: the trimmed segment without the
/// prefix and without surrounding quotes.
pub open spec fn segment_filename(seg: Seq<u8>) -> Seq<u8> {
    trim_quotes(trim_spec(seg).skip(filename_prefix().len() as int))
}

/// The first matching segment's filename, if any segment matches.
pub open spec fn first_filename(segs: Seq<Seq<u8>>) -> Option<Seq<u8>>
    decreases segs.len(),
{
    if segs.len() == 0 {
        None
    } else if is_filename_segment(segs[0]) {
        Some(segment_filename(segs[0]))
    } else {
        first_filename(segs.drop_first())
    }
}

/// What filename the header yields, if any.
pub open spec fn filename_of(header: Seq<u8>) -> Option<Seq<u8>> {
    first_filename(split_semi(header))
}

/// Whether `s` contains the byte `b`.
pub open spec fn contains_byte(s: Seq<u8>, b: u8) -> bool {
    exists|i: int| 0 <= i < s.len() && s[i] == b
}

/// A run without separators followed by `;` splits off as one segment.
proof fn lemma_split_semi_flush(cur: Seq<u8>, rest: Seq<u8>)
    requires
        !contains_byte(cur, 59),
    ensures
        split_semi(cur + seq![59u8] + rest) == seq![cur] + split_semi(rest),
    decreases cur.len(),
{
    let s = cur + seq![59u8] + rest;
    if cur.len() == 0 {
        assert(s.drop_first() =~= rest);
        assert(seq![Seq::<u8>::empty()] + split_semi(rest) =~~= seq![cur] + split_semi(rest));
    } else {
        assert(s[0] == cur[0]);
        assert(s[0] != 59);
        let ctail = cur.drop_first();
        assert(!contains_byte(ctail, 59)) by {
            if contains_byte(ctail, 59) {
                let i = choose|i: int| 0 <= i < ctail.len() && ctail[i] == 59;
                assert(cur[i + 1] == 59);
            }
        }
        lemma_split_semi_flush(ctail, rest);
        assert(s.drop_first() =~= ctail + seq![59u8] + rest);
        let r = split_semi(s.drop_first());
        assert(r == seq![ctail] + split_semi(rest));
        assert(seq![s[0]] + r[0] =~= cur);
        assert(r.drop_first() =~= split_semi(rest));
        assert(seq![seq![s[0]] + r[0]] + r.drop_first() =~~= seq![cur] + split_semi(rest));
    }
}

/// A run without separators is a single segment.
proof fn lemma_split_semi_whole(cur: Seq<u8>)
    requires
        !contains_byte(cur, 59),
    ensures
        split_semi(cur) == seq![cur],
    decreases cur.len(),
{
    if cur.len() == 0 {
        assert(seq![Seq::<u8>::empty()] =~~= seq![cur]);
    } else {
        assert(cur[0] != 59);
        let ctail = cur.drop_first();
        assert(!contains_byte(ctail, 59)) by {
            if contains_byte(ctail, 59) {
                let i = choose|i: int| 0 <= i < ctail.len() && ctail[i] == 59;
                assert(cur[i + 1] == 59);
            }
        }
        lemma_split_semi_whole(ctail);
        let r = split_semi(ctail);
        assert(seq![cur[0]] + r[0] =~= cur);
        assert(seq![seq![cur[0]] + r[0]] + r.drop_first() =~~= seq![cur]);
    }
}

/// Splits `s` on `;` bytes, keeping empty segments.
fn split_semis(s: &Vec<u8>) -> (r: Vec<Vec<u8>>)
    ensures
        r@.map_values(|v: Vec<u8>| v@) == split_semi(s@),
{
    let mut out: Vec<Vec<u8>> = Vec::new();
    let mut cur: Vec<u8> = Vec::new();
    let mut i: usize = 0;
    proof {
        assert(cur@ + s@.subrange(0, s@.len() as int) =~= s@);
        assert(out@.map_values(|v: Vec<u8>| v@) + split_semi(s@) =~= split_semi(s@));
    }
    while i < s.len()
        invariant
            i <= s@.len(),
            !contains_byte(cur@, 59),
            split_semi(s@) == out@.map_values(|v: Vec<u8>| v@) + split_semi(
                cur@ + s@.subrange(i as int, s@.len() as int),
            ),
        decreases s@.len() - i,
    {
        let b = s[i];
        let ghost rest = s@.subrange(i as int, s@.len() as int);
        let ghost rest_next = s@.subrange(i + 1, s@.len() as int);
        if b == 59 {
            proof {
                assert(cur@ + rest =~= cur@ + seq![59u8] + rest_next);
                lemma_split_semi_flush(cur@, rest_next);
                let m = |v: Vec<u8>| v@;
                assert(out@.push(cur).map_values(m) =~= out@.map_values(m) + seq![cur@]);
                assert(out@.map_values(m) + (seq![cur@] + split_semi(rest_next)) =~= out@.push(
                    cur,
                ).map_values(m) + split_semi(rest_next));
                assert(Seq::<u8>::empty() + rest_next =~= rest_next);
            }
            out.push(cur);
            cur = Vec::new();
        } else {
            proof {
                assert(cur@.push(b) + rest_next =~= cur@ + rest);
                assert(!contains_byte(cur@.push(b), 59)) by {
                    if contains_byte(cur@.push(b), 59) {
                        let k = choose|k: int|
                            0 <= k < cur@.push(b).len() && cur@.push(b)[k] == 59;
                        if k < cur@.len() {
                            assert(cur@[k] == 59);
                        }
                    }
                }
            }
            cur.push(b);
        }
        i += 1;
    }
    proof {
        assert(cur@ + s@.subrange(s@.len() as int, s@.len() as int) =~= cur@);
        lemma_split_semi_whole(cur@);
        let m = |v: Vec<u8>| v@;
        assert(out@.push(cur).map_values(m) =~= out@.map_values(m) + seq![cur@]);
    }
    out.push(cur);
    out
}

/// Whether `b` is whitespace, as the trims see it.
fn is_ws_exec(b: u8) -> (r: bool)
    ensures
        r == is_ws_byte(b),
{
    b == 32 || (9 <= b && b <= 13)
}

/// Trims leading whitespace from a byte slice.
fn trim_start_exec(s: &[u8]) -> (r: &[u8])
    ensures
        r@ == trim_start_spec(s@),
    decreases s@.len(),
{
    if s.len() > 0 && is_ws_exec(s[0]) {
        trim_start_exec(vstd::slice::slice_subrange(s, 1, s.len()))
    } else {
        s
    }
}

/// Trims trailing whitespace from a byte slice.
fn trim_end_exec(s: &[u8]) -> (r: &[u8])
    ensures
        r@ == trim_end_spec(s@),
    decreases s@.len(),
{
    if s.len() > 0 && is_ws_exec(s[s.len() - 1]) {
        let r = trim_end_exec(vstd::slice::slice_subrange(s, 0, s.len() - 1));
        proof {
            assert(s@.subrange(0, s@.len() - 1) =~= s@.drop_last());
        }
        r
    } else {
        s
    }
}

/// Trimming trailing whitespace keeps a prefix that does not end in
/// whitespace.
proof fn lemma_trim_end_keeps_prefix(x: Seq<u8>, p: Seq<u8>)
    requires
        starts_with(x, p),
        p.len() > 0,
        !is_ws_byte(p.last()),
    ensures
        starts_with(trim_end_spec(x), p),
    decreases x.len(),
{
    if x.len() > 0 && is_ws_byte(x.last()) {
        if x.len() == p.len() {
            assert(x =~= p);
        } else {
            assert(starts_with(x.drop_last(), p)) by {
                assert(x.drop_last().subrange(0, p.len() as int) =~= x.subrange(
                    0,
                    p.len() as int,
                ));
            }
            lemma_trim_end_keeps_prefix(x.drop_last(), p);
        }
    }
}

/// Trims leading double quotes from a byte slice.
fn trim_quote_start_exec(s: &[u8]) -> (r: &[u8])
    ensures
        r@ == trim_quote_start(s@),
    decreases s@.len(),
{
    if s.len() > 0 && s[0] == 34 {
        trim_quote_start_exec(vstd::slice::slice_subrange(s, 1, s.len()))
    } else {
        s
    }
}

/// Trims trailing double quotes from a byte slice.
fn trim_quote_end_exec(s: &[u8]) -> (r: &[u8])
    ensures
        r@ == trim_quote_end(s@),
    decreases s@.len(),
{
    if s.len() > 0 && s[s.len() - 1] == 34 {
        let r = trim_quote_end_exec(vstd::slice::slice_subrange(s, 0, s.len() - 1));
        proof {
            assert(s@.subrange(0, s@.len() - 1) =~= s@.drop_last());
        }
        r
    } else {
        s
    }
}

/// Extracts the filename from a `content-disposition` header value, if a
/// `filename=` segment is there.
pub fn extract_filename(header: &Vec<u8>) -> (r: Option<Vec<u8>>)
    ensures
        match r {
            Some(v) => filename_of(header@) == Some(v@),
            None => filename_of(header@) is None,
        },
{
    proof {
        reveal_strlit("filename=");
    }
    let prefix: Vec<u8> = ascii_str_bytes("filename=");
    let segs = split_semis(header);
    let ghost seg_views = segs@.map_values(|v: Vec<u8>| v@);
    let mut k: usize = 0;
    proof {
        assert(seg_views.skip(0) =~= seg_views);
    }
    while k < segs.len()
        invariant
            k <= segs@.len(),
            prefix@ == filename_prefix(),
            seg_views == segs@.map_values(|v: Vec<u8>| v@),
            seg_views == split_semi(header@),
            filename_of(header@) == first_filename(seg_views.skip(k as int)),
        decreases segs@.len() - k,
    {
        let seg: &Vec<u8> = &segs[k];
        proof {
            assert(seg_views.skip(k as int)[0] == seg@);
        }
        if starts_with_exec(trim_start_exec(seg.as_slice()), prefix.as_slice()) {
            let trimmed = trim_end_exec(trim_start_exec(seg.as_slice()));
            proof {
                assert(is_filename_segment(seg@));
                reveal_strlit("filename=");
                assert(!is_ws_byte(filename_prefix().last()));
                lemma_trim_end_keeps_prefix(trim_start_spec(seg@), filename_prefix());
            }
            let stripped = vstd::slice::slice_subrange(trimmed, prefix.len(), trimmed.len());
            proof {
                assert(trimmed@.subrange(prefix@.len() as int, trimmed@.len() as int)
                    =~= trim_spec(seg@).skip(filename_prefix().len() as int));
            }
            let bare = trim_quote_end_exec(trim_quote_start_exec(stripped));
            return Some(vstd::slice::slice_to_vec(bare));
        }
        proof {
            assert(!is_filename_segment(seg@));
            assert(seg_views.skip(k as int).drop_first() =~= seg_views.skip(k + 1));
        }
        k += 1;
    }
    proof {
        assert(seg_views.skip(k as int) =~= Seq::<Seq<u8>>::empty());
    }
    None
}

} // verus!
