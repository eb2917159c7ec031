//! The substitution engine: choosing which captures apply, ordering them by
//! span, and rewriting file content so that every applied span is replaced
//! by its new text while every byte outside the applied spans is preserved
//! exactly.

use crate::config::BumpMode;
use crate::matching::{capture_valid, Capture};
use crate::version::{spec_parse_version, spec_render, Version};
use crate::workflows::{bump_in_range, spec_bump, try_bump};
use vstd::prelude::*;
use vstd::string::StrSliceExecFns;
use vstd::string::StringSliceAdditionalSpecFns;

verus! {

/// Two captures overlap when their half-open byte spans intersect.
pub open spec fn caps_overlap(a: Capture, b: Capture) -> bool {
    a.start < b.end && b.start < a.end
}

/// `c` overlaps none of the captures in `acc`.
pub open spec fn no_overlap_with(acc: Seq<Capture>, c: Capture) -> bool {
    forall|k: int| 0 <= k < acc.len() ==> !caps_overlap(#[trigger] acc[k], c)
}

/// Span order on captures: by start offset, ties by end offset.
pub open spec fn cap_le(a: Capture, b: Capture) -> bool {
    ||| a.start < b.start
    ||| (a.start == b.start && a.end <= b.end)
}

/// Strict span order, used to decide how far an insertion moves left.
pub open spec fn cap_lt(a: Capture, b: Capture) -> bool {
    ||| a.start < b.start
    ||| (a.start == b.start && a.end < b.end)
}

/// Consecutive elements are in span order.
pub open spec fn sorted_caps(s: Seq<Capture>) -> bool {
    forall|i: int| 0 <= i < s.len() - 1 ==> cap_le(#[trigger] s[i], s[i + 1])
}

/// No two captures of the list overlap.
pub open spec fn pairwise_disjoint(s: Seq<Capture>) -> bool {
    forall|i: int, j: int|
        0 <= i < s.len() && 0 <= j < s.len() && i != j ==> !caps_overlap(s[i], s[j])
}

/// Insertion into a span-ordered list, from the right: `c` moves left past
/// every element strictly after it.
pub open spec fn insert_by_span(s: Seq<Capture>, c: Capture) -> Seq<Capture>
    decreases s.len(),
{
    if s.len() == 0 {
        seq![c]
    } else if cap_lt(c, s.last()) {
        insert_by_span(s.drop_last(), c).push(s.last())
    } else {
        s.push(c)
    }
}

/// The capture plan: walk discovered captures in order, skip any that
/// overlaps an already admitted capture (a configuration defect), and keep
/// the admitted ones ordered by span.
pub open spec fn arrange_rec(acc: Seq<Capture>, caps: Seq<Capture>) -> Seq<Capture>
    decreases caps.len(),
{
    if caps.len() == 0 {
        acc
    } else {
        let acc2 = if no_overlap_with(acc, caps[0]) {
            insert_by_span(acc, caps[0])
        } else {
            acc
        };
        arrange_rec(acc2, caps.drop_first())
    }
}

/// When everything at and after `idx` is strictly after `c` and the element
/// before `idx` is not, the insertion lands exactly at `idx`.
proof fn lemma_insert_at(s: Seq<Capture>, c: Capture, idx: int)
    requires
        0 <= idx <= s.len(),
        forall|t: int| idx <= t < s.len() ==> cap_lt(c, #[trigger] s[t]),
        idx > 0 ==> !cap_lt(c, s[idx - 1]),
    ensures
        insert_by_span(s, c) == s.take(idx) + seq![c] + s.skip(idx),
    decreases s.len(),
{
    if idx == s.len() {
        if s.len() == 0 {
            assert(insert_by_span(s, c) =~= s.take(idx) + seq![c] + s.skip(idx));
        } else {
            assert(!cap_lt(c, s.last()));
            assert(s.push(c) =~= s.take(idx) + seq![c] + s.skip(idx));
        }
    } else {
        assert(cap_lt(c, s.last()));
        lemma_insert_at(s.drop_last(), c, idx);
        assert(insert_by_span(s.drop_last(), c).push(s.last()) =~= s.take(idx) + seq![c] + s.skip(
            idx,
        ));
    }
}

/// Whether `c` overlaps any already admitted capture.
fn overlaps_any(acc: &Vec<Capture>, c: &Capture) -> (r: bool)
    ensures
        r == !no_overlap_with(acc@, *c),
{
    let n = acc.len();
    let mut k: usize = 0;
    while k < n
        invariant
            0 <= k <= n,
            n == acc@.len(),
            forall|j: int| 0 <= j < k ==> !caps_overlap(#[trigger] acc@[j], *c),
        decreases n - k,
    {
        if acc[k].start < c.end && c.start < acc[k].end {
            assert(caps_overlap(acc@[k as int], *c));
            return true;
        }
        k += 1;
    }
    false
}

/// Inserts a non-overlapping capture into a span-ordered, pairwise disjoint
/// list, keeping both properties.
#[verifier::rlimit(40)]
fn insert_capture(acc: &mut Vec<Capture>, c: Capture)
    requires
        sorted_caps(old(acc)@),
        pairwise_disjoint(old(acc)@),
        no_overlap_with(old(acc)@, c),
    ensures
        final (acc)@ == insert_by_span(old(acc)@, c),
        sorted_caps(final (acc)@),
        pairwise_disjoint(final (acc)@),
        forall|k: int|
            0 <= k < final (acc)@.len() ==> old(acc)@.contains(#[trigger] final (acc)@[k])
                || final (acc)@[k] == c,
{
    let ghost acc0 = acc@;
    let mut idx: usize = acc.len();
    while idx > 0 && (c.start < acc[idx - 1].start || (c.start == acc[idx - 1].start && c.end
        < acc[idx - 1].end))
        invariant
            0 <= idx <= acc@.len(),
            acc@ == acc0,
            forall|t: int| idx <= t < acc@.len() ==> cap_lt(c, #[trigger] acc@[t]),
        decreases idx,
    {
        idx -= 1;
    }
    proof {
        lemma_insert_at(acc0, c, idx as int);
    }
    acc.insert(idx, c);
    proof {
        assert(acc@ =~= acc0.take(idx as int) + seq![c] + acc0.skip(idx as int));
        let m = acc@.len() as int;
        assert forall|i: int| 0 <= i < m - 1 implies cap_le(#[trigger] acc@[i], acc@[i + 1]) by {
            if i + 1 < idx {
                assert(acc@[i] == acc0[i]);
                assert(acc@[i + 1] == acc0[i + 1]);
            } else if i + 1 == idx {
                assert(acc@[i] == acc0[i]);
                assert(acc@[i + 1] == c);
                assert(!cap_lt(c, acc0[idx - 1]));
            } else if i == idx {
                assert(acc@[i] == c);
                assert(acc@[i + 1] == acc0[idx as int]);
                assert(cap_lt(c, acc0[idx as int]));
            } else {
                assert(acc@[i] == acc0[i - 1]);
                assert(acc@[i + 1] == acc0[i]);
            }
        }
        assert forall|i: int, j: int|
            0 <= i < m && 0 <= j < m && i != j implies !caps_overlap(acc@[i], acc@[j]) by {
            if i == idx {
                if j < idx {
                    assert(acc@[j] == acc0[j]);
                    assert(!caps_overlap(acc0[j], c));
                } else {
                    assert(acc@[j] == acc0[j - 1]);
                    assert(!caps_overlap(acc0[j - 1], c));
                }
            } else if j == idx {
                if i < idx {
                    assert(acc@[i] == acc0[i]);
                    assert(!caps_overlap(acc0[i], c));
                } else {
                    assert(acc@[i] == acc0[i - 1]);
                    assert(!caps_overlap(acc0[i - 1], c));
                }
            } else {
                let pi = if i < idx {
                    i
                } else {
                    i - 1
                };
                let pj = if j < idx {
                    j
                } else {
                    j - 1
                };
                assert(acc@[i] == acc0[pi]);
                assert(acc@[j] == acc0[pj]);
                assert(!caps_overlap(acc0[pi], acc0[pj]));
            }
        }
        assert forall|k: int|
            0 <= k < acc@.len() implies acc0.contains(#[trigger] acc@[k]) || acc@[k] == c by {
            if k < idx {
                assert(acc@[k] == acc0[k]);
            } else if k > idx {
                assert(acc@[k] == acc0[k - 1]);
            }
        }
    }
}

/// Orders the discovered captures for application: a capture overlapping an
/// already admitted one is skipped, in discovery order, and the admitted
/// ones are kept sorted by span.
pub fn arrange_captures(caps: Vec<Capture>) -> (r: Vec<Capture>)
    ensures
        r@ == arrange_rec(Seq::<Capture>::empty(), caps@),
        sorted_caps(r@),
        pairwise_disjoint(r@),
        forall|k: int| 0 <= k < r@.len() ==> caps@.contains(#[trigger] r@[k]),
{
    let mut rest = caps;
    let ghost orig = rest@;
    let mut acc: Vec<Capture> = Vec::new();
    while rest.len() > 0
        invariant
            arrange_rec(acc@, rest@) == arrange_rec(Seq::<Capture>::empty(), orig),
            sorted_caps(acc@),
            pairwise_disjoint(acc@),
            forall|k: int| 0 <= k < acc@.len() ==> orig.contains(#[trigger] acc@[k]),
            forall|k: int| 0 <= k < rest@.len() ==> orig.contains(#[trigger] rest@[k]),
        decreases rest@.len(),
    {
        let ghost rest0 = rest@;
        let ghost acc0 = acc@;
        proof {
            assert(orig.contains(rest0[0]));
        }
        let c = rest.remove(0);
        proof {
            assert(rest@ =~= rest0.drop_first());
        }
        let clash = overlaps_any(&acc, &c);
        if !clash {
            insert_capture(&mut acc, c);
        }
    }
    proof {
        assert(arrange_rec(acc@, rest@) == acc@);
    }
    acc
}

/// The new text for a captured span under policy `m`: parse, bump, render.
/// `None` when the text does not parse or the bump cannot succeed; such a
/// capture is left unmodified.
pub open spec fn spec_new_text(text: Seq<u8>, m: BumpMode) -> Option<Seq<u8>> {
    match spec_parse_version(text) {
        None => None,
        Some(v) => if bump_in_range(v, m) {
            Some(spec_render(spec_bump(v, m)))
        } else {
            None
        },
    }
}

/// Well-formed capture plan for content `c` starting at `pos`: spans are in
/// order, within bounds, and do not overlap.
pub open spec fn caps_wf(c: Seq<u8>, caps: Seq<Capture>, pos: int) -> bool
    decreases caps.len(),
{
    if caps.len() == 0 {
        0 <= pos <= c.len()
    } else {
        &&& 0 <= pos <= caps[0].start
        &&& caps[0].start <= caps[0].end <= c.len()
        &&& caps_wf(c, caps.drop_first(), caps[0].end as int)
    }
}

/// The rewritten tail of `c` from `pos`: every applied capture's span is
/// replaced by its new text, every skipped capture and every byte between
/// spans is copied unchanged.
pub open spec fn spec_rewrite(c: Seq<u8>, caps: Seq<Capture>, m: BumpMode, pos: int) -> Seq<u8>
    decreases caps.len(),
{
    if caps.len() == 0 {
        c.subrange(pos, c.len() as int)
    } else {
        match spec_new_text(caps[0].text@, m) {
            Some(t) => c.subrange(pos, caps[0].start as int) + t + spec_rewrite(
                c,
                caps.drop_first(),
                m,
                caps[0].end as int,
            ),
            None => spec_rewrite(c, caps.drop_first(), m, pos),
        }
    }
}

/// Computes the replacement text for one captured span: parse the span as a
/// version, bump it, render the result. `None` exactly when the span does
/// not parse or the bump cannot succeed.
pub fn compute_new_text(text: &Vec<u8>, mode: &BumpMode) -> (r: Option<Vec<u8>>)
    ensures
        match r {
            Some(t) => spec_new_text(text@, *mode) == Some(t@),
            None => spec_new_text(text@, *mode) is None,
        },
{
    match Version::parse_bytes(text) {
        None => None,
        Some(v) => {
            match try_bump(&v, mode) {
                None => None,
                Some(w) => Some(w.render()),
            }
        },
    }
}

/// Appends `content[from..to]` to `out`.
fn push_range(out: &mut Vec<u8>, content: &Vec<u8>, from: usize, to: usize)
    requires
        from <= to <= content@.len(),
    ensures
        final (out)@ == old(out)@ + content@.subrange(from as int, to as int),
{
    let ghost out0 = old(out)@;
    let mut p: usize = from;
    proof {
        assert(out@ =~= out0 + content@.subrange(from as int, from as int));
    }
    while p < to
        invariant
            from <= p <= to <= content@.len(),
            out@ == out0 + content@.subrange(from as int, p as int),
        decreases to - p,
    {
        out.push(content[p]);
        proof {
            assert(out0 + content@.subrange(from as int, p + 1) =~= (out0 + content@.subrange(
                from as int,
                p as int,
            )).push(content@[p as int]));
        }
        p += 1;
    }
}

/// Appends all of `bytes` to `out`.
fn push_all(out: &mut Vec<u8>, bytes: &Vec<u8>)
    ensures
        final (out)@ == old(out)@ + bytes@,
{
    let ghost out0 = old(out)@;
    let n = bytes.len();
    let mut p: usize = 0;
    proof {
        assert(out@ =~= out0 + bytes@.take(0));
    }
    while p < n
        invariant
            0 <= p <= n,
            n == bytes@.len(),
            out@ == out0 + bytes@.take(p as int),
        decreases n - p,
    {
        out.push(bytes[p]);
        proof {
            assert(out0 + bytes@.take(p + 1) =~= (out0 + bytes@.take(p as int)).push(
                bytes@[p as int],
            ));
        }
        p += 1;
    }
    proof {
        assert(bytes@.take(n as int) =~= bytes@);
    }
}

/// Rewrites the whole content under a well-formed capture plan: the result
/// is the gaps between applied spans copied verbatim, each applied span
/// replaced by its new text, and unparseable spans left unmodified.
pub fn rewrite_content(content: &Vec<u8>, caps: &Vec<Capture>, mode: &BumpMode) -> (r: Vec<u8>)
    requires
        caps_wf(content@, caps@, 0),
    ensures
        r@ == spec_rewrite(content@, caps@, *mode, 0),
{
    let mut out: Vec<u8> = Vec::new();
    let mut pos: usize = 0;
    let mut k: usize = 0;
    let n = caps.len();
    proof {
        assert(caps@.skip(0) =~= caps@);
        assert(out@ + spec_rewrite(content@, caps@, *mode, 0) =~= spec_rewrite(
            content@,
            caps@,
            *mode,
            0,
        ));
    }
    while k < n
        invariant
            0 <= k <= n,
            n == caps@.len(),
            caps_wf(content@, caps@.skip(k as int), pos as int),
            spec_rewrite(content@, caps@, *mode, 0) == out@ + spec_rewrite(
                content@,
                caps@.skip(k as int),
                *mode,
                pos as int,
            ),
        decreases n - k,
    {
        let ghost rem = caps@.skip(k as int);
        proof {
            assert(rem[0] == caps@[k as int]);
            assert(rem.drop_first() =~= caps@.skip(k + 1));
        }
        let cstart = caps[k].start;
        let cend = caps[k].end;
        match compute_new_text(&caps[k].text, mode) {
            Some(t) => {
                push_range(&mut out, content, pos, cstart);
                push_all(&mut out, &t);
                proof {
                    assert(spec_rewrite(content@, rem, *mode, pos as int) == content@.subrange(
                        pos as int,
                        cstart as int,
                    ) + t@ + spec_rewrite(content@, caps@.skip(k + 1), *mode, cend as int));
                }
                pos = cend;
            },
            None => {
                proof {
                    assert(spec_rewrite(content@, rem, *mode, pos as int) == spec_rewrite(
                        content@,
                        caps@.skip(k + 1),
                        *mode,
                        pos as int,
                    ));
                    lemma_caps_wf_weaken(content@, caps@.skip(k + 1), pos as int, rem[0].end as int);
                }
            },
        }
        k += 1;
    }
    proof {
        assert(caps@.skip(n as int) =~= Seq::<Capture>::empty());
    }
    let clen = content.len();
    push_range(&mut out, content, pos, clen);
    out
}

/// A well-formed plan stays well-formed when the start position moves back.
proof fn lemma_caps_wf_weaken(c: Seq<u8>, caps: Seq<Capture>, pos: int, pos2: int)
    requires
        caps_wf(c, caps, pos2),
        0 <= pos <= pos2,
    ensures
        caps_wf(c, caps, pos),
{
}

/// Two captures overlap unless one ends before the other starts; with the
/// span order and validity this pins consecutive captures apart.
proof fn lemma_sorted_disjoint_consecutive(c: Seq<u8>, caps: Seq<Capture>)
    requires
        sorted_caps(caps),
        pairwise_disjoint(caps),
        forall|k: int| 0 <= k < caps.len() ==> capture_valid(c, #[trigger] caps[k]),
        caps.len() >= 2,
    ensures
        caps[0].end <= caps[1].start,
{
    let a = caps[0];
    let b = caps[1];
    assert(cap_le(a, b));
    assert(!caps_overlap(a, b));
    if !(b.start >= a.end) {
        assert(a.start >= b.end);
        assert(b.start <= b.end);
        assert(a.start == b.start && b.end == b.start);
        assert(a.end <= b.end);
    }
}

/// Copies a byte vector.
pub fn clone_bytes(v: &Vec<u8>) -> (r: Vec<u8>)
    ensures
        r@ == v@,
{
    let mut r: Vec<u8> = Vec::new();
    push_all(&mut r, v);
    proof {
        assert(Seq::<u8>::empty() + v@ =~= v@);
    }
    r
}

/// Rewrites file content under the bump policy: overlapping captures are
/// skipped in discovery order, the remaining spans are replaced in ascending
/// span order by their bumped versions, spans that do not parse are left
/// unmodified, and every byte outside the applied spans is preserved.
pub fn apply_captures(content: &str, caps: Vec<Capture>, mode: &BumpMode) -> (r: Vec<u8>)
    requires
        forall|k: int|
            0 <= k < caps@.len() ==> capture_valid(content.spec_bytes(), #[trigger] caps@[k]),
    ensures
        r@ == spec_rewrite(
            content.spec_bytes(),
            arrange_rec(Seq::<Capture>::empty(), caps@),
            *mode,
            0,
        ),
{
    let ghost orig = caps@;
    let bytes = content.as_bytes_vec();
    let arranged = arrange_captures(caps);
    proof {
        assert forall|k: int| 0 <= k < arranged@.len() implies capture_valid(
            bytes@,
            #[trigger] arranged@[k],
        ) by {
            assert(orig.contains(arranged@[k]));
            let j = choose|j: int| 0 <= j < orig.len() && orig[j] == arranged@[k];
            assert(capture_valid(content.spec_bytes(), orig[j]));
        }
        lemma_wf_from_sorted(bytes@, arranged@, 0);
    }
    rewrite_content(&bytes, &arranged, mode)
}

/// A span-ordered, pairwise disjoint list of valid captures is a
/// well-formed plan.
pub proof fn lemma_wf_from_sorted(c: Seq<u8>, caps: Seq<Capture>, pos: int)
    requires
        sorted_caps(caps),
        pairwise_disjoint(caps),
        forall|k: int| 0 <= k < caps.len() ==> capture_valid(c, #[trigger] caps[k]),
        0 <= pos <= c.len(),
        caps.len() > 0 ==> pos <= caps[0].start,
    ensures
        caps_wf(c, caps, pos),
    decreases caps.len(),
{
    if caps.len() > 0 {
        let rest = caps.drop_first();
        assert(capture_valid(c, caps[0]));
        assert forall|k: int| 0 <= k < rest.len() implies capture_valid(c, #[trigger] rest[k]) by {
            assert(rest[k] == caps[k + 1]);
        }
        assert forall|i: int| 0 <= i < rest.len() - 1 implies cap_le(
            #[trigger] rest[i],
            rest[i + 1],
        ) by {
            assert(rest[i] == caps[i + 1]);
            assert(rest[i + 1] == caps[i + 2]);
        }
        assert forall|i: int, j: int|
            0 <= i < rest.len() && 0 <= j < rest.len() && i != j implies !caps_overlap(
            rest[i],
            rest[j],
        ) by {
            assert(rest[i] == caps[i + 1]);
            assert(rest[j] == caps[j + 1]);
        }
        if caps.len() >= 2 {
            lemma_sorted_disjoint_consecutive(c, caps);
            assert(rest[0] == caps[1]);
        }
        lemma_wf_from_sorted(c, rest, caps[0].end as int);
    }
}

/// When every capture's new text equals the captured text itself, the
/// rewrite copies the content unchanged.
pub proof fn lemma_rewrite_identity(c: Seq<u8>, caps: Seq<Capture>, m: BumpMode, pos: int)
    requires
        caps_wf(c, caps, pos),
        forall|k: int| 0 <= k < caps.len() ==> capture_valid(c, #[trigger] caps[k]),
        forall|k: int|
            0 <= k < caps.len() ==> spec_new_text((#[trigger] caps[k]).text@, m) == Some(
                caps[k].text@,
            ),
    ensures
        spec_rewrite(c, caps, m, pos) == c.subrange(pos, c.len() as int),
    decreases caps.len(),
{
    if caps.len() > 0 {
        let rest = caps.drop_first();
        assert forall|k: int| 0 <= k < rest.len() implies capture_valid(c, #[trigger] rest[k]) by {
            assert(rest[k] == caps[k + 1]);
        }
        assert forall|k: int|
            0 <= k < rest.len() implies spec_new_text((#[trigger] rest[k]).text@, m) == Some(
            rest[k].text@,
        ) by {
            assert(rest[k] == caps[k + 1]);
        }
        lemma_rewrite_identity(c, rest, m, caps[0].end as int);
        assert(spec_new_text(caps[0].text@, m) == Some(caps[0].text@));
        assert(caps[0].text@ == c.subrange(caps[0].start as int, caps[0].end as int));
        assert(c.subrange(pos, caps[0].start as int) + c.subrange(
            caps[0].start as int,
            caps[0].end as int,
        ) + c.subrange(caps[0].end as int, c.len() as int) =~= c.subrange(pos, c.len() as int));
    }
}

/// Applying an explicit version is idempotent at the rewrite step: when
/// every capture of the second pass holds exactly the rendered version (as
/// it does after the first pass rewrote its spans), the second rewrite
/// returns the content unchanged.
pub proof fn lemma_set_to_idempotent(c: Seq<u8>, caps: Seq<Capture>, s: String, w: Version)
    requires
        spec_parse_version(vstd::utf8::encode_utf8(s@)) == Some(w),
        caps_wf(c, caps, 0),
        forall|k: int| 0 <= k < caps.len() ==> capture_valid(c, #[trigger] caps[k]),
        forall|k: int| 0 <= k < caps.len() ==> (#[trigger] caps[k]).text@ == spec_render(w),
    ensures
        spec_rewrite(c, caps, BumpMode::Version(s), 0) == c,
{
    let m = BumpMode::Version(s);
    crate::version::lemma_parse_render(w);
    assert forall|k: int|
        0 <= k < caps.len() implies spec_new_text((#[trigger] caps[k]).text@, m) == Some(
        caps[k].text@,
    ) by {
        assert(spec_parse_version(caps[k].text@) == Some(w));
        assert(bump_in_range(w, m));
        assert(spec_bump(w, m) == w);
    }
    lemma_rewrite_identity(c, caps, m, 0);
    assert(c.subrange(0, c.len() as int) =~= c);
}

/// Round trip for one applied capture: content `PRE + T + POST` whose only
/// capture spans `T` rewrites to `PRE + NEW + POST`, with `PRE` and `POST`
/// byte-for-byte unchanged.
pub proof fn lemma_single_capture_rewrite(
    pre: Seq<u8>,
    t: Seq<u8>,
    post: Seq<u8>,
    cap: Capture,
    m: BumpMode,
    nt: Seq<u8>,
)
    requires
        cap.start == pre.len(),
        cap.end == pre.len() + t.len(),
        cap.text@ == t,
        spec_new_text(t, m) == Some(nt),
    ensures
        spec_rewrite(pre + t + post, seq![cap], m, 0) == pre + nt + post,
{
    let c = pre + t + post;
    let caps = seq![cap];
    assert(caps.drop_first() =~= Seq::<Capture>::empty());
    assert(c.subrange(0, cap.start as int) =~= pre);
    assert(c.subrange(cap.end as int, c.len() as int) =~= post);
    assert(spec_rewrite(c, Seq::<Capture>::empty(), m, cap.end as int) == c.subrange(
        cap.end as int,
        c.len() as int,
    ));
    assert(pre + nt + post =~= pre + nt + post);
}

/// Multi-match correctness for two applied captures: both spans are
/// replaced, and every byte between and around them is preserved, whatever
/// the lengths of the old and new texts.
pub proof fn lemma_two_captures_rewrite(
    a: Seq<u8>,
    t1: Seq<u8>,
    b: Seq<u8>,
    t2: Seq<u8>,
    z: Seq<u8>,
    cap1: Capture,
    cap2: Capture,
    m: BumpMode,
    n1: Seq<u8>,
    n2: Seq<u8>,
)
    requires
        cap1.start == a.len(),
        cap1.end == a.len() + t1.len(),
        cap1.text@ == t1,
        cap2.start == a.len() + t1.len() + b.len(),
        cap2.end == a.len() + t1.len() + b.len() + t2.len(),
        cap2.text@ == t2,
        spec_new_text(t1, m) == Some(n1),
        spec_new_text(t2, m) == Some(n2),
    ensures
        spec_rewrite(a + t1 + b + t2 + z, seq![cap1, cap2], m, 0) == a + n1 + b + n2 + z,
{
    let c = a + t1 + b + t2 + z;
    let caps = seq![cap1, cap2];
    assert(caps.drop_first() =~= seq![cap2]);
    assert(seq![cap2].drop_first() =~= Seq::<Capture>::empty());
    assert(c.subrange(0, cap1.start as int) =~= a);
    assert(c.subrange(cap1.end as int, cap2.start as int) =~= b);
    assert(c.subrange(cap2.end as int, c.len() as int) =~= z);
    assert(spec_rewrite(c, Seq::<Capture>::empty(), m, cap2.end as int) == c.subrange(
        cap2.end as int,
        c.len() as int,
    ));
    assert(spec_rewrite(c, seq![cap2], m, cap1.end as int) == c.subrange(
        cap1.end as int,
        cap2.start as int,
    ) + n2 + c.subrange(cap2.end as int, c.len() as int));
    assert(a + n1 + (b + n2 + z) =~= a + n1 + b + n2 + z);
}

} // verus!
