//! The OBJ text-format parser.
//!
//! The input is line-oriented bytes. A line is split on its first space
//! into a tag and a remainder; `v` lines carry at least three decimal
//! coordinates, `f` lines carry one-based vertex indices whose optional
//! `/`-separated sub-indices are discarded, any other tag is skipped, and
//! blank lines are skipped. Parsing fails loudly: a line without a space,
//! a malformed number, a malformed index, or an index at or past the
//! vertex count each yield their own error.
//!
//! A coordinate is a decimal numeral: an optional sign, then digits with
//! at most one point. At most fourteen integer digits are accepted, and
//! of the fraction the first twelve digits are read, the rest ignored.
//! An index is at most ten digits and at least one.

use vstd::prelude::*;
use crate::buffers::{Color4, Vertex};
use crate::fixed::SCALE;
use crate::vector::Vector3;
use vstd::slice::slice_subrange;

verus! {

/// A parse failure, with the one-based line it was found on.
#[derive(Clone, Copy, PartialEq, Eq, Structural, Debug)]
pub enum ObjError {
    /// A nonblank line with no space to split a tag from.
    MalformedLine { line: usize },
    /// A vertex line with fewer than three coordinate tokens.
    MissingCoordinate { line: usize },
    /// A coordinate token that is not a decimal numeral in range.
    BadNumber { line: usize },
    /// A face token whose vertex index is not a positive integer in range.
    BadIndex { line: usize },
    /// A face index addressing a vertex slot at or past the vertex count.
    IndexOutOfRange { index: u32, count: usize },
}

/// The color given to every parsed vertex: opaque red.
pub open spec fn obj_color() -> Color4 {
    Color4 { r: SCALE, g: 0, b: 0, a: SCALE }
}

/// The position of the first `sep` in `s`, or the length of `s`.
pub open spec fn sep_pos(s: Seq<u8>, sep: u8) -> int
    decreases s.len(),
{
    if s.len() == 0 {
        0
    } else if s[0] == sep {
        0
    } else {
        1 + sep_pos(s.drop_first(), sep)
    }
}

/// The first-separator position lies within the sequence.
pub proof fn lemma_sep_pos_le(s: Seq<u8>, sep: u8)
    ensures
        0 <= sep_pos(s, sep) <= s.len(),
    decreases s.len(),
{
    if s.len() != 0 && s[0] != sep {
        lemma_sep_pos_le(s.drop_first(), sep);
    }
}

/// A scan that passed `p` non-separators, stopping at a separator or the
/// end, found the first-separator position.
pub proof fn lemma_sep_pos_scan(s: Seq<u8>, sep: u8, p: int)
    requires
        0 <= p <= s.len(),
        forall|j: int| 0 <= j < p ==> s[j] != sep,
        p < s.len() ==> s[p] == sep,
    ensures
        sep_pos(s, sep) == p,
    decreases p,
{
    if p == 0 {
    } else {
        assert(s[0] != sep);
        let t = s.drop_first();
        assert forall|j: int| 0 <= j < p - 1 implies t[j] != sep by {
            assert(t[j] == s[j + 1]);
        }
        if p - 1 < t.len() {
            assert(t[p - 1] == s[p]);
        }
        lemma_sep_pos_scan(t, sep, p - 1);
    }
}

/// `b` is an ASCII decimal digit.
pub open spec fn is_digit(b: u8) -> bool {
    48 <= b && b <= 57
}

/// Every byte of `s` is a decimal digit.
pub open spec fn all_digits(s: Seq<u8>) -> bool {
    forall|i: int| 0 <= i < s.len() ==> is_digit(#[trigger] s[i])
}

/// The number the digit string `s` denotes, most significant first.
pub open spec fn digits_val(s: Seq<u8>) -> int
    decreases s.len(),
{
    if s.len() == 0 {
        0
    } else {
        digits_val(s.drop_last()) * 10 + (s.last() - 48)
    }
}

/// Ten to the power `k`.
pub open spec fn pow10_spec(k: int) -> int
    decreases k,
{
    if k <= 0 {
        1
    } else {
        10 * pow10_spec(k - 1)
    }
}

/// The powers of ten up to the fourteenth, written out.
proof fn lemma_pow10_at(k: int)
    requires
        0 <= k <= 14,
    ensures
        1 <= pow10_spec(k) <= 100_000_000_000_000,
{
    assert(pow10_spec(0) == 1);
    assert(pow10_spec(1) == 10);
    assert(pow10_spec(2) == 100);
    assert(pow10_spec(3) == 1000);
    assert(pow10_spec(4) == 10000);
    assert(pow10_spec(5) == 100000);
    assert(pow10_spec(6) == 1000000);
    assert(pow10_spec(7) == 10000000);
    assert(pow10_spec(8) == 100000000);
    assert(pow10_spec(9) == 1000000000);
    assert(pow10_spec(10) == 10000000000);
    assert(pow10_spec(11) == 100000000000);
    assert(pow10_spec(12) == 1000000000000);
    assert(pow10_spec(13) == 10000000000000);
    assert(pow10_spec(14) == 100000000000000);
}

/// A digit string's value is nonnegative and below ten to its length.
proof fn lemma_digits_bound(s: Seq<u8>)
    requires
        all_digits(s),
    ensures
        0 <= digits_val(s) < pow10_spec(s.len() as int),
    decreases s.len(),
{
    if s.len() != 0 {
        let d = s.drop_last();
        assert(all_digits(d)) by {
            assert(forall|i: int| 0 <= i < d.len() ==> d[i] == s[i]);
        }
        lemma_digits_bound(d);
        assert(is_digit(s.last()));
    }
}

/// The line with a trailing carriage return removed.
pub open spec fn line_strip_cr(l: Seq<u8>) -> Seq<u8> {
    if l.len() > 0 && l.last() == 13 {
        l.drop_last()
    } else {
        l
    }
}

/// The fixed-point value of a coordinate token, if it is a decimal
/// numeral: an optional sign, at most fourteen integer digits, at most
/// one point, and a fraction of which the first twelve digits are read.
pub open spec fn parse_fixed_spec(t: Seq<u8>) -> Option<i64> {
    let neg = t.len() > 0 && t[0] == 45;
    let body = if t.len() > 0 && (t[0] == 45 || t[0] == 43) {
        t.drop_first()
    } else {
        t
    };
    let p = sep_pos(body, 46);
    let ip = body.take(p);
    let fp = if p < body.len() {
        body.skip(p + 1)
    } else {
        Seq::empty()
    };
    if body.len() == 0 || ip.len() + fp.len() == 0 || !all_digits(ip) || !all_digits(fp)
        || ip.len() > 14 {
        None
    } else {
        let k = if fp.len() > 12 {
            12
        } else {
            fp.len() as int
        };
        let frac = digits_val(fp.take(k)) * (SCALE as int) / pow10_spec(k);
        let mag = digits_val(ip) * (SCALE as int) + frac;
        if neg {
            Some((-mag) as i64)
        } else {
            Some(mag as i64)
        }
    }
}

/// The zero-based index a face token denotes: everything from the first
/// `/` on is discarded, and what remains must be one to ten digits naming
/// a one-based index.
pub open spec fn parse_index_spec(t: Seq<u8>) -> Option<u32> {
    let sub = t.take(sep_pos(t, 47));
    if sub.len() == 0 || sub.len() > 10 || !all_digits(sub) {
        None
    } else {
        let v = digits_val(sub);
        if 1 <= v && v <= 0xffff_ffff {
            Some((v - 1) as u32)
        } else {
            None
        }
    }
}

/// The indices of one face line's remainder, token by token.
pub open spec fn parse_face_spec(s: Seq<u8>, ln: int) -> Result<Seq<u32>, ObjError>
    decreases s.len(),
    via parse_face_spec_dec
{
    let p = sep_pos(s, 32);
    match parse_index_spec(s.take(p)) {
        None => Err(ObjError::BadIndex { line: ln as usize }),
        Some(idx) => {
            if p == s.len() {
                Ok(seq![idx])
            } else {
                match parse_face_spec(s.skip(p + 1), ln) {
                    Err(e) => Err(e),
                    Ok(rest) => Ok(seq![idx] + rest),
                }
            }
        },
    }
}

#[via_fn]
proof fn parse_face_spec_dec(s: Seq<u8>, ln: int) {
    lemma_sep_pos_le(s, 32);
}

/// What one line contributes: vertices, indices, nothing, or an error.
pub open spec fn parse_line_spec(l0: Seq<u8>, ln: int) -> Result<
    (Seq<Vertex>, Seq<u32>),
    ObjError,
> {
    let l = line_strip_cr(l0);
    if l.len() == 0 {
        Ok((Seq::empty(), Seq::empty()))
    } else {
        let p = sep_pos(l, 32);
        if p == l.len() {
            Err(ObjError::MalformedLine { line: ln as usize })
        } else {
            let tag = l.take(p);
            let rest = l.skip(p + 1);
            if tag == seq![118u8] {
                parse_vertex_line_spec(rest, ln)
            } else if tag == seq![102u8] {
                match parse_face_spec(rest, ln) {
                    Err(e) => Err(e),
                    Ok(idxs) => Ok((Seq::empty(), idxs)),
                }
            } else {
                Ok((Seq::empty(), Seq::empty()))
            }
        }
    }
}

/// The vertex a `v` line's remainder denotes: the first three coordinate
/// tokens become the position, any further tokens are ignored, and the
/// color is the fixed default.
pub open spec fn parse_vertex_line_spec(rest: Seq<u8>, ln: int) -> Result<
    (Seq<Vertex>, Seq<u32>),
    ObjError,
> {
    let p0 = sep_pos(rest, 32);
    if p0 == rest.len() {
        Err(ObjError::MissingCoordinate { line: ln as usize })
    } else {
        let t0 = rest.take(p0);
        let r1 = rest.skip(p0 + 1);
        let p1 = sep_pos(r1, 32);
        if p1 == r1.len() {
            Err(ObjError::MissingCoordinate { line: ln as usize })
        } else {
            let t1 = r1.take(p1);
            let r2 = r1.skip(p1 + 1);
            let t2 = r2.take(sep_pos(r2, 32));
            match (parse_fixed_spec(t0), parse_fixed_spec(t1), parse_fixed_spec(t2)) {
                (Some(x), Some(y), Some(z)) => Ok(
                    (
                        seq![Vertex { pos: Vector3 { x, y, z }, color: obj_color() }],
                        Seq::empty(),
                    ),
                ),
                _ => Err(ObjError::BadNumber { line: ln as usize }),
            }
        }
    }
}

/// What the lines from `s` on contribute, in order; the first error wins.
pub open spec fn parse_lines_spec(s: Seq<u8>, ln: int) -> Result<
    (Seq<Vertex>, Seq<u32>),
    ObjError,
>
    decreases s.len(),
    via parse_lines_spec_dec
{
    let p = sep_pos(s, 10);
    match parse_line_spec(s.take(p), ln) {
        Err(e) => Err(e),
        Ok((hv, hi)) => {
            if p == s.len() {
                Ok((hv, hi))
            } else {
                match parse_lines_spec(s.skip(p + 1), ln + 1) {
                    Err(e) => Err(e),
                    Ok((rv, ri)) => Ok((hv + rv, hi + ri)),
                }
            }
        },
    }
}

#[via_fn]
proof fn parse_lines_spec_dec(s: Seq<u8>, ln: int) {
    lemma_sep_pos_le(s, 10);
}

/// The first index at or past `count`, from position `k` on, as an error.
pub open spec fn check_indices_spec(s: Seq<u32>, count: int, k: int) -> Result<(), ObjError>
    decreases s.len() - k,
{
    if k < 0 || k >= s.len() {
        Ok(())
    } else if s[k] as int >= count {
        Err(ObjError::IndexOutOfRange { index: s[k], count: count as usize })
    } else {
        check_indices_spec(s, count, k + 1)
    }
}

/// The whole input's geometry: every line parsed in order, then every
/// index checked against the vertex count.
pub open spec fn parse_obj_spec(data: Seq<u8>) -> Result<(Seq<Vertex>, Seq<u32>), ObjError> {
    match parse_lines_spec(data, 1) {
        Err(e) => Err(e),
        Ok((vs, is_)) => match check_indices_spec(is_, vs.len() as int, 0) {
            Err(e) => Err(e),
            Ok(u) => Ok((vs, is_)),
        },
    }
}

/// A parse result read at the specification level.
pub open spec fn obj_view(r: Result<(Vec<Vertex>, Vec<u32>), ObjError>) -> Result<
    (Seq<Vertex>, Seq<u32>),
    ObjError,
> {
    match r {
        Ok((v, i)) => Ok((v@, i@)),
        Err(e) => Err(e),
    }
}

/// A face result read at the specification level.
pub open spec fn face_view(r: Result<Vec<u32>, ObjError>) -> Result<Seq<u32>, ObjError> {
    match r {
        Ok(v) => Ok(v@),
        Err(e) => Err(e),
    }
}

/// The position of the first `sep` in `s`, or the length of `s`.
fn find_sep(s: &[u8], sep: u8) -> (p: usize)
    ensures
        p as int == sep_pos(s@, sep),
        p <= s.len(),
{
    let mut i: usize = 0;
    while i < s.len()
        invariant
            i <= s.len(),
            forall|j: int| 0 <= j < i ==> s@[j] != sep,
        decreases s.len() - i,
    {
        if s[i] == sep {
            proof {
                lemma_sep_pos_scan(s@, sep, i as int);
            }
            return i;
        }
        i = i + 1;
    }
    proof {
        lemma_sep_pos_scan(s@, sep, s@.len() as int);
    }
    i
}

/// Whether every byte is a decimal digit.
fn check_all_digits(s: &[u8]) -> (r: bool)
    ensures
        r == all_digits(s@),
{
    let mut i: usize = 0;
    while i < s.len()
        invariant
            i <= s.len(),
            forall|j: int| 0 <= j < i ==> is_digit(#[trigger] s@[j]),
        decreases s.len() - i,
    {
        let b = s[i];
        if b < 48 || b > 57 {
            return false;
        }
        i = i + 1;
    }
    true
}

/// The number a digit string denotes; at most fourteen digits.
fn digits_value(s: &[u8]) -> (r: u64)
    requires
        all_digits(s@),
        s@.len() <= 14,
    ensures
        r as int == digits_val(s@),
{
    let mut acc: u64 = 0;
    let mut i: usize = 0;
    while i < s.len()
        invariant
            i <= s.len(),
            all_digits(s@),
            s@.len() <= 14,
            acc as int == digits_val(s@.take(i as int)),
        decreases s.len() - i,
    {
        proof {
            let pre = s@.take(i as int);
            assert(all_digits(pre)) by {
                assert(forall|j: int| 0 <= j < pre.len() ==> pre[j] == s@[j]);
            }
            lemma_digits_bound(pre);
            lemma_pow10_at(i as int);
            assert(s@.take(i + 1).drop_last() =~= pre);
            assert(s@.take(i + 1).last() == s@[i as int]);
            assert(is_digit(s@[i as int]));
        }
        acc = acc * 10 + ((s[i] - 48) as u64);
        i = i + 1;
    }
    proof {
        assert(s@.take(s@.len() as int) =~= s@);
    }
    acc
}

/// Ten to the power `k`, for `k` up to twelve.
fn pow10(k: usize) -> (r: u64)
    requires
        k <= 12,
    ensures
        r as int == pow10_spec(k as int),
        1 <= r <= 1_000_000_000_000,
{
    proof {
        lemma_pow10_at(k as int);
        assert(pow10_spec(0) == 1);
        assert(pow10_spec(1) == 10);
        assert(pow10_spec(2) == 100);
        assert(pow10_spec(3) == 1000);
        assert(pow10_spec(4) == 10000);
        assert(pow10_spec(5) == 100000);
        assert(pow10_spec(6) == 1000000);
        assert(pow10_spec(7) == 10000000);
        assert(pow10_spec(8) == 100000000);
        assert(pow10_spec(9) == 1000000000);
        assert(pow10_spec(10) == 10000000000);
        assert(pow10_spec(11) == 100000000000);
        assert(pow10_spec(12) == 1000000000000);
    }
    if k == 0 {
        1
    } else if k == 1 {
        10
    } else if k == 2 {
        100
    } else if k == 3 {
        1000
    } else if k == 4 {
        10000
    } else if k == 5 {
        100000
    } else if k == 6 {
        1000000
    } else if k == 7 {
        10000000
    } else if k == 8 {
        100000000
    } else if k == 9 {
        1000000000
    } else if k == 10 {
        10000000000
    } else if k == 11 {
        100000000000
    } else {
        1000000000000
    }
}

/// The fixed-point value of a coordinate token, if well formed.
fn parse_fixed(t: &[u8]) -> (r: Option<i64>)
    ensures
        r == parse_fixed_spec(t@),
{
    let signed = t.len() > 0 && (t[0] == 45 || t[0] == 43);
    let neg = t.len() > 0 && t[0] == 45;
    let body: &[u8] = if signed {
        slice_subrange(t, 1, t.len())
    } else {
        t
    };
    proof {
        if signed {
            assert(body@ =~= t@.drop_first());
        }
    }
    let p = find_sep(body, 46);
    let ip = slice_subrange(body, 0, p);
    let fp: &[u8] = if p < body.len() {
        slice_subrange(body, p + 1, body.len())
    } else {
        slice_subrange(body, body.len(), body.len())
    };
    proof {
        assert(ip@ =~= body@.take(p as int));
        if (p as int) < body@.len() {
            assert(fp@ =~= body@.skip(p + 1));
        } else {
            assert(fp@ =~= Seq::<u8>::empty());
        }
    }
    if body.len() == 0 || (ip.len() == 0 && fp.len() == 0) || !check_all_digits(ip)
        || !check_all_digits(fp) || ip.len() > 14 {
        return None;
    }
    let k = if fp.len() > 12 {
        12
    } else {
        fp.len()
    };
    let fk = slice_subrange(fp, 0, k);
    proof {
        assert(fk@ =~= fp@.take(k as int));
        assert(all_digits(fk@)) by {
            assert(forall|j: int| 0 <= j < fk@.len() ==> fk@[j] == fp@[j]);
        }
        lemma_digits_bound(fk@);
        lemma_digits_bound(ip@);
        lemma_pow10_at(k as int);
        lemma_pow10_at(ip@.len() as int);
    }
    let fv = digits_value(fk);
    let iv = digits_value(ip);
    let p10 = pow10(k);
    let frac: u64 = fv * 65536 / p10;
    proof {
        vstd::arithmetic::div_mod::lemma_div_is_ordered(
            fv as int * 65536,
            (pow10_spec(k as int) - 1) * 65536,
            p10 as int,
        );
        assert((pow10_spec(k as int) - 1) * 65536 / (pow10_spec(k as int)) < 65536) by {
            assert((pow10_spec(k as int) - 1) * 65536 < pow10_spec(k as int) * 65536)
                by (nonlinear_arith)
                requires
                    pow10_spec(k as int) >= 1,
            ;
            vstd::arithmetic::div_mod::lemma_multiply_divide_lt(
                (pow10_spec(k as int) - 1) * 65536,
                pow10_spec(k as int),
                65536,
            );
        }
    }
    let mag: u64 = iv * 65536 + frac;
    proof {
        assert(iv as int * 65536 <= (100_000_000_000_000 - 1) * 65536);
    }
    if neg {
        Some(-(mag as i64))
    } else {
        Some(mag as i64)
    }
}

/// The zero-based index a face token denotes, if well formed.
fn parse_index(t: &[u8]) -> (r: Option<u32>)
    ensures
        r == parse_index_spec(t@),
{
    let p = find_sep(t, 47);
    let sub = slice_subrange(t, 0, p);
    proof {
        assert(sub@ =~= t@.take(p as int));
    }
    if sub.len() == 0 || sub.len() > 10 || !check_all_digits(sub) {
        return None;
    }
    proof {
        lemma_digits_bound(sub@);
    }
    let v = digits_value(sub);
    if 1 <= v && v <= 0xffff_ffff {
        Some((v - 1) as u32)
    } else {
        None
    }
}

/// The indices of one face line's remainder, token by token.
fn parse_face(s: &[u8], ln: usize) -> (r: Result<Vec<u32>, ObjError>)
    ensures
        face_view(r) == parse_face_spec(s@, ln as int),
    decreases s.len(),
{
    let p = find_sep(s, 32);
    let tok = slice_subrange(s, 0, p);
    proof {
        assert(tok@ =~= s@.take(p as int));
    }
    match parse_index(tok) {
        None => Err(ObjError::BadIndex { line: ln }),
        Some(idx) => {
            if p == s.len() {
                let v = vec![idx];
                proof {
                    assert(v@ =~= seq![idx]);
                }
                Ok(v)
            } else {
                let rest = slice_subrange(s, p + 1, s.len());
                proof {
                    assert(rest@ =~= s@.skip(p + 1));
                }
                match parse_face(rest, ln) {
                    Err(e) => Err(e),
                    Ok(mut rv) => {
                        let mut out: Vec<u32> = Vec::new();
                        out.push(idx);
                        out.append(&mut rv);
                        proof {
                            assert(out@ =~= seq![idx] + parse_face_spec(s@, ln as int)->Ok_0.skip(
                                1,
                            ));
                        }
                        Ok(out)
                    },
                }
            }
        },
    }
}

/// What one line contributes: vertices, indices, nothing, or an error.
fn parse_line(l0: &[u8], ln: usize) -> (r: Result<(Vec<Vertex>, Vec<u32>), ObjError>)
    ensures
        obj_view(r) == parse_line_spec(l0@, ln as int),
{
    let l: &[u8] = if l0.len() > 0 && l0[l0.len() - 1] == 13 {
        slice_subrange(l0, 0, l0.len() - 1)
    } else {
        l0
    };
    proof {
        assert(l@ =~= line_strip_cr(l0@));
    }
    if l.len() == 0 {
        return Ok((Vec::new(), Vec::new()));
    }
    let p = find_sep(l, 32);
    if p == l.len() {
        return Err(ObjError::MalformedLine { line: ln });
    }
    let tag = slice_subrange(l, 0, p);
    let rest = slice_subrange(l, p + 1, l.len());
    proof {
        assert(tag@ =~= l@.take(p as int));
        assert(rest@ =~= l@.skip(p + 1));
    }
    if tag.len() == 1 && tag[0] == 118 {
        proof {
            assert(tag@ =~= seq![118u8]);
        }
        parse_vertex_line(rest, ln)
    } else if tag.len() == 1 && tag[0] == 102 {
        proof {
            assert(tag@ != seq![118u8]) by {
                if tag@ == seq![118u8] {
                    assert(tag@[0] == 118u8);
                }
            }
            assert(tag@ =~= seq![102u8]);
        }
        match parse_face(rest, ln) {
            Err(e) => Err(e),
            Ok(idxs) => Ok((Vec::new(), idxs)),
        }
    } else {
        proof {
            assert(tag@ != seq![118u8]) by {
                if tag@ == seq![118u8] {
                    assert(tag@.len() == 1 && tag@[0] == 118u8);
                }
            }
            assert(tag@ != seq![102u8]) by {
                if tag@ == seq![102u8] {
                    assert(tag@.len() == 1 && tag@[0] == 102u8);
                }
            }
        }
        Ok((Vec::new(), Vec::new()))
    }
}

/// The vertex a `v` line's remainder denotes.
fn parse_vertex_line(rest: &[u8], ln: usize) -> (r: Result<(Vec<Vertex>, Vec<u32>), ObjError>)
    ensures
        obj_view(r) == parse_vertex_line_spec(rest@, ln as int),
{
    let p0 = find_sep(rest, 32);
    if p0 == rest.len() {
        return Err(ObjError::MissingCoordinate { line: ln });
    }
    let t0 = slice_subrange(rest, 0, p0);
    let r1 = slice_subrange(rest, p0 + 1, rest.len());
    proof {
        assert(t0@ =~= rest@.take(p0 as int));
        assert(r1@ =~= rest@.skip(p0 + 1));
    }
    let p1 = find_sep(r1, 32);
    if p1 == r1.len() {
        return Err(ObjError::MissingCoordinate { line: ln });
    }
    let t1 = slice_subrange(r1, 0, p1);
    let r2 = slice_subrange(r1, p1 + 1, r1.len());
    proof {
        assert(t1@ =~= r1@.take(p1 as int));
        assert(r2@ =~= r1@.skip(p1 + 1));
    }
    let p2 = find_sep(r2, 32);
    let t2 = slice_subrange(r2, 0, p2);
    proof {
        assert(t2@ =~= r2@.take(p2 as int));
    }
    let v0 = parse_fixed(t0);
    let v1 = parse_fixed(t1);
    let v2 = parse_fixed(t2);
    match (v0, v1, v2) {
        (Some(x), Some(y), Some(z)) => {
            let vert = Vertex {
                pos: Vector3 { x, y, z },
                color: Color4 { r: SCALE, g: 0, b: 0, a: SCALE },
            };
            let vs = vec![vert];
            proof {
                assert(vs@ =~= seq![vert]);
            }
            Ok((vs, Vec::new()))
        },
        _ => Err(ObjError::BadNumber { line: ln }),
    }
}

/// What the lines from `s` on contribute, in order; the first error wins.
fn parse_lines(s: &[u8], ln: usize) -> (r: Result<(Vec<Vertex>, Vec<u32>), ObjError>)
    requires
        ln + s@.len() <= usize::MAX,
    ensures
        obj_view(r) == parse_lines_spec(s@, ln as int),
    decreases s.len(),
{
    let p = find_sep(s, 10);
    let line = slice_subrange(s, 0, p);
    proof {
        assert(line@ =~= s@.take(p as int));
    }
    match parse_line(line, ln) {
        Err(e) => Err(e),
        Ok((mut hv, mut hi)) => {
            if p == s.len() {
                Ok((hv, hi))
            } else {
                let rest = slice_subrange(s, p + 1, s.len());
                proof {
                    assert(rest@ =~= s@.skip(p + 1));
                }
                match parse_lines(rest, ln + 1) {
                    Err(e) => Err(e),
                    Ok((mut rv, mut ri)) => {
                        hv.append(&mut rv);
                        hi.append(&mut ri);
                        Ok((hv, hi))
                    },
                }
            }
        },
    }
}

/// The first out-of-range index from position `k` on, as an error.
fn check_indices(s: &Vec<u32>, count: usize) -> (r: Result<(), ObjError>)
    ensures
        r == check_indices_spec(s@, count as int, 0),
{
    let mut i: usize = 0;
    while i < s.len()
        invariant
            i <= s.len(),
            check_indices_spec(s@, count as int, 0) == check_indices_spec(
                s@,
                count as int,
                i as int,
            ),
        decreases s.len() - i,
    {
        if s[i] as usize >= count {
            return Err(ObjError::IndexOutOfRange { index: s[i], count });
        }
        i = i + 1;
    }
    Ok(())
}

/// Parses a whole OBJ input into vertices and indices; every index is
/// checked against the vertex count before anything is returned.
pub fn parse_obj(data: &[u8]) -> (r: Result<(Vec<Vertex>, Vec<u32>), ObjError>)
    requires
        data@.len() < usize::MAX,
    ensures
        obj_view(r) == parse_obj_spec(data@),
{
    match parse_lines(data, 1) {
        Err(e) => Err(e),
        Ok((vs, is_)) => {
            match check_indices(&is_, vs.len()) {
                Err(e) => Err(e),
                Ok(u) => Ok((vs, is_)),
            }
        },
    }
}

} // verus!
