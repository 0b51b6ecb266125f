//! Decoding of `application/x-www-form-urlencoded` submission bodies.
//!
//! A body is a `&`-separated list of segments; each segment is a key, an
//! optional `=`, and a value. Keys and values are decoded by replacing `+`
//! with a space and `%xy` (two hex digits) with the byte it names; a `%` not
//! followed by two hex digits stands for itself. A submission is well-formed
//! when the decoded keys contain `name` exactly once and `email` exactly
//! once; empty segments and other keys are ignored, and a repeated `name` or
//! `email` key rejects the body.

use vstd::prelude::*;
use crate::routes::SubscribeFormData;

verus! {

/// `&`, the separator between segments.
pub const AMP: u8 = 38;

/// `=`, the separator between a key and a value.
pub const EQUALS: u8 = 61;

/// `%`, the escape character.
pub const PERCENT: u8 = 37;

/// `+`, which decodes to a space.
pub const PLUS: u8 = 43;

/// The space character a `+` decodes to.
pub const SPACE: u8 = 32;

pub open spec fn is_hex_digit(b: u8) -> bool {
    (48 <= b <= 57) || (97 <= b <= 102) || (65 <= b <= 70)
}

/// The value of one hex digit, lower- or upper-case.
pub open spec fn hex_val(b: u8) -> u8 {
    if 48 <= b <= 57 {
        (b - 48) as u8
    } else if 97 <= b <= 102 {
        (b - 87) as u8
    } else {
        (b - 55) as u8
    }
}

/// Percent-plus decoding of one key or value: `+` becomes a space, `%` with
/// two hex digits becomes the byte they name, and anything else (a `%` not
/// followed by two hex digits included) stands for itself.
pub open spec fn pct_decode(s: Seq<u8>) -> Seq<u8>
    decreases s.len(),
{
    if s.len() == 0 {
        Seq::empty()
    } else if s[0] == PERCENT && s.len() >= 3 && is_hex_digit(s[1]) && is_hex_digit(s[2]) {
        seq![(hex_val(s[1]) * 16 + hex_val(s[2])) as u8] + pct_decode(s.skip(3))
    } else if s[0] == PLUS {
        seq![SPACE] + pct_decode(s.skip(1))
    } else {
        seq![s[0]] + pct_decode(s.skip(1))
    }
}

/// The raw key of a segment: everything before the first `=`, or the whole
/// segment when it has no `=`.
pub open spec fn seg_key(s: Seq<u8>) -> Seq<u8>
    decreases s.len(),
{
    if s.len() == 0 {
        Seq::empty()
    } else if s[0] == EQUALS {
        Seq::empty()
    } else {
        seq![s[0]] + seg_key(s.skip(1))
    }
}

/// The raw value of a segment: everything after the first `=`, or empty when
/// the segment has no `=`.
pub open spec fn seg_value(s: Seq<u8>) -> Seq<u8>
    decreases s.len(),
{
    if s.len() == 0 {
        Seq::empty()
    } else if s[0] == EQUALS {
        s.skip(1)
    } else {
        seg_value(s.skip(1))
    }
}

/// The segments of a body, split on `&`. An empty body gives one empty
/// segment; a separator at either end or two in a row give empty segments.
pub open spec fn split_amp(s: Seq<u8>) -> Seq<Seq<u8>>
    decreases s.len(),
{
    if s.len() == 0 {
        seq![Seq::<u8>::empty()]
    } else if s[0] == AMP {
        seq![Seq::<u8>::empty()] + split_amp(s.skip(1))
    } else {
        let rest = split_amp(s.skip(1));
        seq![seq![s[0]] + rest[0]] + rest.skip(1)
    }
}

/// The decoded key that selects the `name` field.
pub open spec fn name_key() -> Seq<u8> {
    seq![110u8, 97u8, 109u8, 101u8]
}

/// The decoded key that selects the `email` field.
pub open spec fn email_key() -> Seq<u8> {
    seq![101u8, 109u8, 97u8, 105u8, 108u8]
}

/// Walks the segments in order, collecting the decoded `name` and `email`
/// values. A segment whose decoded key repeats a field already seen rejects
/// the body; at the end both fields must have been seen.
pub open spec fn scan_fields(
    segs: Seq<Seq<u8>>,
    name: Option<Seq<u8>>,
    email: Option<Seq<u8>>,
) -> Option<(Seq<u8>, Seq<u8>)>
    decreases segs.len(),
{
    if segs.len() == 0 {
        if name is Some && email is Some {
            Some((name->0, email->0))
        } else {
            None
        }
    } else {
        let seg = segs[0];
        if seg.len() == 0 {
            scan_fields(segs.skip(1), name, email)
        } else {
            let k = pct_decode(seg_key(seg));
            if k == name_key() {
                if name is Some {
                    None
                } else {
                    scan_fields(segs.skip(1), Some(pct_decode(seg_value(seg))), email)
                }
            } else if k == email_key() {
                if email is Some {
                    None
                } else {
                    scan_fields(segs.skip(1), name, Some(pct_decode(seg_value(seg))))
                }
            } else {
                scan_fields(segs.skip(1), name, email)
            }
        }
    }
}

/// The decoded `name` and `email` byte values of a body, or `None` when the
/// body is not a well-formed submission.
pub open spec fn spec_form_fields(body: Seq<u8>) -> Option<(Seq<u8>, Seq<u8>)> {
    scan_fields(split_amp(body), None, None)
}

/// What `String::from_utf8_lossy` makes of a byte sequence.
pub uninterp spec fn lossy_utf8(b: Seq<u8>) -> Seq<char>;

/// Relies on `String::from_utf8_lossy`: the result depends on the bytes
/// alone, and an empty input gives an empty string.
#[verifier::external_body]
fn lossy_string(v: &Vec<u8>) -> (s: String)
    ensures
        s@ == lossy_utf8(v@),
        v@.len() == 0 ==> s@.len() == 0,
{
    String::from_utf8_lossy(v.as_slice()).into_owned()
}

fn is_hex(b: u8) -> (r: bool)
    ensures
        r == is_hex_digit(b),
{
    (48 <= b && b <= 57) || (97 <= b && b <= 102) || (65 <= b && b <= 70)
}

fn hex_value(b: u8) -> (r: u8)
    requires
        is_hex_digit(b),
    ensures
        r == hex_val(b),
{
    if b <= 57 {
        b - 48
    } else if b >= 97 {
        b - 87
    } else {
        b - 55
    }
}

/// Percent-plus decodes one raw key or value.
fn percent_decode(s: &Vec<u8>) -> (out: Vec<u8>)
    ensures
        out@ == pct_decode(s@),
{
    let mut out: Vec<u8> = Vec::new();
    let mut i: usize = 0;
    proof {
        assert(s@.skip(0) =~= s@);
        assert(Seq::<u8>::empty() + pct_decode(s@) =~= pct_decode(s@));
    }
    while i < s.len()
        invariant
            i <= s@.len(),
            pct_decode(s@) == out@ + pct_decode(s@.skip(i as int)),
        decreases s@.len() - i,
    {
        let ghost t = s@.skip(i as int);
        let ghost out0 = out@;
        proof {
            assert(t.len() == s@.len() - i);
            assert(t[0] == s@[i as int]);
            if i + 1 < s@.len() {
                assert(t[1] == s@[i as int + 1]);
            }
            if i + 2 < s@.len() {
                assert(t[2] == s@[i as int + 2]);
            }
            assert(t.skip(1) =~= s@.skip(i as int + 1));
        }
        let b = s[i];
        if b == PERCENT && s.len() - i >= 3 && is_hex(s[i + 1]) && is_hex(s[i + 2]) {
            let v = hex_value(s[i + 1]) * 16 + hex_value(s[i + 2]);
            out.push(v);
            proof {
                assert(t.skip(3) =~= s@.skip(i as int + 3));
                assert(pct_decode(t) == seq![v] + pct_decode(t.skip(3)));
                assert(out@ + pct_decode(s@.skip(i as int + 3)) =~= out0 + pct_decode(t));
            }
            i += 3;
        } else if b == PLUS {
            out.push(SPACE);
            proof {
                assert(pct_decode(t) == seq![SPACE] + pct_decode(t.skip(1)));
                assert(out@ + pct_decode(s@.skip(i as int + 1)) =~= out0 + pct_decode(t));
            }
            i += 1;
        } else {
            out.push(b);
            proof {
                assert(pct_decode(t) == seq![b] + pct_decode(t.skip(1)));
                assert(out@ + pct_decode(s@.skip(i as int + 1)) =~= out0 + pct_decode(t));
            }
            i += 1;
        }
    }
    proof {
        assert(s@.skip(s@.len() as int) =~= Seq::<u8>::empty());
        assert(pct_decode(s@) =~= out@);
    }
    out
}

/// Splits a segment into its raw key and raw value at the first `=`.
fn split_pair(seg: &Vec<u8>) -> (kv: (Vec<u8>, Vec<u8>))
    ensures
        kv.0@ == seg_key(seg@),
        kv.1@ == seg_value(seg@),
{
    let mut key: Vec<u8> = Vec::new();
    let mut i: usize = 0;
    proof {
        assert(seg@.skip(0) =~= seg@);
        assert(Seq::<u8>::empty() + seg_key(seg@) =~= seg_key(seg@));
    }
    while i < seg.len()
        invariant
            i <= seg@.len(),
            seg_key(seg@) == key@ + seg_key(seg@.skip(i as int)),
            seg_value(seg@) == seg_value(seg@.skip(i as int)),
        decreases seg@.len() - i,
    {
        let ghost t = seg@.skip(i as int);
        let ghost key0 = key@;
        proof {
            assert(t.len() == seg@.len() - i);
            assert(t[0] == seg@[i as int]);
            assert(t.skip(1) =~= seg@.skip(i as int + 1));
        }
        let b = seg[i];
        if b == EQUALS {
            let mut val: Vec<u8> = Vec::new();
            let mut j: usize = i + 1;
            while j < seg.len()
                invariant
                    i + 1 <= j <= seg@.len(),
                    i < seg@.len(),
                    seg@[i as int] == EQUALS,
                    seg_key(seg@) == key@ + seg_key(seg@.skip(i as int)),
                    seg_value(seg@) == seg_value(seg@.skip(i as int)),
                    val@ == seg@.subrange(i as int + 1, j as int),
                decreases seg@.len() - j,
            {
                val.push(seg[j]);
                proof {
                    assert(seg@.subrange(i as int + 1, j as int + 1) =~= seg@.subrange(
                        i as int + 1,
                        j as int,
                    ).push(seg@[j as int]));
                }
                j += 1;
            }
            proof {
                let t2 = seg@.skip(i as int);
                assert(t2[0] == EQUALS);
                assert(seg_key(t2) =~= Seq::<u8>::empty());
                assert(key@ + seg_key(t2) =~= key@);
                assert(t2.skip(1) =~= seg@.skip(i as int + 1));
                assert(seg_value(seg@) == seg@.skip(i as int + 1));
                assert(val@ =~= seg@.skip(i as int + 1));
            }
            return (key, val);
        }
        key.push(b);
        proof {
            assert(seg_key(t) == seq![b] + seg_key(t.skip(1)));
            assert(key@ + seg_key(seg@.skip(i as int + 1)) =~= key0 + seg_key(t));
            assert(seg_value(t) == seg_value(t.skip(1)));
        }
        i += 1;
    }
    proof {
        assert(seg@.skip(seg@.len() as int) =~= Seq::<u8>::empty());
        assert(seg_key(seg@) =~= key@);
        assert(seg_value(seg@) =~= Seq::<u8>::empty());
    }
    (key, Vec::new())
}

fn is_name_key(k: &Vec<u8>) -> (r: bool)
    ensures
        r == (k@ == name_key()),
{
    let r = k.len() == 4 && k[0] == 110 && k[1] == 97 && k[2] == 109 && k[3] == 101;
    proof {
        assert(name_key().len() == 4);
        assert(name_key()[0] == 110 && name_key()[1] == 97 && name_key()[2] == 109 && name_key()[3]
            == 101);
        if r {
            assert(k@ =~= name_key());
        }
    }
    r
}

fn is_email_key(k: &Vec<u8>) -> (r: bool)
    ensures
        r == (k@ == email_key()),
{
    let r = k.len() == 5 && k[0] == 101 && k[1] == 109 && k[2] == 97 && k[3] == 105 && k[4] == 108;
    proof {
        assert(email_key().len() == 5);
        assert(email_key()[0] == 101 && email_key()[1] == 109 && email_key()[2] == 97 && email_key()[3]
            == 105 && email_key()[4] == 108);
        if r {
            assert(k@ =~= email_key());
        }
    }
    r
}

/// The views of a sequence of byte vectors.
spec fn views_of(s: Seq<Vec<u8>>) -> Seq<Seq<u8>> {
    Seq::new(s.len(), |j: int| s[j]@)
}

/// The segments still to come, with the bytes gathered so far glued onto the
/// front of the first one.
spec fn glue(c: Seq<u8>, ss: Seq<Seq<u8>>) -> Seq<Seq<u8>> {
    seq![c + ss[0]] + ss.skip(1)
}

proof fn lemma_split_amp_nonempty(s: Seq<u8>)
    ensures
        split_amp(s).len() >= 1,
    decreases s.len(),
{
    if s.len() == 0 {
    } else if s[0] == AMP {
    } else {
        lemma_split_amp_nonempty(s.skip(1));
    }
}

/// Splits a body into its `&`-separated segments.
fn split_segments(body: &[u8]) -> (segs: Vec<Vec<u8>>)
    ensures
        segs@.len() == split_amp(body@).len(),
        forall|j: int| 0 <= j < segs@.len() ==> segs@[j]@ == split_amp(body@)[j],
{
    let mut segs: Vec<Vec<u8>> = Vec::new();
    let mut cur: Vec<u8> = Vec::new();
    let mut i: usize = 0;
    proof {
        lemma_split_amp_nonempty(body@);
        assert(body@.skip(0) =~= body@);
        assert(views_of(segs@) =~= Seq::<Seq<u8>>::empty());
        assert(glue(cur@, split_amp(body@)) =~= split_amp(body@));
        assert(views_of(segs@) + glue(cur@, split_amp(body@)) =~= split_amp(body@));
    }
    while i < body.len()
        invariant
            i <= body@.len(),
            split_amp(body@) == views_of(segs@) + glue(cur@, split_amp(body@.skip(i as int))),
        decreases body@.len() - i,
    {
        let ghost t = body@.skip(i as int);
        let ghost segs0 = segs@;
        let ghost cur0 = cur@;
        let ghost rest = split_amp(body@.skip(i as int + 1));
        proof {
            assert(t.len() == body@.len() - i);
            assert(t[0] == body@[i as int]);
            assert(t.skip(1) =~= body@.skip(i as int + 1));
            lemma_split_amp_nonempty(body@.skip(i as int + 1));
        }
        let b = body[i];
        if b == AMP {
            segs.push(cur);
            cur = Vec::new();
            proof {
                assert(split_amp(t) == seq![Seq::<u8>::empty()] + rest);
                assert(glue(cur0, split_amp(t)) =~= seq![cur0] + rest);
                assert(glue(cur@, rest) =~= rest);
                assert(views_of(segs@) =~= views_of(segs0).push(cur0));
                assert(views_of(segs@) + glue(cur@, rest) =~= views_of(segs0) + glue(
                    cur0,
                    split_amp(t),
                ));
            }
        } else {
            cur.push(b);
            proof {
                assert(split_amp(t) == seq![seq![b] + rest[0]] + rest.skip(1));
                assert(glue(cur0, split_amp(t)) =~= seq![cur0 + (seq![b] + rest[0])] + rest.skip(1));
                assert(cur0 + (seq![b] + rest[0]) =~= cur@ + rest[0]);
                assert(glue(cur0, split_amp(t)) =~= glue(cur@, rest));
            }
        }
        i += 1;
    }
    proof {
        assert(body@.skip(body@.len() as int) =~= Seq::<u8>::empty());
        assert(split_amp(body@.skip(body@.len() as int)) == seq![Seq::<u8>::empty()]);
        assert(glue(cur@, seq![Seq::<u8>::empty()]) =~= seq![cur@]);
    }
    let ghost segs0 = segs@;
    let ghost cur0 = cur@;
    segs.push(cur);
    proof {
        assert(views_of(segs@) =~= views_of(segs0).push(cur0));
        assert(views_of(segs@) =~= split_amp(body@));
    }
    segs
}

/// The field values gathered so far, at the spec level.
spec fn opt_bytes(o: Option<Vec<u8>>) -> Option<Seq<u8>> {
    match o {
        Some(v) => Some(v@),
        None => None,
    }
}

/// Decodes a submission body into its `name` and `email` fields, or `None`
/// when the body is not a well-formed submission (a field missing or
/// repeated).
pub fn parse_subscription_form(body: &[u8]) -> (r: Option<SubscribeFormData>)
    ensures
        match r {
            Some(f) => spec_form_fields(body@) matches Some(p) && f.name@ == lossy_utf8(p.0)
                && f.email@ == lossy_utf8(p.1),
            None => spec_form_fields(body@) is None,
        },
{
    let segs = split_segments(body);
    let ghost ss = split_amp(body@);
    let mut name_val: Option<Vec<u8>> = None;
    let mut email_val: Option<Vec<u8>> = None;
    let mut i: usize = 0;
    proof {
        assert(ss.skip(0) =~= ss);
    }
    while i < segs.len()
        invariant
            i <= segs@.len(),
            segs@.len() == ss.len(),
            forall|j: int| 0 <= j < ss.len() ==> segs@[j]@ == ss[j],
            ss == split_amp(body@),
            spec_form_fields(body@) == scan_fields(
                ss.skip(i as int),
                opt_bytes(name_val),
                opt_bytes(email_val),
            ),
        decreases segs@.len() - i,
    {
        let ghost t = ss.skip(i as int);
        proof {
            assert(t[0] == ss[i as int]);
            assert(t.skip(1) =~= ss.skip(i as int + 1));
        }
        let seg = &segs[i];
        if seg.len() == 0 {
            proof {
                assert(scan_fields(t, opt_bytes(name_val), opt_bytes(email_val)) == scan_fields(
                    t.skip(1),
                    opt_bytes(name_val),
                    opt_bytes(email_val),
                ));
            }
        } else {
            let (kraw, vraw) = split_pair(seg);
            let k = percent_decode(&kraw);
            let v = percent_decode(&vraw);
            if is_name_key(&k) {
                if name_val.is_some() {
                    return None;
                }
                name_val = Some(v);
            } else if is_email_key(&k) {
                if email_val.is_some() {
                    return None;
                }
                email_val = Some(v);
            }
        }
        i += 1;
    }
    proof {
        assert(ss.skip(ss.len() as int) =~= Seq::<Seq<u8>>::empty());
    }
    if name_val.is_some() && email_val.is_some() {
        let n = name_val.unwrap();
        let e = email_val.unwrap();
        let name = lossy_string(&n);
        let email = lossy_string(&e);
        Some(SubscribeFormData { name, email })
    } else {
        None
    }
}

} // verus!
