//! Payloads made of fixed literal pieces with one escaped field between
//! each neighbouring pair.
//!
//! Every canonical payload of the relay has this shape: `lits[0]`, then the
//! first field value escaped and closed with a quote, then `lits[1]`, and so
//! on, ending with the last literal.  `enc_fields` spells such a payload,
//! `dec_fields` says what parsing one from a position yields, and the two
//! lemmas prove that parsing is exact: it accepts a spelled payload and
//! recovers its fields (`lemma_dec_fields_complete`), and whatever it
//! accepts was spelled from the fields it returns
//! (`lemma_dec_fields_sound`).

use vstd::prelude::*;

use crate::text::{
    append_esc, chars_string, expect_lit, fld, lemma_scan_fld, lemma_scan_sound, lemma_split,
    lit_at, push_char, scan, scan_chars,
};

verus! {

/// The views of a sequence of string slices.
pub open spec fn lit_views(ls: Seq<&str>) -> Seq<Seq<char>> {
    ls.map_values(|l: &str| l@)
}

/// The views of a sequence of strings.
pub open spec fn val_views(vs: Seq<String>) -> Seq<Seq<char>> {
    vs.map_values(|v: String| v@)
}

/// The payload spelled from literal pieces `lits` and field values `vals`.
pub open spec fn enc_fields(lits: Seq<Seq<char>>, vals: Seq<Seq<char>>) -> Seq<char>
    recommends
        lits.len() == vals.len() + 1,
    decreases vals.len(),
{
    if vals.len() == 0 {
        if lits.len() == 0 {
            Seq::empty()
        } else {
            lits[0]
        }
    } else {
        lits[0] + fld(vals[0]) + enc_fields(lits.drop_first(), vals.drop_first())
    }
}

/// What parsing a payload of that shape from position `i` yields: the field
/// values and the position after the last literal.
pub open spec fn dec_fields(s: Seq<char>, i: int, lits: Seq<Seq<char>>) -> Option<
    (Seq<Seq<char>>, int),
>
    recommends
        lits.len() >= 1,
    decreases lits.len(),
{
    if !lit_at(s, i, lits[0]) {
        None
    } else if lits.len() <= 1 {
        Some((Seq::empty(), i + lits[0].len()))
    } else {
        match scan(s, i + lits[0].len()) {
            Some(p) => match dec_fields(s, p.1, lits.drop_first()) {
                Some(q) => Some((seq![p.0] + q.0, q.1)),
                None => None,
            },
            None => None,
        }
    }
}

/// Three adjacent known subranges of `s` join to one.
pub proof fn lemma_cat3(s: Seq<char>, i: int, a: Seq<char>, b: Seq<char>, c: Seq<char>)
    requires
        0 <= i,
        i + a.len() + b.len() + c.len() <= s.len(),
        s.subrange(i, i + a.len()) == a,
        s.subrange(i + a.len(), i + a.len() + b.len()) == b,
        s.subrange(i + a.len() + b.len(), i + a.len() + b.len() + c.len()) == c,
    ensures
        s.subrange(i, i + a.len() + b.len() + c.len()) == (a + b) + c,
{
    assert forall|t: int| 0 <= t < a.len() + b.len() + c.len() implies s.subrange(
        i,
        i + a.len() + b.len() + c.len(),
    )[t] == ((a + b) + c)[t] by {
        if t < a.len() {
            assert(s.subrange(i, i + a.len())[t] == s[i + t]);
        } else if t < a.len() + b.len() {
            assert(s.subrange(i + a.len(), i + a.len() + b.len())[t - a.len()] == s[i + t]);
        } else {
            assert(s.subrange(
                i + a.len() + b.len(),
                i + a.len() + b.len() + c.len(),
            )[t - a.len() - b.len()] == s[i + t]);
        }
    };
    assert(s.subrange(i, i + a.len() + b.len() + c.len()) =~= (a + b) + c);
}

/// Whatever `dec_fields` accepts was spelled from the fields it returns.
pub proof fn lemma_dec_fields_sound(s: Seq<char>, i: int, lits: Seq<Seq<char>>)
    requires
        0 <= i <= s.len(),
        lits.len() >= 1,
    ensures
        dec_fields(s, i, lits) matches Some(r) ==> {
            &&& r.0.len() + 1 == lits.len()
            &&& i <= r.1 <= s.len()
            &&& s.subrange(i, r.1) == enc_fields(lits, r.0)
        },
    decreases lits.len(),
{
    if lit_at(s, i, lits[0]) {
        let j = i + lits[0].len();
        if lits.len() <= 1 {
            match dec_fields(s, i, lits) {
                Some(r) => {
                    assert(r.0 =~= Seq::<Seq<char>>::empty());
                    assert(enc_fields(lits, r.0) == lits[0]);
                },
                None => {},
            }
        } else {
            lemma_scan_sound(s, j);
            match scan(s, j) {
                Some(p) => {
                    lemma_dec_fields_sound(s, p.1, lits.drop_first());
                    match dec_fields(s, p.1, lits.drop_first()) {
                        Some(q) => {
                            let vals = seq![p.0] + q.0;
                            assert(vals.drop_first() =~= q.0);
                            assert(vals[0] == p.0);
                            lemma_cat3(
                                s,
                                i,
                                lits[0],
                                fld(p.0),
                                enc_fields(lits.drop_first(), q.0),
                            );
                        },
                        None => {},
                    }
                },
                None => {},
            }
        }
    }
}

/// Parsing a spelled payload accepts it and recovers exactly its fields.
pub proof fn lemma_dec_fields_complete(
    s: Seq<char>,
    i: int,
    lits: Seq<Seq<char>>,
    vals: Seq<Seq<char>>,
)
    requires
        lits.len() == vals.len() + 1,
        0 <= i,
        i + enc_fields(lits, vals).len() <= s.len(),
        s.subrange(i, i + enc_fields(lits, vals).len()) == enc_fields(lits, vals),
    ensures
        dec_fields(s, i, lits) == Some((vals, i + enc_fields(lits, vals).len())),
    decreases vals.len(),
{
    if vals.len() == 0 {
        assert(enc_fields(lits, vals) == lits[0]);
        assert(lit_at(s, i, lits[0]));
        assert(vals =~= Seq::<Seq<char>>::empty());
    } else {
        let rest = enc_fields(lits.drop_first(), vals.drop_first());
        assert(enc_fields(lits, vals) == (lits[0] + fld(vals[0])) + rest);
        lemma_split(s, i, lits[0] + fld(vals[0]), rest);
        lemma_split(s, i, lits[0], fld(vals[0]));
        assert(lit_at(s, i, lits[0]));
        let j = i + lits[0].len();
        lemma_scan_fld(s, j, vals[0]);
        let j2 = j + fld(vals[0]).len();
        lemma_dec_fields_complete(s, j2, lits.drop_first(), vals.drop_first());
        assert(seq![vals[0]] + vals.drop_first() =~= vals);
    }
}

/// Spells the payload made of the literal pieces and field values from
/// index `k` on.
pub(crate) fn encode_fields_from(lits: &[&str], vals: &[&str], k: usize) -> (r: String)
    requires
        lits@.len() == vals@.len() + 1,
        k <= vals@.len(),
    ensures
        r@ == enc_fields(lit_views(lits@).skip(k as int), lit_views(vals@).skip(k as int)),
    decreases vals@.len() - k,
{
    let ghost ls = lit_views(lits@).skip(k as int);
    let ghost ws = lit_views(vals@).skip(k as int);
    let mut out = String::from_str(lits[k]);
    if k < vals.len() {
        append_esc(&mut out, vals[k]);
        push_char(&mut out, '"');
        let rest = encode_fields_from(lits, vals, k + 1);
        out.append(rest.as_str());
        proof {
            assert(ls[0] == lits@[k as int]@);
            assert(ws[0] == vals@[k as int]@);
            assert(ls.drop_first() =~= lit_views(lits@).skip(k + 1));
            assert(ws.drop_first() =~= lit_views(vals@).skip(k + 1));
            assert(enc_fields(ls, ws) == ls[0] + fld(ws[0]) + enc_fields(
                ls.drop_first(),
                ws.drop_first(),
            ));
            assert(out@ =~= (lits@[k as int]@ + fld(vals@[k as int]@)) + rest@);
        }
    } else {
        proof {
            assert(ws.len() == 0);
            assert(enc_fields(ls, ws) == ls[0]);
            assert(ls[0] == lits@[k as int]@);
        }
    }
    out
}

/// Parses a payload made of the literal pieces from index `k` on, starting
/// at position `i`, as `dec_fields` describes.
pub(crate) fn parse_fields_from(s: &Vec<char>, i: usize, lits: &[&str], k: usize) -> (r: Option<
    (Vec<String>, usize),
>)
    requires
        i <= s@.len(),
        k < lits@.len(),
    ensures
        r matches Some(p) ==> {
            &&& dec_fields(s@, i as int, lit_views(lits@).skip(k as int)) == Some(
                (val_views(p.0@), p.1 as int),
            )
            &&& p.1 <= s@.len()
        },
        r is None ==> dec_fields(s@, i as int, lit_views(lits@).skip(k as int)) is None,
    decreases lits@.len() - k,
{
    let ghost ls = lit_views(lits@).skip(k as int);
    proof {
        assert(ls[0] == lits@[k as int]@);
    }
    match expect_lit(s, i, lits[k]) {
        None => None,
        Some(j) => {
            if k + 1 == lits.len() {
                let vs: Vec<String> = Vec::new();
                proof {
                    assert(val_views(vs@) =~= Seq::<Seq<char>>::empty());
                }
                Some((vs, j))
            } else {
                proof {
                    assert(ls.drop_first() =~= lit_views(lits@).skip(k + 1));
                }
                match scan_chars(s, j) {
                    None => None,
                    Some(p) => {
                        let (v, j2) = p;
                        match parse_fields_from(s, j2, lits, k + 1) {
                            None => None,
                            Some(q) => {
                                let (mut vs, j3) = q;
                                let ghost old_vs = vs@;
                                let sv = chars_string(&v);
                                vs.insert(0, sv);
                                proof {
                                    assert(val_views(vs@) =~= seq![v@] + val_views(old_vs));
                                }
                                Some((vs, j3))
                            },
                        }
                    },
                }
            }
        },
    }
}

} // verus!
