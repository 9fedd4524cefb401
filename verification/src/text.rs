//! The character-level layer of the canonical payload encoding.
//!
//! A field value is written between double quotes, with a backslash put
//! before every quote or backslash of the value and every other character
//! standing as itself.  `esc` says what the escaped spelling of a value is,
//! `scan` says what reading a payload up to the next unescaped quote yields,
//! and the two lemmas about them carry all the reasoning the codec needs:
//! scanning an escaped field recovers exactly the value (`lemma_scan_fld`),
//! and whatever a scan yields was spelled as an escaped field
//! (`lemma_scan_sound`).

use vstd::prelude::*;

verus! {

/// The canonical escape of one character: a quote or a backslash is
/// preceded by a backslash, every other character stands as itself.
pub open spec fn esc_char(c: char) -> Seq<char> {
    if c == '"' || c == '\\' {
        seq!['\\', c]
    } else {
        seq![c]
    }
}

/// The canonical escape of a whole value.
pub open spec fn esc(s: Seq<char>) -> Seq<char>
    decreases s.len(),
{
    if s.len() == 0 {
        Seq::empty()
    } else {
        esc_char(s[0]) + esc(s.drop_first())
    }
}

/// An escaped field value together with its closing quote: what stands
/// between the opening quote of a field and the next piece of the payload.
pub open spec fn fld(s: Seq<char>) -> Seq<char> {
    esc(s) + seq!['"']
}

/// The literal `l` stands in `s` at position `i`.
pub open spec fn lit_at(s: Seq<char>, i: int, l: Seq<char>) -> bool {
    0 <= i && i + l.len() <= s.len() && s.subrange(i, i + l.len()) == l
}

/// What reading `s` from position `i` up to the next unescaped quote
/// yields: the unescaped field value and the position after the closing
/// quote; nothing if the quote never comes or an escape is broken.
pub open spec fn scan(s: Seq<char>, i: int) -> Option<(Seq<char>, int)>
    decreases s.len() - i,
    when 0 <= i <= s.len()
{
    if i >= s.len() {
        None
    } else if s[i] == '"' {
        Some((Seq::empty(), i + 1))
    } else if s[i] == '\\' {
        if i + 1 < s.len() && (s[i + 1] == '"' || s[i + 1] == '\\') {
            match scan(s, i + 2) {
                Some(r) => Some((seq![s[i + 1]] + r.0, r.1)),
                None => None,
            }
        } else {
            None
        }
    } else {
        match scan(s, i + 1) {
            Some(r) => Some((seq![s[i]] + r.0, r.1)),
            None => None,
        }
    }
}

/// Escaping distributes over appending one character.
pub proof fn lemma_esc_snoc(s: Seq<char>, c: char)
    ensures
        esc(s.push(c)) == esc(s) + esc_char(c),
    decreases s.len(),
{
    if s.len() == 0 {
        assert(s.push(c)[0] == c);
        assert(s.push(c).drop_first() =~= Seq::<char>::empty());
        assert(esc(s.push(c)) == esc_char(c) + esc(Seq::<char>::empty()));
        assert(esc(s.push(c)) =~= esc_char(c));
        assert(esc(s) + esc_char(c) =~= esc_char(c));
    } else {
        lemma_esc_snoc(s.drop_first(), c);
        assert(s.push(c).drop_first() =~= s.drop_first().push(c));
        assert(esc_char(s[0]) + (esc(s.drop_first()) + esc_char(c)) =~= (esc_char(s[0]) + esc(
            s.drop_first(),
        )) + esc_char(c));
    }
}

/// Splitting a known subrange of `s` into its two halves.
pub proof fn lemma_split(s: Seq<char>, i: int, a: Seq<char>, b: Seq<char>)
    requires
        0 <= i,
        i + a.len() + b.len() <= s.len(),
        s.subrange(i, i + a.len() + b.len()) == a + b,
    ensures
        s.subrange(i, i + a.len()) == a,
        s.subrange(i + a.len(), i + a.len() + b.len()) == b,
{
    assert forall|t: int| 0 <= t < a.len() implies s.subrange(i, i + a.len())[t] == a[t] by {
        assert((a + b)[t] == a[t]);
        assert(s.subrange(i, i + a.len() + b.len())[t] == s[i + t]);
    };
    assert forall|t: int| 0 <= t < b.len() implies s.subrange(
        i + a.len(),
        i + a.len() + b.len(),
    )[t] == b[t] by {
        assert((a + b)[a.len() + t] == b[t]);
        assert(s.subrange(i, i + a.len() + b.len())[a.len() + t] == s[i + a.len() + t]);
    };
    assert(s.subrange(i, i + a.len()) =~= a);
    assert(s.subrange(i + a.len(), i + a.len() + b.len()) =~= b);
}

/// Reading at the start of an escaped field yields exactly the field's
/// value and stops right after its closing quote.
pub proof fn lemma_scan_fld(s: Seq<char>, i: int, v: Seq<char>)
    requires
        0 <= i,
        i + fld(v).len() <= s.len(),
        s.subrange(i, i + fld(v).len()) == fld(v),
    ensures
        scan(s, i) == Some((v, i + fld(v).len())),
    decreases v.len(),
{
    if v.len() == 0 {
        assert(esc(v) =~= Seq::<char>::empty());
        assert(fld(v) =~= seq!['"']);
        assert(s[i] == s.subrange(i, i + fld(v).len())[0]);
        assert(scan(s, i) == Some((Seq::<char>::empty(), i + 1)));
        assert(v =~= Seq::<char>::empty());
    } else {
        let c = v[0];
        let v2 = v.drop_first();
        assert(esc(v) == esc_char(c) + esc(v2));
        assert(fld(v) =~= esc_char(c) + fld(v2));
        lemma_split(s, i, esc_char(c), fld(v2));
        let i2 = i + esc_char(c).len();
        lemma_scan_fld(s, i2, v2);
        if c == '"' || c == '\\' {
            assert(s[i] == s.subrange(i, i + 2)[0]);
            assert(s[i + 1] == s.subrange(i, i + 2)[1]);
            assert(s[i] == '\\');
            assert(s[i + 1] == c);
            assert(scan(s, i) == Some((seq![c] + v2, i + fld(v).len())));
            assert(seq![c] + v2 =~= v);
        } else {
            assert(s[i] == s.subrange(i, i + 1)[0]);
            assert(s[i] == c);
            assert(scan(s, i) == Some((seq![c] + v2, i + fld(v).len())));
            assert(seq![c] + v2 =~= v);
        }
    }
}

/// Whatever a read yields was spelled in the payload as the escaped field
/// followed by its closing quote.
pub proof fn lemma_scan_sound(s: Seq<char>, i: int)
    requires
        0 <= i <= s.len(),
    ensures
        scan(s, i) matches Some(r) ==> {
            &&& i < r.1 <= s.len()
            &&& r.1 == i + fld(r.0).len()
            &&& s.subrange(i, r.1) == fld(r.0)
        },
    decreases s.len() - i,
{
    if i >= s.len() {
    } else if s[i] == '"' {
        match scan(s, i) {
            Some(r) => {
                assert(fld(r.0) =~= seq!['"']);
                assert(s.subrange(i, i + 1) =~= seq!['"']);
            },
            None => {},
        }
    } else if s[i] == '\\' {
        if i + 1 < s.len() && (s[i + 1] == '"' || s[i + 1] == '\\') {
            lemma_scan_sound(s, i + 2);
            match scan(s, i + 2) {
                Some(r2) => {
                    let v = seq![s[i + 1]] + r2.0;
                    assert(v.drop_first() =~= r2.0);
                    assert(esc(v) == esc_char(s[i + 1]) + esc(r2.0));
                    assert(fld(v) =~= seq!['\\', s[i + 1]] + fld(r2.0));
                    assert(s.subrange(i, r2.1) =~= seq!['\\', s[i + 1]] + s.subrange(i + 2, r2.1));
                },
                None => {},
            }
        }
    } else {
        lemma_scan_sound(s, i + 1);
        match scan(s, i + 1) {
            Some(r2) => {
                let v = seq![s[i]] + r2.0;
                assert(v.drop_first() =~= r2.0);
                assert(esc(v) == esc_char(s[i]) + esc(r2.0));
                assert(fld(v) =~= seq![s[i]] + fld(r2.0));
                assert(s.subrange(i, r2.1) =~= seq![s[i]] + s.subrange(i + 1, r2.1));
            },
            None => {},
        }
    }
}

/// Relies on `String::push`: appends exactly the one character.
#[verifier::external_body]
pub(crate) fn push_char(out: &mut String, c: char)
    ensures
        final(out)@ == old(out)@.push(c),
{
    out.push(c);
}

/// The characters of a string slice, in order.
pub(crate) fn str_chars(s: &str) -> (r: Vec<char>)
    ensures
        r@ == s@,
{
    let n = s.unicode_len();
    let mut r: Vec<char> = Vec::new();
    let mut k: usize = 0;
    while k < n
        invariant
            k <= n,
            n == s@.len(),
            r@ == s@.take(k as int),
        decreases n - k,
    {
        r.push(s.get_char(k));
        k = k + 1;
        proof {
            assert(r@ =~= s@.take(k as int));
        }
    }
    proof {
        assert(s@.take(n as int) =~= s@);
    }
    r
}

/// The string spelled by the given characters, in order.
pub(crate) fn chars_string(v: &Vec<char>) -> (r: String)
    ensures
        r@ == v@,
{
    let mut r = String::new();
    let n = v.len();
    let mut k: usize = 0;
    while k < n
        invariant
            k <= n,
            n == v@.len(),
            r@ == v@.take(k as int),
        decreases n - k,
    {
        push_char(&mut r, v[k]);
        k = k + 1;
        proof {
            assert(r@ =~= v@.take(k as int));
        }
    }
    proof {
        assert(v@.take(n as int) =~= v@);
    }
    r
}

/// Appends the escaped spelling of `v` to `out`.
pub(crate) fn append_esc(out: &mut String, v: &str)
    ensures
        final(out)@ == old(out)@ + esc(v@),
{
    let n = v.unicode_len();
    let mut k: usize = 0;
    while k < n
        invariant
            k <= n,
            n == v@.len(),
            out@ == old(out)@ + esc(v@.take(k as int)),
        decreases n - k,
    {
        let c = v.get_char(k);
        if c == '"' || c == '\\' {
            push_char(out, '\\');
        }
        push_char(out, c);
        proof {
            lemma_esc_snoc(v@.take(k as int), c);
            assert(v@.take(k + 1) =~= v@.take(k as int).push(c));
            assert((old(out)@ + esc(v@.take(k as int))) + esc_char(c) =~= old(out)@ + (esc(
                v@.take(k as int),
            ) + esc_char(c)));
        }
        k = k + 1;
    }
    proof {
        assert(v@.take(n as int) =~= v@);
    }
}

/// Whether the literal `l` stands at position `i` of `s`, and the position
/// just after it if it does.
pub(crate) fn expect_lit(s: &Vec<char>, i: usize, l: &str) -> (r: Option<usize>)
    requires
        i <= s@.len(),
    ensures
        r matches Some(j) ==> lit_at(s@, i as int, l@) && j == i + l@.len(),
        r is None ==> !lit_at(s@, i as int, l@),
{
    let n = l.unicode_len();
    let m = s.len();
    if n > m - i {
        return None;
    }
    let mut k: usize = 0;
    while k < n
        invariant
            k <= n,
            n == l@.len(),
            m == s@.len(),
            i + n <= m,
            forall|t: int| 0 <= t < k ==> s@[i + t] == l@[t],
        decreases n - k,
    {
        if s[i + k] != l.get_char(k) {
            proof {
                if lit_at(s@, i as int, l@) {
                    assert(s@.subrange(i as int, i + l@.len())[k as int] == l@[k as int]);
                }
            }
            return None;
        }
        k = k + 1;
    }
    proof {
        assert(s@.subrange(i as int, i + l@.len()) =~= l@);
    }
    Some(i + n)
}

/// Reads one escaped field value from position `i` up to its closing
/// quote, as `scan` describes.
pub(crate) fn scan_chars(s: &Vec<char>, i: usize) -> (r: Option<(Vec<char>, usize)>)
    requires
        i <= s@.len(),
    ensures
        r matches Some(p) ==> scan(s@, i as int) == Some((p.0@, p.1 as int)) && i < p.1 <= s@.len(),
        r is None ==> scan(s@, i as int) is None,
    decreases s@.len() - i,
{
    if i >= s.len() {
        return None;
    }
    let c = s[i];
    if c == '"' {
        let v: Vec<char> = Vec::new();
        proof {
            assert(v@ =~= Seq::<char>::empty());
        }
        return Some((v, i + 1));
    }
    if c == '\\' {
        if i + 1 < s.len() && (s[i + 1] == '"' || s[i + 1] == '\\') {
            match scan_chars(s, i + 2) {
                Some(p) => {
                    let (mut v, j) = p;
                    let ghost tail = v@;
                    v.insert(0, s[i + 1]);
                    proof {
                        assert(v@ =~= seq![s@[i + 1]] + tail);
                    }
                    Some((v, j))
                },
                None => None,
            }
        } else {
            None
        }
    } else {
        match scan_chars(s, i + 1) {
            Some(p) => {
                let (mut v, j) = p;
                let ghost tail = v@;
                v.insert(0, c);
                proof {
                    assert(v@ =~= seq![s@[i as int]] + tail);
                }
                Some((v, j))
            },
            None => None,
        }
    }
}

} // verus!
