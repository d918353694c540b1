//! Anchor identifiers derived from display text.
use vstd::prelude::*;

verus! {

/// The separator that stands for every run of characters that are not kept.
pub const SEP: char = '-';

/// What `deunicode::deunicode_char` returns for a character.
pub uninterp spec fn transliteration(c: char) -> Option<Seq<char>>;

/// Relies on `deunicode::deunicode_char`: the ASCII approximation of one
/// character, or `None` where the crate knows none.
#[verifier::external_body]
fn transliterate(c: char) -> (r: Option<&'static str>)
    ensures
        r.is_some() == transliteration(c).is_some(),
        r.is_some() ==> r.unwrap()@ == transliteration(c).unwrap(),
{
    deunicode::deunicode_char(c)
}

/// Relies on `String::push`: appends one character at the end.
#[verifier::external_body]
pub(crate) fn push_char(s: &mut String, c: char)
    ensures
        final(s)@ == old(s)@.push(c),
{
    s.push(c)
}

pub open spec fn is_ascii_char(c: char) -> bool {
    (c as u32) < 128
}

/// Letters and digits are kept; everything else separates.
pub open spec fn is_kept(c: char) -> bool {
    ('0' <= c && c <= '9') || ('a' <= c && c <= 'z') || ('A' <= c && c <= 'Z')
}

pub open spec fn lower(c: char) -> char {
    if 'A' <= c && c <= 'Z' {
        ((c as u32) + 32) as char
    } else {
        c
    }
}

/// The characters that one input character contributes: an ASCII character
/// itself, any other its transliteration, or a separator where it has none.
pub open spec fn expansion(c: char) -> Seq<char> {
    if is_ascii_char(c) {
        seq![c]
    } else {
        match transliteration(c) {
            Some(t) => t,
            None => seq![SEP],
        }
    }
}

pub open spec fn expand(s: Seq<char>) -> Seq<char>
    decreases s.len(),
{
    if s.len() == 0 {
        Seq::empty()
    } else {
        expand(s.drop_last()) + expansion(s.last())
    }
}

/// One step of the scan over the expanded text. The state is the slug so far
/// and whether a separator is owed before the next kept character: a
/// separator is only written between two kept characters, so none leads,
/// none trails and none follows another.
pub open spec fn slug_step(st: (Seq<char>, bool), c: char) -> (Seq<char>, bool) {
    if is_kept(c) {
        if st.1 && st.0.len() > 0 {
            (st.0 + seq![SEP, lower(c)], false)
        } else {
            (st.0.push(lower(c)), false)
        }
    } else {
        (st.0, true)
    }
}

pub open spec fn slug_scan(e: Seq<char>) -> (Seq<char>, bool)
    decreases e.len(),
{
    if e.len() == 0 {
        (Seq::empty(), false)
    } else {
        slug_step(slug_scan(e.drop_last()), e.last())
    }
}

/// The slug of a text.
pub open spec fn slug_of(s: Seq<char>) -> Seq<char> {
    slug_scan(expand(s)).0
}

pub open spec fn is_slug_char(c: char) -> bool {
    ('0' <= c && c <= '9') || ('a' <= c && c <= 'z') || c == SEP
}

/// Lower-case letters, digits and single separators between them.
pub open spec fn is_slug(t: Seq<char>) -> bool {
    &&& forall|i: int| 0 <= i < t.len() ==> is_slug_char(#[trigger] t[i])
    &&& t.len() > 0 ==> t[0] != SEP && t.last() != SEP
    &&& forall|i: int| 0 <= i < t.len() - 1 ==> !(#[trigger] t[i] == SEP && t[i + 1] == SEP)
}

proof fn lemma_scan_push(e: Seq<char>, c: char)
    ensures
        slug_scan(e.push(c)) == slug_step(slug_scan(e), c),
{
    assert(e.push(c).drop_last() =~= e);
}

proof fn lemma_expand_prefix(s: Seq<char>, i: int)
    requires
        0 <= i < s.len(),
    ensures
        expand(s.subrange(0, i + 1)) == expand(s.subrange(0, i)) + expansion(s[i]),
{
    assert(s.subrange(0, i + 1).drop_last() =~= s.subrange(0, i));
}

proof fn lemma_scan_is_slug(e: Seq<char>)
    ensures
        is_slug(slug_scan(e).0),
    decreases e.len(),
{
    if e.len() > 0 {
        lemma_scan_is_slug(e.drop_last());
        let st = slug_scan(e.drop_last());
        let c = e.last();
        if is_kept(c) {
            let t = slug_step(st, c).0;
            assert(is_slug_char(lower(c)));
            if st.1 && st.0.len() > 0 {
                assert(t =~= st.0 + seq![SEP, lower(c)]);
                assert forall|i: int| 0 <= i < t.len() implies is_slug_char(#[trigger] t[i]) by {
                    if i < st.0.len() {
                        assert(t[i] == st.0[i]);
                    }
                }
                assert forall|i: int| 0 <= i < t.len() - 1 implies !(#[trigger] t[i] == SEP && t[i
                    + 1] == SEP) by {
                    if i < st.0.len() - 1 {
                        assert(t[i] == st.0[i] && t[i + 1] == st.0[i + 1]);
                    }
                }
            } else {
                assert(t =~= st.0.push(lower(c)));
                assert forall|i: int| 0 <= i < t.len() implies is_slug_char(#[trigger] t[i]) by {
                    if i < st.0.len() {
                        assert(t[i] == st.0[i]);
                    }
                }
                assert forall|i: int| 0 <= i < t.len() - 1 implies !(#[trigger] t[i] == SEP && t[i
                    + 1] == SEP) by {
                    if i < st.0.len() - 1 {
                        assert(t[i] == st.0[i] && t[i + 1] == st.0[i + 1]);
                    }
                }
            }
        }
    }
}

/// A slug never begins or ends with the separator, never holds two separators
/// in a row, and holds only lower-case ASCII letters, digits and separators.
pub proof fn lemma_slug_shape(s: Seq<char>)
    ensures
        is_slug(slug_of(s)),
{
    lemma_scan_is_slug(expand(s));
}

proof fn lemma_expand_ascii(t: Seq<char>)
    requires
        forall|i: int| 0 <= i < t.len() ==> is_ascii_char(#[trigger] t[i]),
    ensures
        expand(t) == t,
    decreases t.len(),
{
    if t.len() > 0 {
        lemma_expand_ascii(t.drop_last());
        assert(expand(t) =~= t.drop_last() + seq![t.last()]);
        assert(t =~= t.drop_last() + seq![t.last()]);
    }
}

/// Scanning the first `k` characters of a slug gives them back, with a
/// separator that ends them held as owed.
proof fn lemma_scan_slug_prefix(t: Seq<char>, k: int)
    requires
        is_slug(t),
        0 <= k <= t.len(),
    ensures
        k > 0 && t[k - 1] == SEP ==> slug_scan(t.subrange(0, k)) == (t.subrange(0, k - 1), true),
        !(k > 0 && t[k - 1] == SEP) ==> slug_scan(t.subrange(0, k)) == (t.subrange(0, k), false),
    decreases k,
{
    if k > 0 {
        lemma_scan_slug_prefix(t, k - 1);
        let c = t[k - 1];
        assert(t.subrange(0, k).drop_last() =~= t.subrange(0, k - 1));
        if c != SEP {
            assert(is_slug_char(c));
            if k >= 2 && t[k - 2] == SEP {
                assert(t.subrange(0, k - 2) + seq![SEP, lower(c)] =~= t.subrange(0, k));
            } else {
                assert(t.subrange(0, k - 1).push(lower(c)) =~= t.subrange(0, k));
            }
        } else {
            assert(k >= 2);
            assert(t[k - 2] != SEP);
        }
    }
}

/// A slug is its own slug, so slugifying twice changes nothing.
pub proof fn lemma_slug_idempotent(s: Seq<char>)
    ensures
        slug_of(slug_of(s)) == slug_of(s),
{
    let t = slug_of(s);
    lemma_slug_shape(s);
    assert forall|i: int| 0 <= i < t.len() implies is_ascii_char(#[trigger] t[i]) by {
        assert(is_slug_char(t[i]));
    }
    lemma_expand_ascii(t);
    lemma_scan_slug_prefix(t, t.len() as int);
    assert(t.subrange(0, t.len() as int) =~= t);
}

fn is_ascii_exec(c: char) -> (r: bool)
    ensures
        r == is_ascii_char(c),
{
    (c as u32) < 128
}

/// Feeds one expanded character into the scan.
fn feed(out: &mut String, pending: &mut bool, c: char)
    ensures
        (final(out)@, *final(pending)) == slug_step((old(out)@, *old(pending)), c),
{
    let kept = ('0' <= c && c <= '9') || ('a' <= c && c <= 'z') || ('A' <= c && c <= 'Z');
    if kept {
        let l = if 'A' <= c && c <= 'Z' {
            (((c as u8) - 65u8) + 97u8) as char
        } else {
            c
        };
        if *pending && out.unicode_len() > 0 {
            push_char(out, SEP);
            push_char(out, l);
            assert(out@ =~= old(out)@ + seq![SEP, lower(c)]);
        } else {
            push_char(out, l);
        }
        *pending = false;
    } else {
        *pending = true;
    }
}

/// Derives an anchor identifier from `s`: ASCII letters lower-cased, digits
/// kept, other characters transliterated to ASCII first, and each run of
/// anything else turned into a single `-` between the kept characters.
pub fn slugify(s: &str) -> (r: String)
    ensures
        r@ == slug_of(s@),
{
    let mut out = String::new();
    let mut pending = false;
    let n = s.unicode_len();
    let mut i: usize = 0;
    assert(s@.subrange(0, 0) =~= Seq::<char>::empty());
    while i < n
        invariant
            n == s@.len(),
            i <= n,
            (out@, pending) == slug_scan(expand(s@.subrange(0, i as int))),
        decreases n - i,
    {
        let c = s.get_char(i);
        proof {
            lemma_expand_prefix(s@, i as int);
        }
        let ghost before = expand(s@.subrange(0, i as int));
        if is_ascii_exec(c) {
            proof {
                lemma_scan_push(before, c);
                assert(before + seq![c] =~= before.push(c));
            }
            feed(&mut out, &mut pending, c);
        } else {
            match transliterate(c) {
                Some(t) => {
                    let m = t.unicode_len();
                    let mut j: usize = 0;
                    assert(before + t@.subrange(0, 0) =~= before);
                    while j < m
                        invariant
                            m == t@.len(),
                            j <= m,
                            (out@, pending) == slug_scan(before + t@.subrange(0, j as int)),
                        decreases m - j,
                    {
                        let x = t.get_char(j);
                        proof {
                            lemma_scan_push(before + t@.subrange(0, j as int), x);
                            assert((before + t@.subrange(0, j as int)).push(x) =~= before
                                + t@.subrange(0, j + 1));
                        }
                        feed(&mut out, &mut pending, x);
                        j = j + 1;
                    }
                    assert(t@.subrange(0, m as int) =~= t@);
                },
                None => {
                    proof {
                        lemma_scan_push(before, SEP);
                        assert(before + seq![SEP] =~= before.push(SEP));
                    }
                    feed(&mut out, &mut pending, SEP);
                },
            }
        }
        i = i + 1;
    }
    assert(s@.subrange(0, n as int) =~= s@);
    out
}

} // verus!
