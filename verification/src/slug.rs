//! Slug derivation: turns an arbitrary title into an identifier-safe token by
//! ASCII-lowercasing it and collapsing every maximal run of non-word
//! characters (word = ASCII letter, digit, underscore) into a single hyphen.

use crate::push_char;
use vstd::prelude::*;

verus! {

/// A word character: ASCII letter, digit or underscore.
pub open spec fn is_word_char(c: char) -> bool {
    ('a' as u32 <= c as u32 && c as u32 <= 'z' as u32)
        || ('A' as u32 <= c as u32 && c as u32 <= 'Z' as u32)
        || ('0' as u32 <= c as u32 && c as u32 <= '9' as u32)
        || c == '_'
}

/// ASCII case folding of a single character; anything outside `A`..`Z` is kept.
pub open spec fn lower_char(c: char) -> char {
    if 'A' as u32 <= c as u32 && c as u32 <= 'Z' as u32 {
        ((c as u32 + 32) as u8) as char
    } else {
        c
    }
}

/// The slug of the suffix of `s` that starts at `i`: word characters are
/// lowercased and kept; a maximal run of non-word characters contributes one
/// hyphen, emitted at the last character of the run.
pub open spec fn slug_from(s: Seq<char>, i: int) -> Seq<char>
    decreases s.len() - i,
{
    if i < 0 || i >= s.len() {
        Seq::empty()
    } else if is_word_char(s[i]) {
        seq![lower_char(s[i])] + slug_from(s, i + 1)
    } else if i + 1 == s.len() || is_word_char(s[i + 1]) {
        seq!['-'] + slug_from(s, i + 1)
    } else {
        slug_from(s, i + 1)
    }
}

/// The slug of a whole title.
pub open spec fn slug_chars(s: Seq<char>) -> Seq<char> {
    slug_from(s, 0)
}

/// What slug output looks like: only lowercase word characters and hyphens,
/// and never two hyphens in a row.
pub open spec fn canonical(t: Seq<char>) -> bool {
    forall|i: int|
        0 <= i < t.len() ==> ((is_word_char(t[i]) && lower_char(t[i]) == t[i]) || (t[i] == '-' && (
        i + 1 == t.len() || t[i + 1] != '-')))
}

/// Case folding keeps word characters word characters and is idempotent.
proof fn lemma_lower_word(c: char)
    requires
        is_word_char(c),
    ensures
        is_word_char(lower_char(c)),
        lower_char(lower_char(c)) == lower_char(c),
        lower_char(c) != '-',
{
    if 'A' as u32 <= c as u32 && c as u32 <= 'Z' as u32 {
        assert(lower_char(c) as u32 == c as u32 + 32);
    }
}

/// Every slug is canonical: each maximal non-word run contributes a single
/// hyphen, separated from the next by at least one folded word character.
proof fn lemma_slug_canonical(s: Seq<char>, i: int)
    ensures
        canonical(slug_from(s, i)),
    decreases s.len() - i,
{
    if i < 0 || i >= s.len() {
    } else {
        lemma_slug_canonical(s, i + 1);
        let rest = slug_from(s, i + 1);
        if is_word_char(s[i]) {
            lemma_lower_word(s[i]);
            let t = seq![lower_char(s[i])] + rest;
            assert forall|j: int| 0 <= j < t.len() implies ((is_word_char(t[j]) && lower_char(t[j])
                == t[j]) || (t[j] == '-' && (j + 1 == t.len() || t[j + 1] != '-'))) by {
                if j > 0 {
                    assert(t[j] == rest[j - 1]);
                    if j + 1 < t.len() {
                        assert(t[j + 1] == rest[j]);
                    }
                }
            }
        } else if i + 1 == s.len() || is_word_char(s[i + 1]) {
            let t = seq!['-'] + rest;
            if i + 1 < s.len() {
                lemma_lower_word(s[i + 1]);
                assert(rest == seq![lower_char(s[i + 1])] + slug_from(s, i + 2));
                assert(rest[0] == lower_char(s[i + 1]));
            }
            assert forall|j: int| 0 <= j < t.len() implies ((is_word_char(t[j]) && lower_char(t[j])
                == t[j]) || (t[j] == '-' && (j + 1 == t.len() || t[j + 1] != '-'))) by {
                if j > 0 {
                    assert(t[j] == rest[j - 1]);
                    if j + 1 < t.len() {
                        assert(t[j + 1] == rest[j]);
                    }
                } else {
                    if t.len() > 1 {
                        assert(t[1] == rest[0]);
                    }
                }
            }
        }
    }
}

/// A canonical text is a fixed point of slugging, suffix by suffix.
proof fn lemma_slug_fixed(t: Seq<char>, i: int)
    requires
        canonical(t),
        0 <= i <= t.len(),
    ensures
        slug_from(t, i) == t.subrange(i, t.len() as int),
    decreases t.len() - i,
{
    if i == t.len() {
        assert(t.subrange(i, t.len() as int) =~= Seq::<char>::empty());
    } else {
        lemma_slug_fixed(t, i + 1);
        if is_word_char(t[i]) {
            assert(seq![lower_char(t[i])] + t.subrange(i + 1, t.len() as int) =~= t.subrange(
                i,
                t.len() as int,
            ));
        } else {
            assert(t[i] == '-');
            assert(i + 1 == t.len() || is_word_char(t[i + 1]));
            assert(seq!['-'] + t.subrange(i + 1, t.len() as int) =~= t.subrange(
                i,
                t.len() as int,
            ));
        }
    }
}

/// Slugging is idempotent: the slug of a slug is that slug, for every
/// title.
pub proof fn lemma_slug_idempotent(s: Seq<char>)
    ensures
        slug_chars(slug_chars(s)) == slug_chars(s),
{
    lemma_slug_canonical(s, 0);
    lemma_slug_fixed(slug_chars(s), 0);
    assert(slug_chars(s).subrange(0, slug_chars(s).len() as int) =~= slug_chars(s));
}

fn word_char(c: char) -> (r: bool)
    ensures
        r == is_word_char(c),
{
    let u = c as u32;
    ('a' as u32 <= u && u <= 'z' as u32) || ('A' as u32 <= u && u <= 'Z' as u32) || ('0' as u32
        <= u && u <= '9' as u32) || c == '_'
}

fn to_lower(c: char) -> (r: char)
    ensures
        r == lower_char(c),
{
    let u = c as u32;
    if 'A' as u32 <= u && u <= 'Z' as u32 {
        ((c as u8) + 32) as char
    } else {
        c
    }
}

/// Derive the slug of a title: lowercase it (ASCII folding only) and replace
/// every maximal run of non-word characters with a single hyphen. Total: an
/// empty or all-punctuation title yields an empty or all-hyphen slug.
pub fn slug(title: &str) -> (r: String)
    ensures
        r@ == slug_chars(title@),
{
    let n = title.unicode_len();
    let mut out = String::new();
    let mut i: usize = 0;
    while i < n
        invariant
            n == title@.len(),
            i <= n,
            out@ + slug_from(title@, i as int) == slug_chars(title@),
        decreases n - i,
    {
        let c = title.get_char(i);
        let ghost prev = out@;
        if word_char(c) {
            push_char(&mut out, to_lower(c));
            proof {
                assert(slug_from(title@, i as int) == seq![lower_char(title@[i as int])]
                    + slug_from(title@, i + 1));
                assert(out@ + slug_from(title@, i + 1) =~= prev + slug_from(title@, i as int));
            }
        } else {
            let emit = if i + 1 == n {
                true
            } else {
                word_char(title.get_char(i + 1))
            };
            if emit {
                push_char(&mut out, '-');
                proof {
                    assert(slug_from(title@, i as int) == seq!['-'] + slug_from(title@, i + 1));
                    assert(out@ + slug_from(title@, i + 1) =~= prev + slug_from(title@, i as int));
                }
            } else {
                proof {
                    assert(slug_from(title@, i as int) == slug_from(title@, i + 1));
                }
            }
        }
        i = i + 1;
    }
    proof {
        assert(slug_from(title@, n as int) == Seq::<char>::empty());
        assert(out@ + Seq::<char>::empty() =~= out@);
    }
    out
}

} // verus!
