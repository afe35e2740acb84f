//! Canonical, filesystem-safe keys for basis-set names.
//!
//! A raw basis-set name may carry inconsistent capitalization and the
//! characters `/` (pairing with an auxiliary basis) and `*` (legacy
//! polarization shorthand), both illegal in a file-system path component.
//! Normalization first lowercases the whole name — Unicode-wide, through
//! `str::to_lowercase`, whose result is named `lower_of`; on an all-ASCII
//! name the same mapping is written out character by character — and then
//! remaps `/` to `_sl_` and `*` to `_st_`; every other character passes
//! through unchanged.

use vstd::prelude::*;
use vstd::string::*;
use vstd::utf8::is_ascii_chars;

verus! {

/// Lowercases a single character of the ASCII range; only the letters
/// `A`..`Z` change.
pub open spec fn lower_char(c: char) -> char {
    if 65 <= c as u32 && c as u32 <= 90 {
        (((c as u32) + 32) as u8) as char
    } else {
        c
    }
}

/// An ASCII name with its characters lowercased.
pub open spec fn ascii_lowered(s: Seq<char>) -> Seq<char> {
    s.map_values(|c: char| lower_char(c))
}

/// The Unicode lowercase mapping of a whole string, as computed by
/// `str::to_lowercase`: a function of the characters alone, far too wide
/// to write out, so it is named and never interpreted.
pub uninterp spec fn lower_of(s: Seq<char>) -> Seq<char>;

/// The lowercase form of a raw name: the ASCII case map, written out,
/// where the name is all ASCII; the named Unicode mapping beyond that.
/// The two agree on ASCII input, so the split only keeps the common case
/// fully interpreted.
pub open spec fn lower_seq(s: Seq<char>) -> Seq<char> {
    if is_ascii_chars(s) {
        ascii_lowered(s)
    } else {
        lower_of(s)
    }
}

/// What one lowercased character contributes to the canonical key.
pub open spec fn replace_char(c: char) -> Seq<char> {
    if c == '/' {
        seq!['_', 's', 'l', '_']
    } else if c == '*' {
        seq!['_', 's', 't', '_']
    } else {
        seq![c]
    }
}

/// The token remapping over a whole lowercased name, in order.
pub open spec fn replace_spec(s: Seq<char>) -> Seq<char>
    decreases s.len(),
{
    if s.len() == 0 {
        Seq::<char>::empty()
    } else {
        replace_char(s[0]) + replace_spec(s.drop_first())
    }
}

/// The canonical key of a raw name: lowercase it, then remap `/` and `*`.
pub open spec fn normalize_spec(s: Seq<char>) -> Seq<char> {
    replace_spec(lower_seq(s))
}

/// A character a canonical key may hold: never `/`, `*` or an ASCII
/// uppercase letter, so the key is safe in a path component.
pub open spec fn is_key_char(c: char) -> bool {
    c != '/' && c != '*' && !(65 <= c as u32 && c as u32 <= 90)
}

proof fn lemma_replace_snoc(s: Seq<char>, c: char)
    ensures
        replace_spec(s.push(c)) == replace_spec(s) + replace_char(c),
    decreases s.len(),
{
    if s.len() == 0 {
        assert(s.push(c)[0] == c);
        assert(s.push(c).drop_first() =~= Seq::<char>::empty());
        assert(replace_spec(Seq::<char>::empty()) =~= Seq::<char>::empty());
        assert(replace_spec(s.push(c)) == replace_char(c) + replace_spec(Seq::<char>::empty()));
        assert(replace_spec(s.push(c)) =~= replace_spec(s) + replace_char(c));
    } else {
        let t = s.drop_first();
        assert(s.push(c)[0] == s[0]);
        assert(s.push(c).drop_first() =~= t.push(c));
        lemma_replace_snoc(t, c);
        assert(replace_spec(s.push(c)) == replace_char(s[0]) + (replace_spec(t) + replace_char(c)));
        assert(replace_char(s[0]) + (replace_spec(t) + replace_char(c)) =~= (replace_char(s[0])
            + replace_spec(t)) + replace_char(c));
    }
}

/// A character a remapping may pass through unchanged: anything but the
/// two remapped characters.
pub open spec fn is_passed_char(c: char) -> bool {
    c != '/' && c != '*'
}

/// Every character of a remapped sequence is a token character or a
/// passed-through character of the input.
proof fn lemma_replace_chars(s: Seq<char>)
    ensures
        forall|k: int|
            0 <= k < replace_spec(s).len() ==> (replace_spec(s)[k] == '_' || replace_spec(s)[k]
                == 's' || replace_spec(s)[k] == 'l' || replace_spec(s)[k] == 't' || exists|i: int|
                0 <= i < s.len() && replace_spec(s)[k] == s[i] && is_passed_char(s[i])),
    decreases s.len(),
{
    if s.len() > 0 {
        lemma_replace_chars(s.drop_first());
        assert forall|k: int|
            0 <= k < replace_spec(s).len() implies (replace_spec(s)[k] == '_' || replace_spec(
            s,
        )[k] == 's' || replace_spec(s)[k] == 'l' || replace_spec(s)[k] == 't' || exists|i: int|
            0 <= i < s.len() && replace_spec(s)[k] == s[i] && is_passed_char(s[i])) by {
            assert(replace_spec(s) == replace_char(s[0]) + replace_spec(s.drop_first()));
            if k < replace_char(s[0]).len() {
                assert(replace_spec(s)[k] == replace_char(s[0])[k]);
                if s[0] != '/' && s[0] != '*' {
                    assert(replace_spec(s)[k] == s[0] && is_passed_char(s[0]));
                }
            } else {
                let k2 = k - replace_char(s[0]).len();
                assert(replace_spec(s)[k] == replace_spec(s.drop_first())[k2]);
                if !(replace_spec(s)[k] == '_' || replace_spec(s)[k] == 's' || replace_spec(s)[k]
                    == 'l' || replace_spec(s)[k] == 't') {
                    let i = choose|i: int|
                        0 <= i < s.drop_first().len() && replace_spec(s.drop_first())[k2]
                            == s.drop_first()[i] && is_passed_char(s.drop_first()[i]);
                    assert(replace_spec(s)[k] == s[i + 1] && is_passed_char(s[i + 1]));
                }
            }
        }
    }
}

/// A sequence of key characters is left unchanged by the remapping.
proof fn lemma_replace_id(s: Seq<char>)
    requires
        forall|k: int| 0 <= k < s.len() ==> is_key_char(s[k]),
    ensures
        replace_spec(s) == s,
    decreases s.len(),
{
    if s.len() == 0 {
        assert(replace_spec(s) =~= s);
    } else {
        assert(is_key_char(s[0]));
        lemma_replace_id(s.drop_first());
        assert(replace_spec(s) =~= seq![s[0]] + s.drop_first());
        assert(seq![s[0]] + s.drop_first() =~= s);
    }
}

/// Every character of the canonical key of an ASCII name is an ASCII key
/// character.
proof fn lemma_normalize_ascii_canonical(s: Seq<char>)
    requires
        is_ascii_chars(s),
    ensures
        forall|k: int|
            0 <= k < normalize_spec(s).len() ==> is_key_char(#[trigger] normalize_spec(s)[k])
                && '\0' <= normalize_spec(s)[k] <= '\u{7f}',
{
    let low = ascii_lowered(s);
    assert(lower_seq(s) == low);
    lemma_replace_chars(low);
    assert forall|k: int|
        0 <= k < normalize_spec(s).len() implies is_key_char(#[trigger] normalize_spec(s)[k])
        && '\0' <= normalize_spec(s)[k] <= '\u{7f}' by {
        let c = normalize_spec(s)[k];
        if c == '_' || c == 's' || c == 'l' || c == 't' {
        } else {
            let i = choose|i: int|
                0 <= i < low.len() && replace_spec(low)[k] == low[i] && is_passed_char(low[i]);
            assert(low[i] == lower_char(s[i]));
            assert('\0' <= s[i] <= '\u{7f}');
        }
    }
}

/// Normalization is idempotent on ASCII names: a canonical key built
/// from one normalizes to itself. Beyond ASCII the Unicode case mapping
/// is only named, never interpreted, so nothing of a second pass can be
/// pinned there.
pub proof fn lemma_normalize_idempotent(s: Seq<char>)
    requires
        is_ascii_chars(s),
    ensures
        normalize_spec(normalize_spec(s)) == normalize_spec(s),
{
    let out = normalize_spec(s);
    lemma_normalize_ascii_canonical(s);
    assert(is_ascii_chars(out));
    assert(lower_seq(out) == ascii_lowered(out));
    assert(ascii_lowered(out) =~= out);
    lemma_replace_id(out);
}

/// Canonical keys are insensitive to the case of an ASCII name: the name
/// and its lowercased spelling normalize to the same key.
pub proof fn lemma_normalize_case_insensitive(s: Seq<char>)
    requires
        is_ascii_chars(s),
    ensures
        normalize_spec(ascii_lowered(s)) == normalize_spec(s),
{
    let m = ascii_lowered(s);
    assert forall|k: int| 0 <= k < m.len() implies '\0' <= #[trigger] m[k] <= '\u{7f}' by {
        assert(m[k] == lower_char(s[k]));
    }
    assert(is_ascii_chars(m));
    assert(ascii_lowered(m) =~= m) by {
        assert forall|k: int| 0 <= k < m.len() implies ascii_lowered(m)[k] == m[k] by {
            assert(m[k] == lower_char(s[k]));
            assert(ascii_lowered(m)[k] == lower_char(lower_char(s[k])));
        }
    }
    assert(lower_seq(m) == ascii_lowered(m));
    assert(lower_seq(s) == ascii_lowered(s));
}

/// Relies on `str::to_lowercase`: the result is the Unicode lowercase
/// equivalent of the input, a function of the characters alone, here
/// named `lower_of`. Per its documentation the lowercase equivalent of
/// an empty string is empty, and being lowercase it holds no ASCII
/// uppercase letter.
#[verifier::external_body]
fn lowercase(s: &str) -> (r: String)
    ensures
        r@ == lower_of(s@),
        s@.len() == 0 ==> r@.len() == 0,
        forall|k: int| 0 <= k < r@.len() ==> !(65 <= #[trigger] r@[k] as u32 <= 90),
{
    s.to_lowercase()
}

/// Relies on `String::push`: appends the one character to the string.
#[verifier::external_body]
fn push_char(s: &mut String, c: char)
    ensures
        final(s)@ == old(s)@ + seq![c],
{
    s.push(c)
}

/// Remaps `/` to `_sl_` and `*` to `_st_` in an already-lowercased name.
fn replace_tokens(low: &str) -> (r: String)
    ensures
        r@ == replace_spec(low@),
{
    let n = low.unicode_len();
    let mut out = String::new();
    let mut i: usize = 0;
    while i < n
        invariant
            n == low@.len(),
            i <= n,
            out@ == replace_spec(low@.take(i as int)),
        decreases n - i,
    {
        let c = low.get_char(i);
        proof {
            assert(low@.take(i as int).push(c) =~= low@.take(i + 1 as int));
            lemma_replace_snoc(low@.take(i as int), c);
        }
        if c == '/' {
            out.append("_sl_");
            proof {
                reveal_strlit("_sl_");
                assert(replace_char(c) =~= "_sl_"@);
            }
        } else if c == '*' {
            out.append("_st_");
            proof {
                reveal_strlit("_st_");
                assert(replace_char(c) =~= "_st_"@);
            }
        } else {
            push_char(&mut out, c);
            assert(out@ =~= replace_spec(low@.take(i + 1 as int)));
        }
        i = i + 1;
    }
    proof {
        assert(low@.take(n as int) =~= low@);
    }
    out
}

/// Maps a raw basis-set name to its canonical, filesystem-safe key:
/// lowercase the whole name, then remap `/` and `*`. The key never holds
/// `/`, `*` or an ASCII uppercase letter.
pub fn normalize(name: &str) -> (r: String)
    ensures
        r@ == normalize_spec(name@),
        forall|k: int| 0 <= k < r@.len() ==> is_key_char(#[trigger] r@[k]),
        is_ascii_chars(name@) ==> is_ascii_chars(r@),
{
    if name.is_ascii() {
        let n = name.unicode_len();
        let mut out = String::new();
        let mut i: usize = 0;
        while i < n
            invariant
                is_ascii_chars(name@),
                n == name@.len(),
                i <= n,
                out@ == replace_spec(ascii_lowered(name@.take(i as int))),
            decreases n - i,
        {
            let c = name.get_char(i);
            proof {
                assert('\0' <= c <= '\u{7f}');
                assert(ascii_lowered(name@.take(i + 1 as int)) =~= ascii_lowered(
                    name@.take(i as int),
                ).push(lower_char(c)));
                lemma_replace_snoc(ascii_lowered(name@.take(i as int)), lower_char(c));
            }
            if c == '/' {
                out.append("_sl_");
                proof {
                    reveal_strlit("_sl_");
                    assert(replace_char(lower_char(c)) =~= "_sl_"@);
                }
            } else if c == '*' {
                out.append("_st_");
                proof {
                    reveal_strlit("_st_");
                    assert(replace_char(lower_char(c)) =~= "_st_"@);
                }
            } else {
                let u = c as u32;
                if 65 <= u && u <= 90 {
                    let b: u8 = (u as u8) + 32;
                    push_char(&mut out, b as char);
                } else {
                    push_char(&mut out, c);
                }
                proof {
                    assert(out@ =~= replace_spec(ascii_lowered(name@.take(i + 1 as int))));
                }
            }
            i = i + 1;
        }
        proof {
            assert(name@.take(n as int) =~= name@);
            assert(lower_seq(name@) == ascii_lowered(name@));
            lemma_normalize_ascii_canonical(name@);
        }
        out
    } else {
        let low = lowercase(name);
        let out = replace_tokens(low.as_str());
        proof {
            assert(!is_ascii_chars(name@));
            assert(lower_seq(name@) == lower_of(name@));
            lemma_replace_chars(low@);
            assert forall|k: int| 0 <= k < out@.len() implies is_key_char(#[trigger] out@[k]) by {
                let c = out@[k];
                if c == '_' || c == 's' || c == 'l' || c == 't' {
                } else {
                    let i = choose|i: int|
                        0 <= i < low@.len() && replace_spec(low@)[k] == low@[i] && is_passed_char(
                            low@[i],
                        );
                    assert(!(65 <= low@[i] as u32 <= 90));
                }
            }
        }
        out
    }
}

} // verus!
