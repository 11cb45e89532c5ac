//! Text rules of the trading records: ticker symbol lists and watch-list
//! symbols, comma-separated settings, slugs and strategy ids, and the masked
//! display form of API keys.
use vstd::prelude::*;
use crate::routes::AppError;
use crate::text::{
    ascii_alphanumeric, ascii_lower_of, ascii_lowercase, chars_of, compare_chars, is_ascii_alphanumeric,
    ascii_upper_of, is_ascii_digit, is_ascii_lower, is_ascii_text, is_ascii_upper, is_lower_hex_digit,
    lemma_seq_lt_total, lemma_seq_lt_transitive, push_char, seq_lt, string_from_chars, string_of,
};
use vstd::utf8::{encode_utf8, is_char_boundary};
use vstd::string::StringSliceAdditionalSpecFns;

verus! {

// ------------------------------------------------------------------
// Symbol lists
// ------------------------------------------------------------------

/// The characters with the Unicode `White_Space` property, which
/// `char::is_whitespace` accepts and `str::trim` removes.
pub open spec fn is_white_space(c: char) -> bool {
    ||| '\u{9}' <= c <= '\u{d}'
    ||| c == ' '
    ||| c == '\u{85}'
    ||| c == '\u{a0}'
    ||| c == '\u{1680}'
    ||| '\u{2000}' <= c <= '\u{200a}'
    ||| c == '\u{2028}'
    ||| c == '\u{2029}'
    ||| c == '\u{202f}'
    ||| c == '\u{205f}'
    ||| c == '\u{3000}'
}

/// `s` without its leading white space.
pub open spec fn trim_leading_space(s: Seq<char>) -> Seq<char>
    decreases s.len(),
{
    if s.len() > 0 && is_white_space(s[0]) {
        trim_leading_space(s.drop_first())
    } else {
        s
    }
}

/// `s` without its trailing white space.
pub open spec fn trim_trailing_space(s: Seq<char>) -> Seq<char>
    decreases s.len(),
{
    if s.len() > 0 && is_white_space(s.last()) {
        trim_trailing_space(s.drop_last())
    } else {
        s
    }
}

/// What `str::trim` returns: the text without leading and trailing white space.
pub open spec fn trimmed(s: Seq<char>) -> Seq<char> {
    trim_trailing_space(trim_leading_space(s))
}

/// What `str::to_uppercase` returns for a text that is not all ASCII: its
/// Unicode upper-case mapping.
pub uninterp spec fn unicode_uppercased(s: Seq<char>) -> Seq<char>;

/// What `str::to_uppercase` returns: on ASCII text the Unicode mapping turns
/// `a` to `z` into `A` to `Z` and keeps every other character; on other text
/// it is the Unicode upper-case mapping.
pub open spec fn uppercased(s: Seq<char>) -> Seq<char> {
    if is_ascii_text(s) {
        s.map_values(|c: char| ascii_upper_of(c))
    } else {
        unicode_uppercased(s)
    }
}

/// `str::trim`: the slice without leading and trailing characters that
/// `char::is_whitespace` accepts.
#[verifier::external_body]
pub(crate) fn trim_text(s: &str) -> (r: &str)
    ensures
        r@ == trimmed(s@),
{
    s.trim()
}

/// `str::to_uppercase`. Each character maps to one or more characters
/// (`char::to_uppercase`), so the result is empty exactly when the text is.
#[verifier::external_body]
pub(crate) fn uppercase_text(s: &str) -> (r: String)
    ensures
        r@ == uppercased(s@),
        !is_ascii_text(s@) ==> r@ == unicode_uppercased(s@),
        (r@.len() == 0) == (s@.len() == 0),
{
    s.to_uppercase()
}

/// The normal form of a ticker symbol: trimmed, then upper-cased.
pub open spec fn normal_symbol(s: Seq<char>) -> Seq<char> {
    uppercased(trimmed(s))
}

/// Strictly increasing in `seq_lt` order (hence free of repeats).
pub open spec fn strictly_sorted(s: Seq<Seq<char>>) -> bool {
    forall|i: int, j: int| 0 <= i < j < s.len() ==> seq_lt(s[i], s[j])
}

pub open spec fn texts(v: Seq<String>) -> Seq<Seq<char>> {
    v.map_values(|s: String| s@)
}

pub proof fn lemma_texts_push(s: Seq<String>, x: String)
    ensures
        texts(s.push(x)) == texts(s).push(x@),
{
    assert(texts(s.push(x)) =~= texts(s).push(x@));
}

/// `out` holds, once each and in increasing order, the non-empty normal
/// forms of the symbols in `input`.
pub open spec fn is_normalized_list(input: Seq<Seq<char>>, out: Seq<Seq<char>>) -> bool {
    &&& strictly_sorted(out)
    &&& forall|i: int| 0 <= i < out.len() ==> #[trigger] out[i].len() > 0
        && exists|j: int| 0 <= j < input.len() && out[i] == normal_symbol(#[trigger] input[j])
    &&& forall|j: int| 0 <= j < input.len() && normal_symbol(#[trigger] input[j]).len() > 0
        ==> out.contains(normal_symbol(input[j]))
}

/// Inserts `x` into a strictly sorted list, unless it is there already.
fn insert_sorted(out: &mut Vec<String>, x: String)
    requires
        strictly_sorted(texts(old(out)@)),
    ensures
        strictly_sorted(texts(final(out)@)),
        texts(final(out)@).contains(x@),
        forall|t: Seq<char>| texts(final(out)@).contains(t) <==> (texts(old(out)@).contains(t) || t == x@),
{
    let xs = chars_of(x.as_str());
    let mut p: usize = 0;
    while p < out.len()
        invariant
            p <= out.len(),
            out@ == old(out)@,
            xs@ == x@,
            strictly_sorted(texts(out@)),
            forall|i: int| 0 <= i < p ==> seq_lt(out@[i]@, x@),
        ensures
            p <= out.len(),
            out@ == old(out)@,
            strictly_sorted(texts(out@)),
            forall|i: int| 0 <= i < p ==> seq_lt(out@[i]@, x@),
            p < out.len() ==> seq_lt(x@, out@[p as int]@),
        decreases out.len() - p,
    {
        let ys = chars_of(out[p].as_str());
        let c = compare_chars(&ys, &xs);
        if c == 0 {
            proof {
                assert(texts(out@)[p as int] == x@);
            }
            return;
        }
        if c == 1 {
            break;
        }
        p = p + 1;
    }
    // Every element from `p` on is greater than `x`.
    proof {
        if p < out.len() {
            assert forall|i: int| p <= i < out@.len() implies seq_lt(x@, #[trigger] out@[i]@) by {
                if i > p {
                    assert(texts(out@)[p as int] == out@[p as int]@);
                    assert(texts(out@)[i] == out@[i]@);
                    lemma_seq_lt_transitive(x@, out@[p as int]@, out@[i]@);
                }
            }
        }
    }
    let ghost before = out@;
    out.insert(p, x);
    proof {
        let t = texts(out@);
        assert forall|i: int, j: int| 0 <= i < j < t.len() implies seq_lt(t[i], t[j]) by {
            if i < p && j < p {
                assert(texts(before)[i] == t[i] && texts(before)[j] == t[j]);
            } else if i < p && j == p {
            } else if i < p && j > p {
                assert(t[j] == before[j - 1]@);
                assert(texts(before)[i] == t[i] && texts(before)[j - 1] == t[j]);
            } else if i == p {
                assert(t[j] == before[j - 1]@);
            } else {
                assert(texts(before)[i - 1] == t[i] && texts(before)[j - 1] == t[j]);
            }
        }
        assert(t[p as int] == x@);
        assert forall|s: Seq<char>| t.contains(s) <==> (texts(before).contains(s) || s == x@) by {
            if t.contains(s) {
                let k = choose|k: int| 0 <= k < t.len() && t[k] == s;
                if k < p {
                    assert(texts(before)[k] == s);
                } else if k > p {
                    assert(texts(before)[k - 1] == s);
                }
            }
            if texts(before).contains(s) {
                let k = choose|k: int| 0 <= k < texts(before).len() && texts(before)[k] == s;
                if k < p {
                    assert(t[k] == s);
                } else {
                    assert(t[k + 1] == s);
                }
            }
        }
    }
}

/// Trims and upper-cases each symbol, drops the empty ones, removes repeats
/// and sorts the rest.
pub fn normalize_symbols(symbols: &[String]) -> (out: Vec<String>)
    ensures
        is_normalized_list(texts(symbols@), texts(out@)),
        forall|j: int| 0 <= j < symbols@.len()
            ==> (normal_symbol(#[trigger] symbols@[j]@).len() > 0 <==> trimmed(symbols@[j]@).len() > 0),
{
    let mut out: Vec<String> = Vec::new();
    let mut j: usize = 0;
    while j < symbols.len()
        invariant
            j <= symbols.len(),
            is_normalized_list(texts(symbols@.take(j as int)), texts(out@)),
            forall|k: int| 0 <= k < j
                ==> (normal_symbol(#[trigger] symbols@[k]@).len() > 0 <==> trimmed(symbols@[k]@).len() > 0),
        decreases symbols.len() - j,
    {
        let n = uppercase_text(trim_text(symbols[j].as_str()));
        let ghost before = out@;
        let ghost input = texts(symbols@.take(j as int));
        let ghost input2 = texts(symbols@.take(j + 1));
        proof {
            assert(input2 =~= input.push(symbols@[j as int]@));
        }
        if !n.as_str().is_empty() {
            insert_sorted(&mut out, n);
        }
        proof {
            let o = texts(out@);
            assert forall|i: int| 0 <= i < o.len() implies #[trigger] o[i].len() > 0
                && exists|k: int| 0 <= k < input2.len() && o[i] == normal_symbol(#[trigger] input2[k]) by {
                if texts(before).contains(o[i]) {
                    let k0 = choose|k0: int| 0 <= k0 < texts(before).len() && texts(before)[k0] == o[i];
                    assert(texts(before)[k0].len() > 0);
                    let k = choose|k: int| 0 <= k < input.len() && texts(before)[k0] == normal_symbol(#[trigger] input[k]);
                    assert(input2[k] == input[k]);
                } else {
                    assert(o.contains(o[i]));
                    assert(input2[j as int] == symbols@[j as int]@);
                }
            }
            assert forall|k: int| 0 <= k < input2.len() && normal_symbol(#[trigger] input2[k]).len() > 0
                implies o.contains(normal_symbol(input2[k])) by {
                if k < j {
                    assert(input2[k] == input[k]);
                    assert(texts(before).contains(normal_symbol(input[k])));
                }
            }
        }
        j = j + 1;
    }
    assert(symbols@.take(symbols.len() as int) =~= symbols@);
    out
}

/// Two strictly sorted lists with the same members are the same list.
proof fn lemma_sorted_lists_equal(a: Seq<Seq<char>>, b: Seq<Seq<char>>)
    requires
        strictly_sorted(a),
        strictly_sorted(b),
        forall|x: Seq<char>| a.contains(x) <==> b.contains(x),
    ensures
        a == b,
    decreases a.len(),
{
    if a.len() == 0 || b.len() == 0 {
        if a.len() > 0 {
            assert(a.contains(a[0]));
        }
        if b.len() > 0 {
            assert(b.contains(b[0]));
        }
        assert(a =~= b);
    } else {
        assert(a.contains(a[0]));
        assert(b.contains(b[0]));
        let k = choose|k: int| 0 <= k < a.len() && a[k] == b[0];
        let m = choose|m: int| 0 <= m < b.len() && b[m] == a[0];
        lemma_seq_lt_total(a[0], b[0]);
        if k > 0 && m > 0 {
            assert(seq_lt(a[0], a[k]));
            assert(seq_lt(b[0], b[m]));
        }
        assert(a[0] == b[0]);
        let a1 = a.drop_first();
        let b1 = b.drop_first();
        assert forall|x: Seq<char>| a1.contains(x) implies b1.contains(x) by {
            let i = choose|i: int| 0 <= i < a1.len() && a1[i] == x;
            assert(a.contains(x)) by {
                assert(a[i + 1] == x);
            }
            assert(seq_lt(a[0], a[i + 1]));
            lemma_seq_lt_total(a[0], x);
            let j = choose|j: int| 0 <= j < b.len() && b[j] == x;
            assert(j != 0);
            assert(b1[j - 1] == x);
        }
        assert forall|x: Seq<char>| b1.contains(x) implies a1.contains(x) by {
            let i = choose|i: int| 0 <= i < b1.len() && b1[i] == x;
            assert(b.contains(x)) by {
                assert(b[i + 1] == x);
            }
            assert(seq_lt(b[0], b[i + 1]));
            lemma_seq_lt_total(b[0], x);
            let j = choose|j: int| 0 <= j < a.len() && a[j] == x;
            assert(j != 0);
            assert(a1[j - 1] == x);
        }
        lemma_sorted_lists_equal(a1, b1);
        assert(a =~= b1.insert(0, b[0]));
        assert(b =~= b1.insert(0, b[0]));
    }
}

/// The normalized symbol list is determined by the input: any two lists
/// that meet the description of `normalize_symbols` are equal, so the
/// function gives the same result however the input is ordered or repeated.
pub proof fn law_normalized_list_is_unique(input: Seq<Seq<char>>, a: Seq<Seq<char>>, b: Seq<Seq<char>>)
    requires
        is_normalized_list(input, a),
        is_normalized_list(input, b),
    ensures
        a == b,
{
    assert forall|x: Seq<char>| a.contains(x) implies b.contains(x) by {
        let i = choose|i: int| 0 <= i < a.len() && a[i] == x;
        assert(a[i].len() > 0);
        let j = choose|j: int| 0 <= j < input.len() && a[i] == normal_symbol(#[trigger] input[j]);
    }
    assert forall|x: Seq<char>| b.contains(x) implies a.contains(x) by {
        let i = choose|i: int| 0 <= i < b.len() && b[i] == x;
        assert(b[i].len() > 0);
        let j = choose|j: int| 0 <= j < input.len() && b[i] == normal_symbol(#[trigger] input[j]);
    }
    lemma_sorted_lists_equal(a, b);
}

/// A symbol to add to the watch list, in normal form; a blank one is refused.
pub fn normalize_watch_symbol(symbol: &str) -> (r: Result<String, AppError>)
    ensures
        normal_symbol(symbol@).len() == 0 ==> (r matches Err(AppError::ValidationError(m)) && m@ == "symbol is required"@),
        normal_symbol(symbol@).len() != 0 ==> (r matches Ok(n) && n@ == normal_symbol(symbol@)),
{
    let n = uppercase_text(trim_text(symbol));
    if n.as_str().is_empty() {
        return Err(AppError::ValidationError(string_of("symbol is required")));
    }
    Ok(n)
}

/// The pieces of a text between commas, from `cur` on: `cur` is the part
/// of the current piece already read.
pub open spec fn comma_pieces_from(s: Seq<char>, cur: Seq<char>) -> Seq<Seq<char>>
    decreases s.len(),
{
    if s.len() == 0 {
        seq![cur]
    } else if s[0] == ',' {
        seq![cur] + comma_pieces_from(s.drop_first(), Seq::empty())
    } else {
        comma_pieces_from(s.drop_first(), cur.push(s[0]))
    }
}

/// `str::split(',')`: the pieces of a text between commas.
pub open spec fn comma_pieces(s: Seq<char>) -> Seq<Seq<char>> {
    comma_pieces_from(s, Seq::empty())
}

/// The trimmed pieces that are not empty, in order.
pub open spec fn kept_pieces(pieces: Seq<Seq<char>>) -> Seq<Seq<char>>
    decreases pieces.len(),
{
    if pieces.len() == 0 {
        Seq::empty()
    } else if trimmed(pieces.last()).len() == 0 {
        kept_pieces(pieces.drop_last())
    } else {
        kept_pieces(pieces.drop_last()).push(trimmed(pieces.last()))
    }
}

proof fn lemma_kept_pieces_append(a: Seq<Seq<char>>, b: Seq<Seq<char>>)
    ensures
        kept_pieces(a + b) == kept_pieces(a) + kept_pieces(b),
    decreases b.len(),
{
    if b.len() == 0 {
        assert(a + b =~= a);
        assert(kept_pieces(a) + kept_pieces(b) =~= kept_pieces(a));
    } else {
        lemma_kept_pieces_append(a, b.drop_last());
        assert((a + b).drop_last() =~= a + b.drop_last());
        assert((a + b).last() == b.last());
        if trimmed(b.last()).len() != 0 {
            assert(kept_pieces(a) + kept_pieces(b) =~= (kept_pieces(a) + kept_pieces(b.drop_last())).push(trimmed(b.last())));
        }
    }
}

fn keep_piece(out: &mut Vec<String>, piece: &Vec<char>)
    ensures
        texts(final(out)@) == texts(old(out)@) + kept_pieces(seq![piece@]),
{
    let text = string_from_chars(piece);
    let t = trim_text(text.as_str());
    proof {
        assert(seq![piece@].drop_last() =~= Seq::<Seq<char>>::empty());
        assert(seq![piece@].last() == piece@);
        assert(kept_pieces(Seq::<Seq<char>>::empty()) == Seq::<Seq<char>>::empty());
    }
    if t.is_empty() {
        assert(texts(out@) =~= texts(out@) + kept_pieces(seq![piece@]));
    } else {
        let ghost before = out@;
        let kept = string_of(t);
        out.push(kept);
        proof {
            lemma_texts_push(before, kept);
            assert(kept_pieces(seq![piece@]) =~= seq![trimmed(piece@)]);
        }
    }
}

/// The entries of a comma-separated setting: the pieces between commas,
/// trimmed, without the empty ones.
pub fn comma_list(text: &str) -> (out: Vec<String>)
    ensures
        texts(out@) == kept_pieces(comma_pieces(text@)),
{
    let cs = chars_of(text);
    let mut out: Vec<String> = Vec::new();
    let mut cur: Vec<char> = Vec::new();
    let mut i: usize = 0;
    proof {
        assert(cs@.skip(0) =~= cs@);
        assert(texts(out@) =~= Seq::<Seq<char>>::empty());
        assert(cur@ =~= Seq::<char>::empty());
        assert(Seq::<Seq<char>>::empty() + kept_pieces(comma_pieces(text@)) =~= kept_pieces(comma_pieces(text@)));
    }
    while i < cs.len()
        invariant
            i <= cs.len(),
            cs@ == text@,
            texts(out@) + kept_pieces(comma_pieces_from(cs@.skip(i as int), cur@)) == kept_pieces(comma_pieces(text@)),
        decreases cs.len() - i,
    {
        let ghost rest = cs@.skip(i as int);
        proof {
            assert(rest.drop_first() =~= cs@.skip(i + 1));
            assert(rest[0] == cs@[i as int]);
        }
        if cs[i] == ',' {
            proof {
                lemma_kept_pieces_append(seq![cur@], comma_pieces_from(cs@.skip(i + 1), Seq::empty()));
            }
            keep_piece(&mut out, &cur);
            cur = Vec::new();
            proof {
                assert(cur@ =~= Seq::<char>::empty());
            }
        } else {
            cur.push(cs[i]);
        }
        i = i + 1;
    }
    proof {
        assert(cs@.skip(cs.len() as int) =~= Seq::<char>::empty());
    }
    keep_piece(&mut out, &cur);
    out
}

proof fn lemma_trim_leading_space(s: Seq<char>)
    ensures
        trim_leading_space(s).len() <= s.len(),
        forall|i: int| 0 <= i < trim_leading_space(s).len()
            ==> #[trigger] trim_leading_space(s)[i] == s[i + s.len() - trim_leading_space(s).len()],
        trim_leading_space(s).len() > 0 ==> !is_white_space(trim_leading_space(s)[0]),
    decreases s.len(),
{
    if s.len() > 0 && is_white_space(s[0]) {
        lemma_trim_leading_space(s.drop_first());
    }
}

proof fn lemma_trim_trailing_space(s: Seq<char>)
    ensures
        trim_trailing_space(s).len() <= s.len(),
        forall|i: int| 0 <= i < trim_trailing_space(s).len() ==> #[trigger] trim_trailing_space(s)[i] == s[i],
        trim_trailing_space(s).len() > 0 ==> !is_white_space(trim_trailing_space(s).last()),
    decreases s.len(),
{
    if s.len() > 0 && is_white_space(s.last()) {
        lemma_trim_trailing_space(s.drop_last());
    }
}

/// An ASCII symbol in normal form stays as it is when normalized again.
proof fn lemma_normal_symbol_fixed(x: Seq<char>)
    requires
        is_ascii_text(x),
    ensures
        is_ascii_text(normal_symbol(x)),
        normal_symbol(normal_symbol(x)) == normal_symbol(x),
{
    let m = trim_leading_space(x);
    lemma_trim_leading_space(x);
    lemma_trim_trailing_space(m);
    let t = trimmed(x);
    assert(is_ascii_text(t)) by {
        assert forall|i: int| 0 <= i < t.len() implies (#[trigger] t[i] as u32) < 128 by {
            assert(t[i] == m[i]);
            assert(m[i] == x[i + x.len() - m.len()]);
        }
    }
    if t.len() > 0 {
        assert(t[0] == m[0]);
    }
    let y = t.map_values(|c: char| ascii_upper_of(c));
    assert(normal_symbol(x) == y);
    assert(is_ascii_text(y)) by {
        assert forall|i: int| 0 <= i < y.len() implies (#[trigger] y[i] as u32) < 128 by {
            assert(y[i] == ascii_upper_of(t[i]));
            assert((t[i] as u32) < 128);
        }
    }
    assert(trimmed(y) == y) by {
        if y.len() > 0 {
            assert(y[0] == ascii_upper_of(t[0]));
            assert(y.last() == ascii_upper_of(t.last()));
            assert(!is_white_space(t[0]));
            assert(!is_white_space(t.last()));
            assert(trim_leading_space(y) == y);
            assert(trim_trailing_space(y) == y);
        } else {
            assert(trim_leading_space(y) == y);
            assert(trim_trailing_space(y) == y);
        }
    }
    assert(y.map_values(|c: char| ascii_upper_of(c)) =~= y) by {
        assert forall|i: int| 0 <= i < y.len() implies ascii_upper_of(#[trigger] y[i]) == y[i] by {
            assert(y[i] == ascii_upper_of(t[i]));
        }
    }
}

/// Normalizing a normalized list of ASCII symbols gives it back.
pub proof fn law_normalize_is_idempotent(input: Seq<Seq<char>>, out: Seq<Seq<char>>, again: Seq<Seq<char>>)
    requires
        forall|j: int| 0 <= j < input.len() ==> is_ascii_text(#[trigger] input[j]),
        is_normalized_list(input, out),
        is_normalized_list(out, again),
    ensures
        again == out,
{
    assert forall|i: int| 0 <= i < out.len() implies normal_symbol(#[trigger] out[i]) == out[i] by {
        assert(out[i].len() > 0);
        let j = choose|j: int| 0 <= j < input.len() && out[i] == normal_symbol(#[trigger] input[j]);
        lemma_normal_symbol_fixed(input[j]);
    }
    assert forall|i: int| 0 <= i < out.len() implies #[trigger] out[i].len() > 0
        && exists|j: int| 0 <= j < out.len() && out[i] == normal_symbol(#[trigger] out[j]) by {
        assert(normal_symbol(out[i]) == out[i]);
    }
    assert forall|j: int| 0 <= j < out.len() && normal_symbol(#[trigger] out[j]).len() > 0
        implies out.contains(normal_symbol(out[j])) by {
        assert(normal_symbol(out[j]) == out[j]);
    }
    assert(is_normalized_list(out, out));
    law_normalized_list_is_unique(out, again, out);
}

/// The normalized list holds exactly the normal forms of the symbols that
/// are not blank once trimmed.
pub proof fn law_normalized_list_members(input: Seq<Seq<char>>, out: Seq<Seq<char>>, x: Seq<char>)
    requires
        is_normalized_list(input, out),
        forall|j: int| 0 <= j < input.len()
            ==> (normal_symbol(#[trigger] input[j]).len() > 0 <==> trimmed(input[j]).len() > 0),
    ensures
        out.contains(x) <==> exists|j: int| 0 <= j < input.len() && trimmed(input[j]).len() > 0
            && x == normal_symbol(#[trigger] input[j]),
{
    if out.contains(x) {
        let i = choose|i: int| 0 <= i < out.len() && out[i] == x;
        assert(out[i].len() > 0);
        let j = choose|j: int| 0 <= j < input.len() && out[i] == normal_symbol(#[trigger] input[j]);
        assert(trimmed(input[j]).len() > 0);
    }
    if exists|j: int| 0 <= j < input.len() && trimmed(input[j]).len() > 0 && x == normal_symbol(#[trigger] input[j]) {
        let j = choose|j: int| 0 <= j < input.len() && trimmed(input[j]).len() > 0 && x == normal_symbol(#[trigger] input[j]);
        assert(normal_symbol(input[j]).len() > 0);
    }
}

/// What `serde_json::from_str::<Vec<String>>` gives: the list of strings that
/// the JSON text holds, or nothing when it is not a JSON array of strings.
pub uninterp spec fn json_string_list(text: Seq<char>) -> Option<Seq<Seq<char>>>;

/// Parses a JSON array of strings (`serde_json::from_str::<Vec<String>>`).
#[verifier::external_body]
fn parse_json_string_list(text: &str) -> (r: Option<Vec<String>>)
    ensures
        r is None <==> json_string_list(text@) is None,
        r matches Some(v) ==> json_string_list(text@) == Some(texts(v@)),
{
    serde_json::from_str::<Vec<String>>(text).ok()
}

/// The symbols stored as a JSON array: upper-cased, in stored order; an
/// empty list when the text is not such an array.
pub fn parse_symbols(json_text: &str) -> (out: Vec<String>)
    ensures
        json_string_list(json_text@) is None ==> out@.len() == 0,
        json_string_list(json_text@) matches Some(list) ==> out@.len() == list.len()
            && forall|i: int| 0 <= i < list.len() ==> (#[trigger] out@[i])@ == uppercased(list[i]),
{
    let parsed = match parse_json_string_list(json_text) {
        Some(v) => v,
        None => return Vec::new(),
    };
    let mut out: Vec<String> = Vec::new();
    let mut i: usize = 0;
    while i < parsed.len()
        invariant
            i <= parsed.len(),
            out@.len() == i,
            forall|k: int| 0 <= k < i ==> (#[trigger] out@[k])@ == uppercased(parsed@[k]@),
        decreases parsed.len() - i,
    {
        out.push(uppercase_text(parsed[i].as_str()));
        i = i + 1;
    }
    proof {
        let list = texts(parsed@);
        assert forall|k: int| 0 <= k < list.len() implies (#[trigger] out@[k])@ == uppercased(list[k]) by {
            assert(list[k] == parsed@[k]@);
        }
    }
    out
}

// ------------------------------------------------------------------
// Slugs and strategy ids
// ------------------------------------------------------------------

/// The slug of a text before its outer dashes are cut: ASCII letters and
/// digits kept in lower case, each run of other characters made one dash.
/// The flag says whether the last character written was such a dash.
pub open spec fn slug_fold(s: Seq<char>) -> (Seq<char>, bool)
    decreases s.len(),
{
    if s.len() == 0 {
        (Seq::empty(), false)
    } else {
        let (acc, dash) = slug_fold(s.drop_last());
        let c = s.last();
        if is_ascii_alphanumeric(c) {
            (acc.push(ascii_lower_of(c)), false)
        } else if !dash {
            (acc.push('-'), true)
        } else {
            (acc, true)
        }
    }
}

/// `s` without its leading occurrences of `ch`.
pub open spec fn trim_start_char(s: Seq<char>, ch: char) -> Seq<char>
    decreases s.len(),
{
    if s.len() > 0 && s[0] == ch {
        trim_start_char(s.drop_first(), ch)
    } else {
        s
    }
}

/// `s` without its trailing occurrences of `ch`.
pub open spec fn trim_end_char(s: Seq<char>, ch: char) -> Seq<char>
    decreases s.len(),
{
    if s.len() > 0 && s.last() == ch {
        trim_end_char(s.drop_last(), ch)
    } else {
        s
    }
}

/// `str::trim_matches` with a single character.
pub open spec fn trim_char(s: Seq<char>, ch: char) -> Seq<char> {
    trim_end_char(trim_start_char(s, ch), ch)
}

pub open spec fn slug_of(s: Seq<char>) -> Seq<char> {
    trim_char(slug_fold(s).0, '-')
}

/// A character that may stand in a slug.
pub open spec fn is_slug_char(c: char) -> bool {
    is_ascii_digit(c) || is_ascii_lower(c) || c == '-'
}

/// A well-formed slug: lower-case ASCII letters, digits and single dashes,
/// with no dash at either end.
pub open spec fn is_clean_slug(t: Seq<char>) -> bool {
    &&& forall|i: int| 0 <= i < t.len() ==> is_slug_char(#[trigger] t[i])
    &&& forall|i: int| #![trigger t[i]] 0 <= i < t.len() - 1 ==> !(t[i] == '-' && t[i + 1] == '-')
    &&& t.len() > 0 ==> t[0] != '-' && t.last() != '-'
}

proof fn lemma_slug_fold(s: Seq<char>)
    ensures
        forall|i: int| 0 <= i < slug_fold(s).0.len() ==> is_slug_char(#[trigger] slug_fold(s).0[i]),
        forall|i: int| #![trigger slug_fold(s).0[i]] 0 <= i < slug_fold(s).0.len() - 1
            ==> !(slug_fold(s).0[i] == '-' && slug_fold(s).0[i + 1] == '-'),
        slug_fold(s).1 == (slug_fold(s).0.len() > 0 && slug_fold(s).0.last() == '-'),
    decreases s.len(),
{
    if s.len() > 0 {
        lemma_slug_fold(s.drop_last());
        let c = s.last();
        if is_ascii_upper(c) {
            assert(is_ascii_lower(ascii_lower_of(c)));
        }
    }
}

proof fn lemma_trim_start_char(s: Seq<char>, ch: char)
    ensures
        trim_start_char(s, ch).len() <= s.len(),
        forall|i: int| 0 <= i < trim_start_char(s, ch).len()
            ==> #[trigger] trim_start_char(s, ch)[i] == s[i + s.len() - trim_start_char(s, ch).len()],
        trim_start_char(s, ch).len() > 0 ==> trim_start_char(s, ch)[0] != ch,
    decreases s.len(),
{
    if s.len() > 0 && s[0] == ch {
        lemma_trim_start_char(s.drop_first(), ch);
    }
}

proof fn lemma_trim_end_char(s: Seq<char>, ch: char)
    ensures
        trim_end_char(s, ch).len() <= s.len(),
        forall|i: int| 0 <= i < trim_end_char(s, ch).len() ==> #[trigger] trim_end_char(s, ch)[i] == s[i],
        trim_end_char(s, ch).len() > 0 ==> trim_end_char(s, ch).last() != ch,
    decreases s.len(),
{
    if s.len() > 0 && s.last() == ch {
        lemma_trim_end_char(s.drop_last(), ch);
    }
}

/// Whatever the text, its slug is well formed: lower-case ASCII letters and
/// digits joined by single dashes, with no dash at either end.
pub proof fn law_slug_is_clean(text: Seq<char>)
    ensures
        is_clean_slug(slug_of(text)),
{
    let f = slug_fold(text).0;
    lemma_slug_fold(text);
    lemma_trim_start_char(f, '-');
    let m = trim_start_char(f, '-');
    lemma_trim_end_char(m, '-');
    let t = slug_of(text);
    let off = f.len() - m.len();
    assert forall|i: int| 0 <= i < t.len() implies is_slug_char(#[trigger] t[i]) by {
        assert(t[i] == m[i]);
        assert(m[i] == f[i + off]);
    }
    assert forall|i: int| #![trigger t[i]] 0 <= i < t.len() - 1 implies !(t[i] == '-' && t[i + 1] == '-') by {
        assert(t[i] == m[i] && t[i + 1] == m[i + 1]);
        assert(m[i] == f[i + off] && m[i + 1] == f[i + 1 + off]);
        assert(f[i + off] == f[(i + off)]);
    }
    if t.len() > 0 {
        assert(t[0] == m[0]);
    }
}

/// The ASCII letters and digits of a text, in order, letters in lower case.
pub open spec fn alnum_lower(s: Seq<char>) -> Seq<char>
    decreases s.len(),
{
    if s.len() == 0 {
        Seq::empty()
    } else if is_ascii_alphanumeric(s.last()) {
        alnum_lower(s.drop_last()).push(ascii_lower_of(s.last()))
    } else {
        alnum_lower(s.drop_last())
    }
}

/// A text without its dashes.
pub open spec fn without_dashes(s: Seq<char>) -> Seq<char>
    decreases s.len(),
{
    if s.len() == 0 {
        Seq::empty()
    } else if s.last() == '-' {
        without_dashes(s.drop_last())
    } else {
        without_dashes(s.drop_last()).push(s.last())
    }
}

proof fn lemma_without_dashes_concat(a: Seq<char>, b: Seq<char>)
    ensures
        without_dashes(a + b) == without_dashes(a) + without_dashes(b),
    decreases b.len(),
{
    if b.len() == 0 {
        assert(a + b =~= a);
        assert(without_dashes(a) + without_dashes(b) =~= without_dashes(a));
    } else {
        lemma_without_dashes_concat(a, b.drop_last());
        assert((a + b).drop_last() =~= a + b.drop_last());
        assert((a + b).last() == b.last());
        if b.last() != '-' {
            assert(without_dashes(a) + without_dashes(b) =~= (without_dashes(a) + without_dashes(b.drop_last())).push(b.last()));
        }
    }
}

proof fn lemma_slug_fold_letters(s: Seq<char>)
    ensures
        without_dashes(slug_fold(s).0) == alnum_lower(s),
    decreases s.len(),
{
    if s.len() > 0 {
        lemma_slug_fold_letters(s.drop_last());
        let c = s.last();
        if is_ascii_upper(c) {
            assert(is_ascii_lower(ascii_lower_of(c)));
        }
        let acc = slug_fold(s.drop_last()).0;
        if is_ascii_alphanumeric(c) {
            assert(acc.push(ascii_lower_of(c)).drop_last() =~= acc);
        } else if !slug_fold(s.drop_last()).1 {
            assert(acc.push('-').drop_last() =~= acc);
        }
    }
}

proof fn lemma_trims_keep_letters(s: Seq<char>)
    ensures
        without_dashes(trim_start_char(s, '-')) == without_dashes(s),
        without_dashes(trim_end_char(s, '-')) == without_dashes(s),
    decreases s.len(),
{
    if s.len() > 0 {
        lemma_trims_keep_letters(s.drop_first());
        lemma_trims_keep_letters(s.drop_last());
        if s[0] == '-' {
            lemma_without_dashes_concat(seq![s[0]], s.drop_first());
            assert(seq![s[0]] + s.drop_first() =~= s);
            assert(seq![s[0]].drop_last() =~= Seq::<char>::empty());
            assert(seq![s[0]].last() == '-');
            assert(without_dashes(Seq::<char>::empty()) == Seq::<char>::empty());
            assert(without_dashes(seq![s[0]]) =~= Seq::<char>::empty());
            assert(without_dashes(Seq::<char>::empty()) + without_dashes(s.drop_first()) =~= without_dashes(s.drop_first()));
        }
    }
}

/// A text that could be the start of a slug: slug characters, no two dashes
/// in a row, no leading dash.
pub open spec fn is_slug_prefix(t: Seq<char>) -> bool {
    &&& forall|i: int| 0 <= i < t.len() ==> is_slug_char(#[trigger] t[i])
    &&& forall|i: int| #![trigger t[i]] 0 <= i < t.len() - 1 ==> !(t[i] == '-' && t[i + 1] == '-')
    &&& t.len() > 0 ==> t[0] != '-'
}

proof fn lemma_slug_fold_of_slug_prefix(t: Seq<char>)
    requires
        is_slug_prefix(t),
    ensures
        slug_fold(t).0 == t,
    decreases t.len(),
{
    if t.len() > 0 {
        let d = t.drop_last();
        assert forall|i: int| 0 <= i < d.len() implies is_slug_char(#[trigger] d[i]) by {
            assert(d[i] == t[i]);
        }
        assert forall|i: int| #![trigger d[i]] 0 <= i < d.len() - 1 implies !(d[i] == '-' && d[i + 1] == '-') by {
            assert(d[i] == t[i] && d[i + 1] == t[i + 1]);
        }
        if d.len() > 0 {
            assert(d[0] == t[0]);
        }
        lemma_slug_fold_of_slug_prefix(d);
        lemma_slug_fold(d);
        let c = t.last();
        assert(is_slug_char(t[t.len() - 1]));
        if c == '-' {
            if d.len() > 0 {
                assert(d.last() == t[t.len() - 2]);
                assert(!(t[t.len() - 2] == '-' && t[t.len() - 1] == '-'));
            }
        }
        assert(d.push(c) =~= t);
    }
}

/// The slug of a text keeps exactly its ASCII letters and digits, in order and
/// in lower case, and a slug is its own slug.
pub proof fn law_slug_keeps_letters_and_is_stable(text: Seq<char>)
    ensures
        without_dashes(slug_of(text)) == alnum_lower(text),
        slug_of(slug_of(text)) == slug_of(text),
{
    let f = slug_fold(text).0;
    lemma_slug_fold_letters(text);
    lemma_trims_keep_letters(f);
    lemma_trims_keep_letters(trim_start_char(f, '-'));
    let t = slug_of(text);
    law_slug_is_clean(text);
    lemma_slug_fold_of_slug_prefix(t);
    if t.len() > 0 {
        assert(trim_start_char(t, '-') == t);
        assert(trim_end_char(t, '-') == t);
    } else {
        assert(trim_start_char(t, '-') == t);
        assert(trim_end_char(t, '-') == t);
    }
}

/// Cuts the leading and trailing occurrences of `ch`.
pub fn trim_matches_char(v: &Vec<char>, ch: char) -> (r: Vec<char>)
    ensures
        r@ == trim_char(v@, ch),
{
    let mut a: usize = 0;
    assert(v@.subrange(0, v.len() as int) =~= v@);
    while a < v.len() && v[a] == ch
        invariant
            a <= v.len(),
            trim_start_char(v@, ch) == trim_start_char(v@.subrange(a as int, v.len() as int), ch),
        decreases v.len() - a,
    {
        assert(v@.subrange(a as int, v.len() as int).drop_first() =~= v@.subrange(a + 1, v.len() as int));
        a = a + 1;
    }
    let ghost front = v@.subrange(a as int, v.len() as int);
    assert(trim_start_char(front, ch) == front);
    let mut b: usize = v.len();
    while b > a && v[b - 1] == ch
        invariant
            a <= b <= v.len(),
            trim_end_char(front, ch) == trim_end_char(v@.subrange(a as int, b as int), ch),
        decreases b,
    {
        assert(v@.subrange(a as int, b as int).drop_last() =~= v@.subrange(a as int, b - 1));
        b = b - 1;
    }
    assert(trim_end_char(v@.subrange(a as int, b as int), ch) == v@.subrange(a as int, b as int));
    let mut r: Vec<char> = Vec::new();
    let mut i: usize = a;
    while i < b
        invariant
            a <= i <= b,
            b <= v.len(),
            r@ == v@.subrange(a as int, i as int),
        decreases b - i,
    {
        r.push(v[i]);
        assert(v@.subrange(a as int, i + 1) =~= v@.subrange(a as int, i as int).push(v@[i as int]));
        i = i + 1;
    }
    r
}

/// The URL-friendly form of a name: lower-case ASCII letters and digits, each
/// run of other characters made a single dash, no dash at either end.
pub fn slugify(text: &str) -> (slug: String)
    ensures
        slug@ == slug_of(text@),
{
    let cs = chars_of(text);
    let mut acc: Vec<char> = Vec::new();
    let mut last_was_dash = false;
    let mut i: usize = 0;
    while i < cs.len()
        invariant
            i <= cs.len(),
            cs@ == text@,
            slug_fold(cs@.take(i as int)) == (acc@, last_was_dash),
        decreases cs.len() - i,
    {
        let ch = cs[i];
        assert(cs@.take(i + 1).drop_last() =~= cs@.take(i as int));
        if ascii_alphanumeric(ch) {
            last_was_dash = false;
            acc.push(ascii_lowercase(ch));
        } else if !last_was_dash {
            last_was_dash = true;
            acc.push('-');
        }
        i = i + 1;
    }
    assert(cs@.take(cs.len() as int) =~= cs@);
    let trimmed_slug = trim_matches_char(&acc, '-');
    string_from_chars(&trimmed_slug)
}

/// The text of a `Uuid::new_v4().simple()`: 32 lower-case hex digits
/// (its value is random; nothing else is claimed).
#[verifier::external_body]
fn fresh_uuid_simple() -> (s: String)
    ensures
        s@.len() == 32,
        forall|i: int| 0 <= i < 32 ==> is_lower_hex_digit(#[trigger] s@[i]),
{
    uuid::Uuid::new_v4().simple().to_string()
}

/// The id of a new strategy: the slug of its name, a dash, and the first
/// eight characters of `uuid_text`.
pub fn strategy_id_for(name: &str, uuid_text: &str) -> (id: String)
    requires
        uuid_text@.len() >= 8,
    ensures
        id@ == slug_of(name@) + "-"@ + uuid_text@.take(8),
{
    let slug = slugify(name);
    let u = chars_of(uuid_text);
    let mut id = slug;
    push_char(&mut id, '-');
    proof {
        reveal_strlit("-");
        assert(u@.take(0) =~= Seq::<char>::empty());
        assert(id@ =~= slug_of(name@) + "-"@ + u@.take(0));
    }
    let mut i: usize = 0;
    while i < 8
        invariant
            i <= 8,
            u@ == uuid_text@,
            u@.len() >= 8,
            id@ == slug_of(name@) + "-"@ + u@.take(i as int),
        decreases 8 - i,
    {
        push_char(&mut id, u[i]);
        assert(u@.take(i + 1) =~= u@.take(i as int).push(u@[i as int]));
        i = i + 1;
    }
    proof {
        reveal_strlit("-");
        assert(id@ =~= slug_of(name@) + "-"@ + uuid_text@.take(8));
    }
    id
}

/// A fresh id for a strategy named `name`, with a random suffix.
pub fn new_strategy_id(name: &str) -> (id: String)
    ensures
        exists|u: Seq<char>| u.len() == 32 && (forall|i: int| 0 <= i < 32 ==> is_lower_hex_digit(#[trigger] u[i]))
            && id@ == slug_of(name@) + "-"@ + u.take(8),
{
    let u = fresh_uuid_simple();
    strategy_id_for(name, u.as_str())
}

// ------------------------------------------------------------------
// Masked keys
// ------------------------------------------------------------------

/// `"********"`, shown for keys of at most eight bytes.
pub open spec fn stars() -> Seq<char> {
    "********"@
}

/// Shows the first and last four bytes of a key of more than eight bytes,
/// joined by an ellipsis, and eight stars otherwise. Cutting inside a
/// character is not possible, so both cuts must fall on character
/// boundaries (as `&raw[..4]` and `&raw[raw.len() - 4..]` demand).
pub fn mask_raw_key(raw: &str) -> (m: String)
    requires
        raw.spec_bytes().len() > 8 ==> is_char_boundary(raw.spec_bytes(), 4)
            && is_char_boundary(raw.spec_bytes(), raw.spec_bytes().len() - 4),
    ensures
        raw.spec_bytes().len() <= 8 ==> m@ == stars(),
        raw.spec_bytes().len() > 8 ==> exists|head: Seq<char>, tail: Seq<char>|
            encode_utf8(head) == raw.spec_bytes().subrange(0, 4)
            && encode_utf8(tail) == raw.spec_bytes().subrange(raw.spec_bytes().len() - 4, raw.spec_bytes().len() as int)
            && m@ == head + "…"@ + tail,
{
    broadcast use vstd::utf8::encode_utf8_valid_utf8;
    let n = raw.as_bytes().len();
    if n <= 8 {
        return string_of("********");
    }
    let (head, _) = raw.split_at(4);
    let (_, tail) = raw.split_at(n - 4);
    let m = string_of(head).concat("…").concat(tail);
    proof {
        assert(encode_utf8(head@) == raw.spec_bytes().subrange(0, 4));
        assert(encode_utf8(tail@) == raw.spec_bytes().subrange(raw.spec_bytes().len() - 4, raw.spec_bytes().len() as int));
        assert(m@ == head@ + "…"@ + tail@);
    }
    m
}

/// The first four characters (all of them, when fewer) of an encrypted key,
/// an ellipsis, and its last four characters (all of them, when fewer).
pub open spec fn masked_encrypted(s: Seq<char>) -> Seq<char> {
    let k = if s.len() < 4 { s.len() as int } else { 4 };
    s.take(k) + "…"@ + s.subrange(s.len() - k, s.len() as int)
}

pub fn mask_encrypted_key(encrypted: &str) -> (m: String)
    ensures
        m@ == masked_encrypted(encrypted@),
{
    let cs = chars_of(encrypted);
    let k: usize = if cs.len() < 4 { cs.len() } else { 4 };
    let mut out: Vec<char> = Vec::new();
    let mut i: usize = 0;
    while i < k
        invariant
            i <= k,
            k <= cs.len(),
            out@ == cs@.take(i as int),
        decreases k - i,
    {
        out.push(cs[i]);
        assert(cs@.take(i + 1) =~= cs@.take(i as int).push(cs@[i as int]));
        i = i + 1;
    }
    let mut m = string_from_chars(&out).concat("…");
    let ghost front = m@;
    let mut j: usize = cs.len() - k;
    while j < cs.len()
        invariant
            k <= cs.len(),
            k == 4 || k == cs.len(),
            cs@ == encrypted@,
            cs.len() - k <= j <= cs.len(),
            m@ == front + cs@.subrange(cs.len() - k, j as int),
        decreases cs.len() - j,
    {
        push_char(&mut m, cs[j]);
        assert(cs@.subrange(cs.len() - k, j + 1) =~= cs@.subrange(cs.len() - k, j as int).push(cs@[j as int]));
        j = j + 1;
    }
    proof {
        assert(m@ =~= masked_encrypted(encrypted@));
    }
    m
}

proof fn lemma_comma_pieces_plain(a: Seq<char>, cur: Seq<char>)
    requires
        forall|i: int| 0 <= i < a.len() ==> a[i] != ',',
    ensures
        comma_pieces_from(a, cur) == seq![cur + a],
    decreases a.len(),
{
    if a.len() == 0 {
        assert(cur + a =~= cur);
    } else {
        let rest = a.drop_first();
        assert forall|i: int| 0 <= i < rest.len() implies rest[i] != ',' by {
            assert(rest[i] == a[i + 1]);
        }
        lemma_comma_pieces_plain(rest, cur.push(a[0]));
        assert(cur.push(a[0]) + rest =~= cur + a);
    }
}

proof fn lemma_comma_pieces_split(a: Seq<char>, b: Seq<char>, cur: Seq<char>)
    ensures
        comma_pieces_from(a + seq![','] + b, cur) == comma_pieces_from(a, cur) + comma_pieces(b),
    decreases a.len(),
{
    let whole = a + seq![','] + b;
    if a.len() == 0 {
        assert(whole[0] == ',');
        assert(whole.drop_first() =~= b);
        assert(comma_pieces_from(a, cur) == seq![cur]);
    } else {
        let rest = a.drop_first();
        assert(whole[0] == a[0]);
        assert(whole.drop_first() =~= rest + seq![','] + b);
        if a[0] == ',' {
            lemma_comma_pieces_split(rest, b, Seq::empty());
            assert(seq![cur] + (comma_pieces_from(rest, Seq::empty()) + comma_pieces(b))
                =~= (seq![cur] + comma_pieces_from(rest, Seq::empty())) + comma_pieces(b));
        } else {
            lemma_comma_pieces_split(rest, b, cur.push(a[0]));
        }
    }
}

/// How a comma-separated setting is read: the entries of two texts joined by
/// a comma are the entries of the first followed by those of the second,
/// and a text without a comma is one entry, trimmed, or none when blank.
pub proof fn law_comma_list_entries(a: Seq<char>, b: Seq<char>)
    ensures
        kept_pieces(comma_pieces(a + ","@ + b)) == kept_pieces(comma_pieces(a)) + kept_pieces(comma_pieces(b)),
        (forall|i: int| 0 <= i < a.len() ==> a[i] != ',') ==> kept_pieces(comma_pieces(a))
            == (if trimmed(a).len() == 0 { Seq::<Seq<char>>::empty() } else { seq![trimmed(a)] }),
{
    reveal_strlit(",");
    assert(","@ =~= seq![',']);
    lemma_comma_pieces_split(a, b, Seq::empty());
    lemma_kept_pieces_append(comma_pieces(a), comma_pieces(b));
    if forall|i: int| 0 <= i < a.len() ==> a[i] != ',' {
        lemma_comma_pieces_plain(a, Seq::empty());
        assert(Seq::<char>::empty() + a =~= a);
        assert(seq![a].drop_last() =~= Seq::<Seq<char>>::empty());
        assert(seq![a].last() == a);
        assert(kept_pieces(Seq::<Seq<char>>::empty()) == Seq::<Seq<char>>::empty());
        assert(comma_pieces(a) == seq![a]);
        if trimmed(a).len() != 0 {
            assert(kept_pieces(seq![a]) == kept_pieces(Seq::<Seq<char>>::empty()).push(trimmed(a)));
            assert(Seq::<Seq<char>>::empty().push(trimmed(a)) =~= seq![trimmed(a)]);
        } else {
            assert(kept_pieces(seq![a]) == kept_pieces(Seq::<Seq<char>>::empty()));
        }
    }
}

} // verus!
