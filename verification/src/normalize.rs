//! Text normalization: uppercase case folding and whitespace collapsing.
//!
//! Two texts are considered equal for grading purposes exactly when their
//! normalized forms are character-identical.

use vstd::prelude::*;

verus! {

/// The whitespace characters that normalization collapses: spaces, tabs,
/// newlines and carriage returns.
pub open spec fn is_space(c: char) -> bool {
    c == ' ' || c == '\t' || c == '\n' || c == '\r'
}

/// Uppercase folding of a single character, restricted to the ASCII
/// letters: the grading alphabet is Latin letters, digits and a small set
/// of punctuation, so nothing else folds.
pub open spec fn upper_char(c: char) -> char {
    if 'a' <= c && c <= 'z' {
        ((c as u32) - 32) as char
    } else {
        c
    }
}

/// Executable uppercase folding, matching `upper_char`.
pub fn upper_char_exec(c: char) -> (r: char)
    ensures
        r == upper_char(c),
{
    match c {
        'a' => 'A',
        'b' => 'B',
        'c' => 'C',
        'd' => 'D',
        'e' => 'E',
        'f' => 'F',
        'g' => 'G',
        'h' => 'H',
        'i' => 'I',
        'j' => 'J',
        'k' => 'K',
        'l' => 'L',
        'm' => 'M',
        'n' => 'N',
        'o' => 'O',
        'p' => 'P',
        'q' => 'Q',
        'r' => 'R',
        's' => 'S',
        't' => 'T',
        'u' => 'U',
        'v' => 'V',
        'w' => 'W',
        'x' => 'X',
        'y' => 'Y',
        'z' => 'Z',
        _ => c,
    }
}

/// A whole sequence folded to uppercase, character by character.
pub open spec fn upper_seq(s: Seq<char>) -> Seq<char> {
    Seq::new(s.len(), |i: int| upper_char(s[i]))
}

/// Normalization runs left to right with three states: nothing emitted yet
/// (0), the last emitted character belongs to a word (1), or at least one
/// word has been emitted and whitespace has been seen since (2).
pub open spec fn norm_step(st: int, c: char) -> int {
    if is_space(c) {
        if st == 0 {
            0
        } else {
            2
        }
    } else {
        1
    }
}

/// What normalization emits for one input character in a given state: a
/// whitespace character emits nothing; a word character emits its uppercase
/// form, preceded by a single separating space when a word was already
/// emitted and whitespace has been seen since.
pub open spec fn norm_emit(st: int, c: char) -> Seq<char> {
    if is_space(c) {
        Seq::<char>::empty()
    } else if st == 2 {
        seq![' ', upper_char(c)]
    } else {
        seq![upper_char(c)]
    }
}

/// The output of the normalization machine run over `s` from state `st`.
pub open spec fn norm_from(s: Seq<char>, st: int) -> Seq<char>
    decreases s.len(),
{
    if s.len() == 0 {
        Seq::<char>::empty()
    } else {
        norm_emit(st, s[0]) + norm_from(s.skip(1), norm_step(st, s[0]))
    }
}

/// The state of the normalization machine after consuming `s` from `st`.
pub open spec fn norm_state(s: Seq<char>, st: int) -> int
    decreases s.len(),
{
    if s.len() == 0 {
        st
    } else {
        norm_state(s.skip(1), norm_step(st, s[0]))
    }
}

/// The normalized form of a text: uppercase, with every whitespace run
/// collapsed to a single space and no leading or trailing whitespace.
pub open spec fn normalize_spec(s: Seq<char>) -> Seq<char> {
    norm_from(s, 0)
}

/// A sequence is in tail-normal form when it is uppercase-fixed, its only
/// whitespace is the plain space, no two spaces are adjacent, and it does
/// not end with a space. Normalized texts additionally do not start with
/// a space.
pub open spec fn is_norm_tail(s: Seq<char>) -> bool {
    &&& forall|i: int|
        0 <= i < s.len() ==> upper_char(#[trigger] s[i]) == s[i] && (is_space(s[i]) ==> s[i]
            == ' ')
    &&& forall|i: int| 0 <= i < s.len() - 1 ==> !(#[trigger] s[i] == ' ' && s[i + 1] == ' ')
    &&& (s.len() > 0 ==> s[s.len() - 1] != ' ')
}

/// A sequence is normal when it is tail-normal and does not start with a
/// space: exactly the possible outputs of normalization.
pub open spec fn is_normalized(s: Seq<char>) -> bool {
    is_norm_tail(s) && (s.len() > 0 ==> s[0] != ' ')
}

/// Running the machine over `a + b` first consumes `a`, then `b` from the
/// state that `a` leaves behind.
pub proof fn lemma_norm_from_append(a: Seq<char>, b: Seq<char>, st: int)
    ensures
        norm_from(a + b, st) == norm_from(a, st) + norm_from(b, norm_state(a, st)),
        norm_state(a + b, st) == norm_state(b, norm_state(a, st)),
    decreases a.len(),
{
    if a.len() == 0 {
        assert(a + b =~= b);
        assert(norm_from(a, st) + norm_from(b, norm_state(a, st)) =~= norm_from(b, st));
    } else {
        assert((a + b)[0] == a[0]);
        assert((a + b).skip(1) =~= a.skip(1) + b);
        lemma_norm_from_append(a.skip(1), b, norm_step(st, a[0]));
        assert(norm_from(a + b, st) =~= norm_from(a, st) + norm_from(
            b,
            norm_state(a, st),
        ));
    }
}

/// Whatever the starting state, the machine's output is tail-normal, and
/// from the initial state it does not start with a space.
pub proof fn lemma_norm_from_shape(s: Seq<char>, st: int)
    ensures
        is_norm_tail(norm_from(s, st)),
        st == 0 && norm_from(s, st).len() > 0 ==> norm_from(s, st)[0] != ' ',
    decreases s.len(),
{
    if s.len() == 0 {
    } else {
        let c = s[0];
        let st2 = norm_step(st, c);
        let rest = norm_from(s.skip(1), st2);
        lemma_norm_from_shape(s.skip(1), st2);
        if is_space(c) {
            assert(norm_from(s, st) =~= rest);
        } else {
            let u = upper_char(c);
            assert(!is_space(u));
            assert(upper_char(u) == u);
            if st == 2 {
                let r = seq![' ', u] + rest;
                assert(norm_from(s, st) =~= r);
                assert forall|i: int| 0 <= i < r.len() - 1 implies !(#[trigger] r[i] == ' ' && r[i
                    + 1] == ' ') by {
                    if i >= 2 {
                        assert(r[i] == rest[i - 2] && r[i + 1] == rest[i - 1]);
                    }
                }
                assert(is_norm_tail(r));
            } else {
                let r = seq![u] + rest;
                assert(norm_from(s, st) =~= r);
                assert forall|i: int| 0 <= i < r.len() - 1 implies !(#[trigger] r[i] == ' ' && r[i
                    + 1] == ' ') by {
                    if i >= 1 {
                        assert(r[i] == rest[i - 1] && r[i + 1] == rest[i]);
                    }
                }
                assert(is_norm_tail(r));
            }
        }
    }
}

/// Running the machine over a sequence that is already in the shape it
/// produces reproduces that sequence exactly.
proof fn lemma_norm_from_fixed(s: Seq<char>, st: int)
    requires
        is_norm_tail(s),
        st == 0 || st == 1 || st == 2,
        st == 0 ==> (s.len() > 0 ==> s[0] != ' '),
    ensures
        st != 2 ==> norm_from(s, st) == s,
        st == 2 && s.len() == 0 ==> norm_from(s, st) == s,
        st == 2 && s.len() > 0 && s[0] == ' ' ==> norm_from(s, st) == s,
        st == 2 && s.len() > 0 && s[0] != ' ' ==> norm_from(s, st) == seq![' '] + s,
    decreases s.len(),
{
    if s.len() == 0 {
    } else {
        let c = s[0];
        let tail = s.skip(1);
        assert(is_norm_tail(tail)) by {
            assert(forall|i: int|
                0 <= i < tail.len() ==> #[trigger] tail[i] == s[i + 1]);
        }
        if is_space(c) {
            assert(c == ' ');
            // No trailing and no doubled space: a space is followed by a
            // non-space character.
            assert(s.len() >= 2 && s[1] != ' ');
            assert(tail[0] != ' ');
            if st == 0 {
                assert(false);
            } else {
                lemma_norm_from_fixed(tail, 2);
                assert(norm_from(s, st) =~= seq![' '] + tail);
                assert(seq![' '] + tail =~= s);
            }
        } else {
            assert(upper_char(c) == c);
            lemma_norm_from_fixed(tail, 1);
            if st == 2 {
                assert(norm_from(s, st) =~= seq![' ', c] + tail);
                assert(seq![' ', c] + tail =~= seq![' '] + s);
            } else {
                assert(norm_from(s, st) =~= seq![c] + tail);
                assert(seq![c] + tail =~= s);
            }
        }
    }
}

/// Normalization is idempotent: normalizing an already normalized text
/// changes nothing.
pub proof fn lemma_normalize_idempotent(s: Seq<char>)
    ensures
        normalize_spec(normalize_spec(s)) == normalize_spec(s),
{
    lemma_norm_from_shape(s, 0);
    lemma_norm_from_fixed(normalize_spec(s), 0);
}

/// Normalization is case-insensitive: folding the input to uppercase first
/// does not change the normalized form.
pub proof fn lemma_normalize_case_insensitive(s: Seq<char>)
    ensures
        normalize_spec(upper_seq(s)) == normalize_spec(s),
{
    lemma_norm_from_upper(s, 0);
}

/// The machine treats a character and its uppercase fold alike.
proof fn lemma_norm_from_upper(s: Seq<char>, st: int)
    ensures
        norm_from(upper_seq(s), st) == norm_from(s, st),
        norm_state(upper_seq(s), st) == norm_state(s, st),
    decreases s.len(),
{
    if s.len() == 0 {
        assert(upper_seq(s) =~= Seq::<char>::empty());
    } else {
        let c = s[0];
        let u = upper_char(c);
        assert(upper_seq(s)[0] == u);
        assert(upper_char(u) == u);
        assert(is_space(u) == is_space(c));
        assert(upper_seq(s).skip(1) =~= upper_seq(s.skip(1)));
        lemma_norm_from_upper(s.skip(1), norm_step(st, c));
        assert(norm_emit(st, u) =~= norm_emit(st, c));
    }
}

/// The machine never emits more characters than it consumes, except for
/// the single pending separator of state 2.
pub proof fn lemma_norm_from_len(s: Seq<char>, st: int)
    ensures
        norm_from(s, st).len() <= s.len() + if st == 2 {
            1int
        } else {
            0int
        },
    decreases s.len(),
{
    if s.len() == 0 {
    } else {
        lemma_norm_from_len(s.skip(1), norm_step(st, s[0]));
    }
}

/// A normalized text is never longer than the raw text.
pub proof fn lemma_normalize_len(s: Seq<char>)
    ensures
        normalize_spec(s).len() <= s.len(),
{
    lemma_norm_from_len(s, 0);
}

/// Executable test for the whitespace class of `is_space`.
pub fn is_space_exec(c: char) -> (r: bool)
    ensures
        r == is_space(c),
{
    c == ' ' || c == '\t' || c == '\n' || c == '\r'
}

/// Uppercase folding of a whole character vector.
pub fn upper_vec(v: &Vec<char>) -> (r: Vec<char>)
    ensures
        r@ == upper_seq(v@),
{
    let mut r: Vec<char> = Vec::new();
    let mut i: usize = 0;
    while i < v.len()
        invariant
            i <= v@.len(),
            r@ == upper_seq(v@).take(i as int),
        decreases v@.len() - i,
    {
        r.push(upper_char_exec(v[i]));
        proof {
            assert(upper_seq(v@).take(i + 1 as int) =~= upper_seq(v@).take(i as int).push(
                upper_seq(v@)[i as int],
            ));
        }
        i = i + 1;
    }
    proof {
        assert(upper_seq(v@).take(v@.len() as int) =~= upper_seq(v@));
    }
    r
}

/// The normalized form of a text as a character vector: uppercase, with
/// whitespace runs collapsed to single spaces and no leading or trailing
/// whitespace.
pub fn normalize_chars(text: &str) -> (v: Vec<char>)
    ensures
        v@ == normalize_spec(text@),
{
    let chars = crate::strings::to_chars(text);
    let n = chars.len();
    let mut out: Vec<char> = Vec::new();
    let mut st: u8 = 0;
    let mut i: usize = 0;
    while i < n
        invariant
            i <= n,
            n == chars@.len(),
            chars@ == text@,
            st == norm_state(text@.take(i as int), 0),
            st == 0 || st == 1 || st == 2,
            out@ == norm_from(text@.take(i as int), 0),
        decreases n - i,
    {
        let c = chars[i];
        proof {
            let a = text@.take(i as int);
            let b = seq![c];
            assert(text@.take(i + 1 as int) =~= a + b);
            lemma_norm_from_append(a, b, 0);
            assert(b.len() == 1 && b[0] == c);
            assert(b.skip(1) =~= Seq::<char>::empty());
            assert(norm_from(b, st as int) == norm_emit(st as int, b[0]) + norm_from(
                b.skip(1),
                norm_step(st as int, b[0]),
            ));
            assert(norm_from(b, st as int) =~= norm_emit(st as int, c));
            assert(norm_state(b, st as int) == norm_state(
                b.skip(1),
                norm_step(st as int, b[0]),
            ));
            assert(norm_state(b, st as int) == norm_step(st as int, c));
        }
        if is_space_exec(c) {
            if st != 0 {
                st = 2;
            }
        } else {
            let u = upper_char_exec(c);
            if st == 2 {
                out.push(' ');
                proof {
                    assert(out@ =~= norm_from(text@.take(i as int), 0) + seq![' ', u].take(1));
                }
            }
            out.push(u);
            proof {
                assert(out@ =~= norm_from(text@.take(i + 1 as int), 0));
            }
            st = 1;
        }
        i = i + 1;
    }
    proof {
        assert(text@.take(n as int) =~= text@);
    }
    out
}

/// Uppercase folding of a whole string.
pub fn upper_string(text: &str) -> (r: String)
    ensures
        r@ == upper_seq(text@),
{
    let v = crate::strings::to_chars(text);
    let u = upper_vec(&v);
    crate::strings::chars_to_string(&u)
}

/// Normalize a text for comparison: uppercase it, collapse every whitespace
/// run to a single space, and trim leading and trailing whitespace. Total:
/// empty input yields empty output.
pub fn normalize_text(text: &str) -> (r: String)
    ensures
        r@ == normalize_spec(text@),
{
    let v = normalize_chars(text);
    crate::strings::chars_to_string(&v)
}

} // verus!
