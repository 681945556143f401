//! Grading logic for test submissions: the prosign-aware copy-text matching
//! engine and the multiple-choice question grader.
//!
//! The matching engine normalizes both texts, locates every occurrence of
//! every known prosign in the normalized reference, and then searches all
//! alignments of the two texts for the longest run of consecutively
//! matching characters, where a prosign position in the reference may be
//! matched either by the prosign token itself or by its printable
//! alternate.

use vstd::prelude::*;

use crate::normalize::normalize_spec;
use crate::normalize::upper_seq;
use crate::normalize::lemma_norm_from_append;
use crate::normalize::lemma_normalize_len;
use crate::normalize::normalize_chars;
use crate::strings::to_chars;

verus! {

/// Mathematical model of one prosign occurrence in the normalized
/// reference text.
pub struct Occurrence {
    /// Index into the normalized reference where the prosign token starts.
    pub pos: int,
    /// Length of the prosign token in the reference.
    pub token_len: int,
    /// The uppercased prosign token itself, tried first.
    pub primary: Seq<char>,
    /// The uppercased printable alternate, tried second.
    pub alternate: Seq<char>,
}

/// One prosign occurrence as the search consumes it: where the token
/// starts in the normalized reference, how long it is there, and the two
/// uppercased spellings a submission may use for it.
pub struct ProsignOccurrence {
    pub position: usize,
    pub token_len: usize,
    pub primary: Vec<char>,
    pub alternate: Vec<char>,
}

impl View for ProsignOccurrence {
    type V = Occurrence;

    open spec fn view(&self) -> Occurrence {
        Occurrence {
            pos: self.position as int,
            token_len: self.token_len as int,
            primary: self.primary@,
            alternate: self.alternate@,
        }
    }
}

/// The models of a vector of occurrences, in order.
pub open spec fn occs_view(v: Seq<ProsignOccurrence>) -> Seq<Occurrence> {
    Seq::new(v.len(), |i: int| v[i]@)
}

/// The mathematical view of a prosign table: each pair of strings as a
/// pair of character sequences.
pub open spec fn table_view(t: Seq<(String, String)>) -> Seq<(Seq<char>, Seq<char>)> {
    Seq::new(t.len(), |i: int| (t[i].0@, t[i].1@))
}

/// The pattern occurs in the text starting exactly at position `p`.
pub open spec fn matches_at(text: Seq<char>, p: int, pat: Seq<char>) -> bool {
    0 <= p && p + pat.len() <= text.len() && text.subrange(p, p + pat.len()) == pat
}

/// The occurrence recorded for table entry `j` matching at position `p`:
/// both spellings are uppercased, and the token length is the prosign's.
pub open spec fn occurrence_of(table: Seq<(Seq<char>, Seq<char>)>, j: int, p: int) -> Occurrence {
    Occurrence {
        pos: p,
        token_len: table[j].0.len() as int,
        primary: upper_seq(table[j].0),
        alternate: upper_seq(table[j].1),
    }
}

/// Whether table entry `j` has a prosign occurrence at position `p` of the
/// text: comparison is on the uppercased forms of both.
pub open spec fn entry_matches_at(
    text: Seq<char>,
    table: Seq<(Seq<char>, Seq<char>)>,
    j: int,
    p: int,
) -> bool {
    matches_at(upper_seq(text), p, upper_seq(table[j].0))
}

/// The occurrences at position `p` contributed by the first `j` table
/// entries, in table order.
pub open spec fn occs_at_upto(
    text: Seq<char>,
    table: Seq<(Seq<char>, Seq<char>)>,
    p: int,
    j: int,
) -> Seq<Occurrence>
    decreases j,
{
    if j <= 0 {
        Seq::<Occurrence>::empty()
    } else {
        occs_at_upto(text, table, p, j - 1) + if entry_matches_at(text, table, j - 1, p) {
            seq![occurrence_of(table, j - 1, p)]
        } else {
            Seq::<Occurrence>::empty()
        }
    }
}

/// All occurrences at position `p`, in table order.
pub open spec fn occs_at(text: Seq<char>, table: Seq<(Seq<char>, Seq<char>)>, p: int) -> Seq<
    Occurrence,
> {
    occs_at_upto(text, table, p, table.len() as int)
}

/// All occurrences at positions before `n`, position-major and in table
/// order within one position. This is exactly the per-entry scan sorted by
/// position ascending, with entries at equal positions kept in table
/// order.
pub open spec fn occs_up_to(text: Seq<char>, table: Seq<(Seq<char>, Seq<char>)>, n: int) -> Seq<
    Occurrence,
>
    decreases n,
{
    if n <= 0 {
        Seq::<Occurrence>::empty()
    } else {
        occs_up_to(text, table, n - 1) + occs_at(text, table, n - 1)
    }
}

/// Every prosign occurrence of every table entry in the text, sorted by
/// position ascending; ties at one position keep table order.
pub open spec fn prosign_occurrences(text: Seq<char>, table: Seq<(Seq<char>, Seq<char>)>) -> Seq<
    Occurrence,
> {
    occs_up_to(text, table, text.len() as int)
}

/// The first occurrence in the list whose position is exactly `p`, by
/// linear scan from the front. With the sorted, table-ordered occurrence
/// list this makes table order the tie-break when several entries match at
/// one position.
pub open spec fn first_occ_at(occs: Seq<Occurrence>, p: int) -> Option<Occurrence>
    decreases occs.len(),
{
    if occs.len() == 0 {
        None
    } else if occs[0].pos == p {
        Some(occs[0])
    } else {
        first_occ_at(occs.skip(1), p)
    }
}

/// Every occurrence in the list has a token of at least one character.
/// The locator guarantees this whenever every table prosign is non-empty.
pub open spec fn occs_wf(occs: Seq<Occurrence>) -> bool {
    forall|i: int| 0 <= i < occs.len() ==> (#[trigger] occs[i]).token_len >= 1
}

/// How far the measure of the matching loop still reaches: the part of the
/// reference at or after the current position.
pub open spec fn exp_remaining(exp: Seq<char>, ep: int) -> int {
    if ep <= exp.len() {
        exp.len() - ep
    } else {
        0
    }
}

/// The number of consecutively matching characters when the submission is
/// read from `up` and the reference from `ep`. At a prosign position the
/// two recorded spellings are tried in order; the first that fits and
/// matches advances the submission by its own length and the reference by
/// the prosign token's length. Anywhere else the two current characters
/// must be equal. The count is the number of submission characters
/// consumed.
pub open spec fn count_from(
    user: Seq<char>,
    up: int,
    exp: Seq<char>,
    ep: int,
    occs: Seq<Occurrence>,
) -> nat
    decreases exp_remaining(exp, ep),
{
    if !(0 <= up < user.len() && 0 <= ep < exp.len()) {
        0
    } else {
        match first_occ_at(occs, ep) {
            Some(occ) => {
                if occ.token_len < 1 {
                    // Never produced by the locator for non-empty prosigns;
                    // ends the run so that the recursion is well founded.
                    0
                } else if matches_at(user, up, occ.primary) {
                    (occ.primary.len() + count_from(
                        user,
                        up + occ.primary.len(),
                        exp,
                        ep + occ.token_len,
                        occs,
                    )) as nat
                } else if matches_at(user, up, occ.alternate) {
                    (occ.alternate.len() + count_from(
                        user,
                        up + occ.alternate.len(),
                        exp,
                        ep + occ.token_len,
                        occs,
                    )) as nat
                } else {
                    0
                }
            },
            None => {
                if user[up] == exp[ep] {
                    1 + count_from(user, up + 1, exp, ep + 1, occs)
                } else {
                    0
                }
            },
        }
    }
}

/// A run never counts more characters than the submission holds after its
/// start.
pub proof fn lemma_count_from_le(
    user: Seq<char>,
    up: int,
    exp: Seq<char>,
    ep: int,
    occs: Seq<Occurrence>,
)
    requires
        0 <= up <= user.len(),
    ensures
        up + count_from(user, up, exp, ep, occs) <= user.len(),
    decreases exp_remaining(exp, ep),
{
    if !(0 <= up < user.len() && 0 <= ep < exp.len()) {
    } else {
        match first_occ_at(occs, ep) {
            Some(occ) => {
                if occ.token_len < 1 {
                } else if matches_at(user, up, occ.primary) {
                    lemma_count_from_le(user, up + occ.primary.len(), exp, ep + occ.token_len, occs);
                } else if matches_at(user, up, occ.alternate) {
                    lemma_count_from_le(
                        user,
                        up + occ.alternate.len(),
                        exp,
                        ep + occ.token_len,
                        occs,
                    );
                } else {
                }
            },
            None => {
                if user[up] == exp[ep] {
                    lemma_count_from_le(user, up + 1, exp, ep + 1, occs);
                }
            },
        }
    }
}

/// Executable test whether `pat` occurs in `text` starting at `p`.
pub(crate) fn match_at_exec(text: &Vec<char>, p: usize, pat: &Vec<char>) -> (b: bool)
    ensures
        b == matches_at(text@, p as int, pat@),
{
    let tlen = text.len();
    let plen = pat.len();
    if plen > tlen || p > tlen - plen {
        return false;
    }
    let mut k: usize = 0;
    while k < plen
        invariant
            tlen == text@.len(),
            plen == pat@.len(),
            p + pat@.len() <= text@.len(),
            k <= pat@.len(),
            forall|m: int| 0 <= m < k ==> text@[p + m] == pat@[m],
        decreases pat@.len() - k,
    {
        if text[p + k] != pat[k] {
            proof {
                assert(text@.subrange(p as int, p + pat@.len())[k as int] == text@[p + k]);
            }
            return false;
        }
        k = k + 1;
    }
    proof {
        assert(text@.subrange(p as int, p + pat@.len()) =~= pat@);
    }
    true
}

/// A fresh copy of a character vector.
fn copy_chars(v: &Vec<char>) -> (r: Vec<char>)
    ensures
        r@ == v@,
{
    let mut r: Vec<char> = Vec::new();
    let mut i: usize = 0;
    while i < v.len()
        invariant
            i <= v@.len(),
            r@ == v@.take(i as int),
        decreases v@.len() - i,
    {
        r.push(v[i]);
        proof {
            assert(v@.take(i + 1 as int) =~= v@.take(i as int).push(v@[i as int]));
        }
        i = i + 1;
    }
    proof {
        assert(v@.take(v@.len() as int) =~= v@);
    }
    r
}

/// Locate every occurrence of every table prosign in the given text, as a
/// character vector. The result is sorted by position ascending; several
/// table entries matching at one position appear there in table order.
pub fn find_prosigns_chars(text: &Vec<char>, mappings: &[(String, String)]) -> (r: Vec<
    ProsignOccurrence,
>)
    ensures
        occs_view(r@) == prosign_occurrences(text@, table_view(mappings@)),
{
    let ghost tbl = table_view(mappings@);
    let tu = crate::normalize::upper_vec(text);
    // Uppercase both members of every mapping once, up front.
    let mut ups: Vec<(Vec<char>, Vec<char>)> = Vec::new();
    let mut j: usize = 0;
    while j < mappings.len()
        invariant
            j <= mappings@.len(),
            ups@.len() == j,
            forall|k: int|
                0 <= k < j ==> (#[trigger] ups@[k]).0@ == upper_seq(mappings@[k].0@) && ups@[k].1@
                    == upper_seq(mappings@[k].1@),
        decreases mappings@.len() - j,
    {
        let p0 = to_chars(mappings[j].0.as_str());
        let pu = crate::normalize::upper_vec(&p0);
        let a0 = to_chars(mappings[j].1.as_str());
        let au = crate::normalize::upper_vec(&a0);
        ups.push((pu, au));
        j = j + 1;
    }
    let n = text.len();
    let mut out: Vec<ProsignOccurrence> = Vec::new();
    let mut p: usize = 0;
    while p < n
        invariant
            p <= n,
            n == text@.len(),
            tbl == table_view(mappings@),
            tu@ == upper_seq(text@),
            ups@.len() == mappings@.len(),
            forall|k: int|
                0 <= k < ups@.len() ==> (#[trigger] ups@[k]).0@ == upper_seq(mappings@[k].0@)
                    && ups@[k].1@ == upper_seq(mappings@[k].1@),
            occs_view(out@) == occs_up_to(text@, tbl, p as int),
        decreases n - p,
    {
        let mut j: usize = 0;
        while j < ups.len()
            invariant
                p < n,
                n == text@.len(),
                j <= ups@.len(),
                tbl == table_view(mappings@),
                tu@ == upper_seq(text@),
                ups@.len() == mappings@.len(),
                forall|k: int|
                    0 <= k < ups@.len() ==> (#[trigger] ups@[k]).0@ == upper_seq(mappings@[k].0@)
                        && ups@[k].1@ == upper_seq(mappings@[k].1@),
                occs_view(out@) == occs_up_to(text@, tbl, p as int) + occs_at_upto(
                    text@,
                    tbl,
                    p as int,
                    j as int,
                ),
            decreases ups@.len() - j,
        {
            let ghost before = occs_view(out@);
            if match_at_exec(&tu, p, &ups[j].0) {
                let occ = ProsignOccurrence {
                    position: p,
                    token_len: ups[j].0.len(),
                    primary: copy_chars(&ups[j].0),
                    alternate: copy_chars(&ups[j].1),
                };
                proof {
                    assert(tbl[j as int].0 == mappings@[j as int].0@);
                    assert(upper_seq(tbl[j as int].0).len() == tbl[j as int].0.len());
                    assert(occ@ == occurrence_of(tbl, j as int, p as int));
                    assert(entry_matches_at(text@, tbl, j as int, p as int));
                }
                out.push(occ);
                proof {
                    assert(occs_view(out@) =~= before + seq![occurrence_of(tbl, j as int, p as int)]);
                    assert(occs_view(out@) =~= occs_up_to(text@, tbl, p as int) + occs_at_upto(
                        text@,
                        tbl,
                        p as int,
                        j + 1 as int,
                    ));
                }
            } else {
                proof {
                    assert(!entry_matches_at(text@, tbl, j as int, p as int));
                    assert(occs_view(out@) =~= occs_up_to(text@, tbl, p as int) + occs_at_upto(
                        text@,
                        tbl,
                        p as int,
                        j + 1 as int,
                    ));
                }
            }
            j = j + 1;
        }
        proof {
            assert(occs_at_upto(text@, tbl, p as int, mappings@.len() as int) == occs_at(
                text@,
                tbl,
                p as int,
            ));
            assert(occs_view(out@) =~= occs_up_to(text@, tbl, p + 1 as int));
        }
        p = p + 1;
    }
    out
}

/// Skipping entries whose position differs does not change which
/// occurrence the linear scan finds first.
proof fn lemma_first_occ_at_skip(occs: Seq<Occurrence>, p: int, k: int)
    requires
        0 <= k <= occs.len(),
        forall|m: int| 0 <= m < k ==> (#[trigger] occs[m]).pos != p,
    ensures
        first_occ_at(occs, p) == first_occ_at(occs.skip(k), p),
    decreases k,
{
    if k > 0 {
        assert(occs[0].pos != p);
        lemma_first_occ_at_skip(occs.skip(1), p, k - 1);
        assert(occs.skip(1).skip(k - 1) =~= occs.skip(k));
    } else {
        assert(occs.skip(0) =~= occs);
    }
}

/// The index of the first occurrence in the list whose position is `pos`,
/// by linear scan, if there is one.
fn find_occ_at(occs: &Vec<ProsignOccurrence>, pos: usize) -> (r: Option<usize>)
    ensures
        match r {
            Some(i) => i < occs@.len() && occs@[i as int]@.pos == pos && first_occ_at(
                occs_view(occs@),
                pos as int,
            ) == Some(occs@[i as int]@),
            None => first_occ_at(occs_view(occs@), pos as int) is None,
        },
{
    let ghost model = occs_view(occs@);
    let mut i: usize = 0;
    while i < occs.len()
        invariant
            i <= occs@.len(),
            model == occs_view(occs@),
            forall|m: int| 0 <= m < i ==> (#[trigger] model[m]).pos != pos,
        decreases occs@.len() - i,
    {
        if occs[i].position == pos {
            proof {
                lemma_first_occ_at_skip(model, pos as int, i as int);
                assert(model.skip(i as int)[0] == model[i as int]);
            }
            return Some(i);
        }
        i = i + 1;
    }
    proof {
        lemma_first_occ_at_skip(model, pos as int, occs@.len() as int);
        assert(model.skip(model.len() as int) =~= Seq::<Occurrence>::empty());
    }
    None
}

/// Count consecutive matching characters when the submission is read from
/// `user_start` and the reference from `exp_start`. The count is the
/// number of submission characters consumed; a prosign position is matched
/// by whichever of its two spellings fits and matches first, and a
/// mismatch, a failed prosign, or either text running out ends the run.
pub fn count_consecutive_matches(
    user_chars: &Vec<char>,
    user_start: usize,
    expected_chars: &Vec<char>,
    exp_start: usize,
    prosigns: &Vec<ProsignOccurrence>,
) -> (r: usize)
    requires
        occs_wf(occs_view(prosigns@)),
    ensures
        r == count_from(
            user_chars@,
            user_start as int,
            expected_chars@,
            exp_start as int,
            occs_view(prosigns@),
        ),
        user_start + r <= user_chars@.len() || r == 0,
{
    let ghost occs = occs_view(prosigns@);
    let ghost total = count_from(user_chars@, user_start as int, expected_chars@, exp_start as int, occs);
    let ulen = user_chars.len();
    let elen = expected_chars.len();
    if user_start >= ulen || exp_start >= elen {
        return 0;
    }
    let mut count: usize = 0;
    let mut user_pos = user_start;
    let mut exp_pos = exp_start;
    while user_pos < ulen && exp_pos < elen
        invariant
            ulen == user_chars@.len(),
            elen == expected_chars@.len(),
            occs == occs_view(prosigns@),
            occs_wf(occs),
            user_start <= user_pos <= ulen,
            exp_start <= exp_pos,
            count == user_pos - user_start,
            total == count_from(
                user_chars@,
                user_start as int,
                expected_chars@,
                exp_start as int,
                occs,
            ),
            total == count + count_from(user_chars@, user_pos as int, expected_chars@, exp_pos as int, occs),
        decreases elen - exp_pos,
    {
        match find_occ_at(prosigns, exp_pos) {
            Some(idx) => {
                let token_len = prosigns[idx].token_len;
                proof {
                    assert(first_occ_at(occs, exp_pos as int) == Some(prosigns@[idx as int]@));
                    assert(occs[idx as int] == prosigns@[idx as int]@);
                    assert(token_len >= 1);
                }
                let advanced: usize;
                if match_at_exec(user_chars, user_pos, &prosigns[idx].primary) {
                    advanced = prosigns[idx].primary.len();
                } else if match_at_exec(user_chars, user_pos, &prosigns[idx].alternate) {
                    advanced = prosigns[idx].alternate.len();
                } else {
                    proof {
                        assert(count_from(
                            user_chars@,
                            user_pos as int,
                            expected_chars@,
                            exp_pos as int,
                            occs,
                        ) == 0);
                    }
                    return count;
                }
                count = count + advanced;
                user_pos = user_pos + advanced;
                if token_len <= elen - exp_pos {
                    exp_pos = exp_pos + token_len;
                } else {
                    proof {
                        assert(count_from(
                            user_chars@,
                            user_pos as int,
                            expected_chars@,
                            exp_pos + token_len,
                            occs,
                        ) == 0);
                        assert(count_from(
                            user_chars@,
                            user_pos as int,
                            expected_chars@,
                            elen as int,
                            occs,
                        ) == 0);
                    }
                    exp_pos = elen;
                }
            },
            None => {
                if user_chars[user_pos] == expected_chars[exp_pos] {
                    count = count + 1;
                    user_pos = user_pos + 1;
                    exp_pos = exp_pos + 1;
                } else {
                    proof {
                        assert(count_from(
                            user_chars@,
                            user_pos as int,
                            expected_chars@,
                            exp_pos as int,
                            occs,
                        ) == 0);
                    }
                    return count;
                }
            },
        }
    }
    proof {
        assert(count_from(user_chars@, user_pos as int, expected_chars@, exp_pos as int, occs) == 0);
    }
    count
}

/// The larger of two counts.
pub open spec fn nat_max(a: nat, b: nat) -> nat {
    if a > b {
        a
    } else {
        b
    }
}

/// The best count over submission start offsets below `n`, with the
/// reference start fixed at `ep`.
pub open spec fn best_user_from(
    user: Seq<char>,
    exp: Seq<char>,
    occs: Seq<Occurrence>,
    ep: int,
    n: int,
) -> nat
    decreases n,
{
    if n <= 0 {
        0
    } else {
        nat_max(
            best_user_from(user, exp, occs, ep, n - 1),
            count_from(user, n - 1, exp, ep, occs),
        )
    }
}

/// The best count over reference start offsets below `m` and all
/// submission start offsets.
pub open spec fn best_from(user: Seq<char>, exp: Seq<char>, occs: Seq<Occurrence>, m: int) -> nat
    decreases m,
{
    if m <= 0 {
        0
    } else {
        nat_max(
            best_from(user, exp, occs, m - 1),
            best_user_from(user, exp, occs, m - 1, user.len() as int),
        )
    }
}

/// The best count over every alignment of the two texts: every reference
/// start offset against every submission start offset.
pub open spec fn search_best(user: Seq<char>, exp: Seq<char>, occs: Seq<Occurrence>) -> nat {
    best_from(user, exp, occs, exp.len() as int)
}

/// The longest run of consecutively correct characters, over raw inputs:
/// normalize both texts, locate the prosigns of the table in the
/// normalized reference, and search every alignment. Zero whenever either
/// normalized text is empty.
pub open spec fn consecutive_correct(
    user: Seq<char>,
    expected: Seq<char>,
    table: Seq<(Seq<char>, Seq<char>)>,
) -> nat {
    let un = normalize_spec(user);
    let en = normalize_spec(expected);
    if un.len() == 0 || en.len() == 0 {
        0
    } else {
        search_best(un, en, prosign_occurrences(en, table))
    }
}

proof fn lemma_best_user_from_bounds(
    user: Seq<char>,
    exp: Seq<char>,
    occs: Seq<Occurrence>,
    ep: int,
    n: int,
)
    ensures
        forall|u: int|
            0 <= u < n ==> count_from(user, u, exp, ep, occs) <= best_user_from(
                user,
                exp,
                occs,
                ep,
                n,
            ),
        best_user_from(user, exp, occs, ep, n) == 0 || exists|u: int|
            0 <= u < n && count_from(user, u, exp, ep, occs) == best_user_from(
                user,
                exp,
                occs,
                ep,
                n,
            ),
    decreases n,
{
    if n > 0 {
        lemma_best_user_from_bounds(user, exp, occs, ep, n - 1);
        lemma_best_user_from_mono_n(user, exp, occs, ep, n - 1, n);
    }
}

proof fn lemma_best_from_bounds(user: Seq<char>, exp: Seq<char>, occs: Seq<Occurrence>, m: int)
    ensures
        forall|e: int, u: int|
            0 <= e < m && 0 <= u < user.len() ==> count_from(user, u, exp, e, occs) <= best_from(
                user,
                exp,
                occs,
                m,
            ),
        best_from(user, exp, occs, m) == 0 || exists|e: int, u: int|
            0 <= e < m && 0 <= u < user.len() && count_from(user, u, exp, e, occs) == best_from(
                user,
                exp,
                occs,
                m,
            ),
    decreases m,
{
    if m > 0 {
        lemma_best_from_bounds(user, exp, occs, m - 1);
        lemma_best_user_from_bounds(user, exp, occs, m - 1, user.len() as int);
        assert forall|e: int, u: int|
            0 <= e < m && 0 <= u < user.len() implies count_from(user, u, exp, e, occs)
            <= best_from(user, exp, occs, m) by {
            if e < m - 1 {
                assert(count_from(user, u, exp, e, occs) <= best_from(user, exp, occs, m - 1));
            } else {
                assert(count_from(user, u, exp, e, occs) <= best_user_from(
                    user,
                    exp,
                    occs,
                    m - 1,
                    user.len() as int,
                ));
            }
        }
    }
}

/// The search result is exactly the maximum count over every alignment:
/// no alignment beats it, and unless it is zero some alignment attains it.
pub proof fn lemma_search_best_is_max(user: Seq<char>, exp: Seq<char>, occs: Seq<Occurrence>)
    ensures
        forall|e: int, u: int|
            0 <= e < exp.len() && 0 <= u < user.len() ==> count_from(user, u, exp, e, occs)
                <= search_best(user, exp, occs),
        search_best(user, exp, occs) == 0 || exists|e: int, u: int|
            0 <= e < exp.len() && 0 <= u < user.len() && count_from(user, u, exp, e, occs)
                == search_best(user, exp, occs),
{
    lemma_best_from_bounds(user, exp, occs, exp.len() as int);
}

/// Every occurrence that the locator records at position `p` carries
/// exactly that position.
proof fn lemma_occs_at_upto_pos(text: Seq<char>, table: Seq<(Seq<char>, Seq<char>)>, p: int, j: int)
    ensures
        forall|i: int|
            0 <= i < occs_at_upto(text, table, p, j).len() ==> (#[trigger] occs_at_upto(
                text,
                table,
                p,
                j,
            )[i]).pos == p,
    decreases j,
{
    if j > 0 {
        lemma_occs_at_upto_pos(text, table, p, j - 1);
        let prev = occs_at_upto(text, table, p, j - 1);
        let whole = occs_at_upto(text, table, p, j);
        assert forall|i: int| 0 <= i < whole.len() implies (#[trigger] whole[i]).pos == p by {
            if i < prev.len() {
                assert(whole[i] == prev[i]);
            }
        }
    }
}

/// Every recorded occurrence lies inside the text, and positions never
/// decrease along the list: the locator's output is sorted by position.
pub proof fn lemma_occurrences_sorted(text: Seq<char>, table: Seq<(Seq<char>, Seq<char>)>)
    ensures
        forall|i: int|
            0 <= i < prosign_occurrences(text, table).len() ==> 0 <= (#[trigger] prosign_occurrences(
                text,
                table,
            )[i]).pos < text.len(),
        forall|i: int, j: int|
            0 <= i <= j < prosign_occurrences(text, table).len() ==> (#[trigger] prosign_occurrences(
                text,
                table,
            )[i]).pos <= (#[trigger] prosign_occurrences(text, table)[j]).pos,
{
    lemma_occs_up_to_sorted(text, table, text.len() as int);
}

proof fn lemma_occs_up_to_sorted(text: Seq<char>, table: Seq<(Seq<char>, Seq<char>)>, n: int)
    ensures
        forall|i: int|
            0 <= i < occs_up_to(text, table, n).len() ==> 0 <= (#[trigger] occs_up_to(
                text,
                table,
                n,
            )[i]).pos < n,
        forall|i: int, j: int|
            0 <= i <= j < occs_up_to(text, table, n).len() ==> (#[trigger] occs_up_to(
                text,
                table,
                n,
            )[i]).pos <= (#[trigger] occs_up_to(text, table, n)[j]).pos,
    decreases n,
{
    if n > 0 {
        lemma_occs_up_to_sorted(text, table, n - 1);
        lemma_occs_at_upto_pos(text, table, n - 1, table.len() as int);
        let prev = occs_up_to(text, table, n - 1);
        let here = occs_at(text, table, n - 1);
        let whole = occs_up_to(text, table, n);
        assert forall|i: int| 0 <= i < whole.len() implies 0 <= (#[trigger] whole[i]).pos < n by {
            if i < prev.len() {
                assert(whole[i] == prev[i]);
            } else {
                assert(whole[i] == here[i - prev.len()]);
            }
        }
        assert forall|i: int, j: int| 0 <= i <= j < whole.len() implies (#[trigger] whole[i]).pos
            <= (#[trigger] whole[j]).pos by {
            if i < prev.len() {
                assert(whole[i] == prev[i]);
            } else {
                assert(whole[i] == here[i - prev.len()]);
            }
            if j < prev.len() {
                assert(whole[j] == prev[j]);
            } else {
                assert(whole[j] == here[j - prev.len()]);
            }
        }
    }
}

/// Concatenating well-formed occurrence lists keeps them well formed.
proof fn lemma_occs_wf_concat(a: Seq<Occurrence>, b: Seq<Occurrence>)
    requires
        occs_wf(a),
        occs_wf(b),
    ensures
        occs_wf(a + b),
{
    assert forall|i: int| 0 <= i < (a + b).len() implies (#[trigger] (a + b)[i]).token_len >= 1 by {
        if i < a.len() {
            assert((a + b)[i] == a[i]);
        } else {
            assert((a + b)[i] == b[i - a.len()]);
        }
    }
}

/// Occurrences recorded for a table of non-empty prosigns all have tokens
/// of at least one character.
pub proof fn lemma_occurrences_wf(text: Seq<char>, table: Seq<(Seq<char>, Seq<char>)>)
    requires
        forall|j: int| 0 <= j < table.len() ==> (#[trigger] table[j]).0.len() > 0,
    ensures
        occs_wf(prosign_occurrences(text, table)),
{
    lemma_occs_up_to_wf(text, table, text.len() as int);
}

proof fn lemma_occs_at_upto_wf(text: Seq<char>, table: Seq<(Seq<char>, Seq<char>)>, p: int, j: int)
    requires
        forall|k: int| 0 <= k < table.len() ==> (#[trigger] table[k]).0.len() > 0,
        j <= table.len(),
    ensures
        occs_wf(occs_at_upto(text, table, p, j)),
    decreases j,
{
    if j > 0 {
        lemma_occs_at_upto_wf(text, table, p, j - 1);
        let tail: Seq<Occurrence> = if entry_matches_at(text, table, j - 1, p) {
            seq![occurrence_of(table, j - 1, p)]
        } else {
            Seq::<Occurrence>::empty()
        };
        assert(occs_wf(tail));
        lemma_occs_wf_concat(occs_at_upto(text, table, p, j - 1), tail);
    }
}

proof fn lemma_occs_up_to_wf(text: Seq<char>, table: Seq<(Seq<char>, Seq<char>)>, n: int)
    requires
        forall|k: int| 0 <= k < table.len() ==> (#[trigger] table[k]).0.len() > 0,
    ensures
        occs_wf(occs_up_to(text, table, n)),
    decreases n,
{
    if n > 0 {
        lemma_occs_up_to_wf(text, table, n - 1);
        lemma_occs_at_upto_wf(text, table, n - 1, table.len() as int);
        lemma_occs_wf_concat(occs_up_to(text, table, n - 1), occs_at(text, table, n - 1));
    }
}

/// Find the longest run of consecutively correct characters anywhere in a
/// submission. Both texts are normalized first; every start offset of the
/// normalized reference is tried against every start offset of the
/// normalized submission, and the best count wins. Returns 0 whenever
/// either normalized text is empty. Pure and deterministic: the result is
/// a function of the three arguments alone.
pub fn find_consecutive_correct(
    user_text: &str,
    expected_text: &str,
    prosign_mappings: &[(String, String)],
) -> (r: i32)
    requires
        user_text@.len() <= 0x7fff_ffff,
        forall|j: int|
            0 <= j < prosign_mappings@.len() ==> (#[trigger] prosign_mappings@[j]).0@.len() > 0,
    ensures
        r >= 0,
        r as nat == consecutive_correct(
            user_text@,
            expected_text@,
            table_view(prosign_mappings@),
        ),
{
    let ghost tbl = table_view(prosign_mappings@);
    let un = normalize_chars(user_text);
    let en = normalize_chars(expected_text);
    proof {
        lemma_normalize_len(user_text@);
    }
    if un.len() == 0 || en.len() == 0 {
        return 0;
    }
    let occs = find_prosigns_chars(&en, prosign_mappings);
    proof {
        assert forall|j: int| 0 <= j < tbl.len() implies (#[trigger] tbl[j]).0.len() > 0 by {
            assert(tbl[j].0 == prosign_mappings@[j].0@);
        }
        lemma_occurrences_wf(en@, tbl);
    }
    let ghost occsv = occs_view(occs@);
    let ulen = un.len();
    let elen = en.len();
    let mut best: usize = 0;
    let mut e: usize = 0;
    while e < elen
        invariant
            e <= elen,
            ulen == un@.len(),
            elen == en@.len(),
            ulen <= 0x7fff_ffff,
            occsv == occs_view(occs@),
            occs_wf(occsv),
            best <= ulen,
            best == best_from(un@, en@, occsv, e as int),
        decreases elen - e,
    {
        let mut u: usize = 0;
        while u < ulen
            invariant
                e < elen,
                u <= ulen,
                ulen == un@.len(),
                elen == en@.len(),
                ulen <= 0x7fff_ffff,
                occsv == occs_view(occs@),
                occs_wf(occsv),
                best <= ulen,
                best == nat_max(
                    best_from(un@, en@, occsv, e as int),
                    best_user_from(un@, en@, occsv, e as int, u as int),
                ),
            decreases ulen - u,
        {
            let c = count_consecutive_matches(&un, u, &en, e, &occs);
            if c > best {
                best = c;
            }
            u = u + 1;
        }
        proof {
            assert(best == best_from(un@, en@, occsv, e + 1 as int));
        }
        e = e + 1;
    }
    best as i32
}

/// Locate every occurrence of every table prosign in a reference text.
/// Both the text and the table entries are compared uppercased; the result
/// is sorted by position ascending, with entries at one position kept in
/// table order.
pub fn find_prosigns(text: &str, mappings: &[(String, String)]) -> (r: Vec<ProsignOccurrence>)
    ensures
        occs_view(r@) == prosign_occurrences(text@, table_view(mappings@)),
{
    let chars = to_chars(text);
    find_prosigns_chars(&chars, mappings)
}

/// Grading an empty reference, or an empty submission, yields zero: either
/// normalized form is empty and no run can start.
pub proof fn lemma_consecutive_correct_empty(x: Seq<char>, table: Seq<(Seq<char>, Seq<char>)>)
    ensures
        consecutive_correct(x, Seq::<char>::empty(), table) == 0,
        consecutive_correct(Seq::<char>::empty(), x, table) == 0,
{
    assert(normalize_spec(Seq::<char>::empty()) =~= Seq::<char>::empty());
}

/// A match found within a prefix of the submission is also found in the
/// whole submission.
proof fn lemma_matches_at_prefix(user: Seq<char>, userx: Seq<char>, up: int, pat: Seq<char>)
    requires
        user.len() <= userx.len(),
        user == userx.take(user.len() as int),
        matches_at(user, up, pat),
    ensures
        matches_at(userx, up, pat),
{
    assert(userx.subrange(up, up + pat.len()) =~= user.subrange(up, up + pat.len()));
}

/// Extending the submission on the right never shortens a run: whatever
/// the run did inside the prefix it can still do, and where it ran out of
/// submission characters it can only continue.
pub proof fn lemma_count_from_prefix_monotone(
    user: Seq<char>,
    userx: Seq<char>,
    up: int,
    exp: Seq<char>,
    ep: int,
    occs: Seq<Occurrence>,
)
    requires
        user.len() <= userx.len(),
        user == userx.take(user.len() as int),
        0 <= up,
    ensures
        count_from(user, up, exp, ep, occs) <= count_from(userx, up, exp, ep, occs),
    decreases exp_remaining(exp, ep),
{
    if !(up < user.len() && 0 <= ep < exp.len()) {
        // The run in the prefix is empty here.
    } else {
        assert(userx[up] == user[up]);
        match first_occ_at(occs, ep) {
            Some(occ) => {
                if occ.token_len < 1 {
                } else if matches_at(user, up, occ.primary) {
                    lemma_matches_at_prefix(user, userx, up, occ.primary);
                    lemma_count_from_prefix_monotone(
                        user,
                        userx,
                        up + occ.primary.len(),
                        exp,
                        ep + occ.token_len,
                        occs,
                    );
                } else if matches_at(userx, up, occ.primary) {
                    // The prosign spelling fits the extension but not the
                    // prefix: everything the prefix could still count is
                    // shorter than that spelling alone.
                    assert(up + occ.primary.len() > user.len()) by {
                        if up + occ.primary.len() <= user.len() {
                            assert(user.subrange(up, up + occ.primary.len()) =~= userx.subrange(
                                up,
                                up + occ.primary.len(),
                            ));
                        }
                    }
                    if matches_at(user, up, occ.alternate) {
                        lemma_count_from_le(
                            user,
                            up + occ.alternate.len(),
                            exp,
                            ep + occ.token_len,
                            occs,
                        );
                    }
                } else {
                    assert(!matches_at(user, up, occ.primary));
                    if matches_at(user, up, occ.alternate) {
                        lemma_matches_at_prefix(user, userx, up, occ.alternate);
                        lemma_count_from_prefix_monotone(
                            user,
                            userx,
                            up + occ.alternate.len(),
                            exp,
                            ep + occ.token_len,
                            occs,
                        );
                    }
                }
            },
            None => {
                if user[up] == exp[ep] {
                    lemma_count_from_prefix_monotone(user, userx, up + 1, exp, ep + 1, occs);
                }
            },
        }
    }
}

proof fn lemma_best_user_from_prefix_monotone(
    user: Seq<char>,
    userx: Seq<char>,
    exp: Seq<char>,
    occs: Seq<Occurrence>,
    ep: int,
    n: int,
)
    requires
        user.len() <= userx.len(),
        user == userx.take(user.len() as int),
    ensures
        best_user_from(user, exp, occs, ep, n) <= best_user_from(userx, exp, occs, ep, n),
    decreases n,
{
    if n > 0 {
        lemma_best_user_from_prefix_monotone(user, userx, exp, occs, ep, n - 1);
        lemma_count_from_prefix_monotone(user, userx, n - 1, exp, ep, occs);
    }
}

proof fn lemma_best_user_from_mono_n(
    user: Seq<char>,
    exp: Seq<char>,
    occs: Seq<Occurrence>,
    ep: int,
    n1: int,
    n2: int,
)
    requires
        n1 <= n2,
    ensures
        best_user_from(user, exp, occs, ep, n1) <= best_user_from(user, exp, occs, ep, n2),
    decreases n2,
{
    if n1 < n2 && n2 > 0 {
        lemma_best_user_from_mono_n(user, exp, occs, ep, n1, n2 - 1);
    }
}

proof fn lemma_best_from_prefix_monotone(
    user: Seq<char>,
    userx: Seq<char>,
    exp: Seq<char>,
    occs: Seq<Occurrence>,
    m: int,
)
    requires
        user.len() <= userx.len(),
        user == userx.take(user.len() as int),
    ensures
        best_from(user, exp, occs, m) <= best_from(userx, exp, occs, m),
    decreases m,
{
    if m > 0 {
        lemma_best_from_prefix_monotone(user, userx, exp, occs, m - 1);
        lemma_best_user_from_prefix_monotone(user, userx, exp, occs, m - 1, user.len() as int);
        lemma_best_user_from_mono_n(userx, exp, occs, m - 1, user.len() as int, userx.len() as int);
    }
}

/// Appending trailing characters to the submission never decreases the
/// grade: the normalized form of the longer submission extends the
/// normalized form of the shorter one, and every run available in the
/// shorter is still available.
pub proof fn lemma_trailing_noise_monotone(
    user: Seq<char>,
    noise: Seq<char>,
    expected: Seq<char>,
    table: Seq<(Seq<char>, Seq<char>)>,
)
    ensures
        consecutive_correct(user + noise, expected, table) >= consecutive_correct(
            user,
            expected,
            table,
        ),
{
    let un = normalize_spec(user);
    let unx = normalize_spec(user + noise);
    let en = normalize_spec(expected);
    lemma_norm_from_append(user, noise, 0);
    assert(un == unx.take(un.len() as int)) by {
        assert(unx == un + crate::normalize::norm_from(
            noise,
            crate::normalize::norm_state(user, 0),
        ));
        assert(unx.take(un.len() as int) =~= un);
    }
    if un.len() == 0 || en.len() == 0 {
    } else {
        lemma_best_from_prefix_monotone(
            un,
            unx,
            en,
            prosign_occurrences(en, table),
            en.len() as int,
        );
    }
}

/// Result of grading a single question.
#[derive(Debug, Clone)]
pub struct QuestionResult {
    pub question_id: String,
    pub correct: bool,
    pub user_answer: Option<String>,
    pub correct_answer: String,
}

/// The view of an optional answer string.
pub open spec fn view_opt(o: Option<String>) -> Option<Seq<char>> {
    match o {
        Some(s) => Some(s@),
        None => None,
    }
}

/// The first answer recorded for a question, scanning the pairs in order.
pub open spec fn lookup_answer(answers: Seq<(String, String)>, key: Seq<char>) -> Option<Seq<char>>
    decreases answers.len(),
{
    if answers.len() == 0 {
        None
    } else if answers[0].0@ == key {
        Some(answers[0].1@)
    } else {
        lookup_answer(answers.skip(1), key)
    }
}

/// A question is answered correctly when an answer is recorded for it and
/// equals the correct answer up to case. A missing answer is incorrect,
/// never an error.
pub open spec fn answer_correct(
    answers: Seq<(String, String)>,
    key: Seq<char>,
    correct: Seq<char>,
) -> bool {
    match lookup_answer(answers, key) {
        Some(a) => upper_seq(a) == upper_seq(correct),
        None => false,
    }
}

/// The score over the first `n` entries of the correct-answer list.
pub open spec fn score_upto(
    answers: Seq<(String, String)>,
    correct: Seq<(String, String)>,
    n: int,
) -> int
    decreases n,
{
    if n <= 0 {
        0
    } else {
        score_upto(answers, correct, n - 1) + if answer_correct(
            answers,
            correct[n - 1].0@,
            correct[n - 1].1@,
        ) {
            1int
        } else {
            0int
        }
    }
}

/// What one grading result must say about its question: the ids and the
/// recorded answers carried over verbatim, and correctness judged
/// case-insensitively against the correct answer.
pub open spec fn question_result_matches(
    res: QuestionResult,
    answers: Seq<(String, String)>,
    pair: (String, String),
) -> bool {
    &&& res.question_id@ == pair.0@
    &&& res.correct_answer@ == pair.1@
    &&& view_opt(res.user_answer) == lookup_answer(answers, pair.0@)
    &&& res.correct == answer_correct(answers, pair.0@, pair.1@)
}

/// Skipping pairs whose key differs does not change what the scan finds.
proof fn lemma_lookup_answer_skip(answers: Seq<(String, String)>, key: Seq<char>, k: int)
    requires
        0 <= k <= answers.len(),
        forall|m: int| 0 <= m < k ==> (#[trigger] answers[m]).0@ != key,
    ensures
        lookup_answer(answers, key) == lookup_answer(answers.skip(k), key),
    decreases k,
{
    if k > 0 {
        lemma_lookup_answer_skip(answers.skip(1), key, k - 1);
        assert(answers.skip(1).skip(k - 1) =~= answers.skip(k));
    } else {
        assert(answers.skip(0) =~= answers);
    }
}

/// The first answer recorded for a question, if any.
fn lookup_answer_exec(answers: &Vec<(String, String)>, key: &String) -> (r: Option<String>)
    ensures
        view_opt(r) == lookup_answer(answers@, key@),
{
    let mut k: usize = 0;
    while k < answers.len()
        invariant
            k <= answers@.len(),
            forall|m: int| 0 <= m < k ==> (#[trigger] answers@[m]).0@ != key@,
        decreases answers@.len() - k,
    {
        if answers[k].0 == *key {
            proof {
                lemma_lookup_answer_skip(answers@, key@, k as int);
                assert(answers@.skip(k as int)[0] == answers@[k as int]);
            }
            return Some(answers[k].1.clone());
        }
        k = k + 1;
    }
    proof {
        lemma_lookup_answer_skip(answers@, key@, answers@.len() as int);
        assert(answers@.skip(answers@.len() as int) =~= Seq::<(String, String)>::empty());
    }
    None
}

/// Grade question answers against correct answers. The correct-answer list
/// decides which questions exist; for each, the recorded answer (if any)
/// is compared case-insensitively, the score counts the matches, and one
/// result is appended per correct-answer entry, in list order.
pub fn grade_questions(
    answers: &Vec<(String, String)>,
    correct_answers: &Vec<(String, String)>,
) -> (r: (i32, Vec<QuestionResult>))
    requires
        correct_answers@.len() <= 0x7fff_ffff,
    ensures
        r.0 == score_upto(answers@, correct_answers@, correct_answers@.len() as int),
        r.1@.len() == correct_answers@.len(),
        forall|i: int|
            0 <= i < correct_answers@.len() ==> question_result_matches(
                #[trigger] r.1@[i],
                answers@,
                correct_answers@[i],
            ),
{
    let mut score: i32 = 0;
    let mut results: Vec<QuestionResult> = Vec::new();
    let mut i: usize = 0;
    while i < correct_answers.len()
        invariant
            i <= correct_answers@.len(),
            correct_answers@.len() <= 0x7fff_ffff,
            results@.len() == i,
            0 <= score <= i,
            score == score_upto(answers@, correct_answers@, i as int),
            forall|m: int|
                0 <= m < i ==> question_result_matches(
                    #[trigger] results@[m],
                    answers@,
                    correct_answers@[m],
                ),
        decreases correct_answers@.len() - i,
    {
        let question_id = correct_answers[i].0.clone();
        let correct_answer = correct_answers[i].1.clone();
        let user_answer = lookup_answer_exec(answers, &question_id);
        let is_correct = match &user_answer {
            Some(a) => {
                let ua = crate::normalize::upper_string(a.as_str());
                let ca = crate::normalize::upper_string(correct_answer.as_str());
                ua == ca
            },
            None => false,
        };
        proof {
            assert(is_correct == answer_correct(
                answers@,
                correct_answers@[i as int].0@,
                correct_answers@[i as int].1@,
            ));
        }
        if is_correct {
            score = score + 1;
        }
        results.push(
            QuestionResult { question_id, correct: is_correct, user_answer, correct_answer },
        );
        i = i + 1;
    }
    (score, results)
}

} // verus!

