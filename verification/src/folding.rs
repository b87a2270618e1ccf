use vstd::prelude::*;
use crate::chars::{char_octets, char_utf8_len, lemma_octet_len_push, octet_len};

verus! {

/// Folds the characters of `s` into physical lines, continuing a current line
/// whose content is `cur` and whose counted octet length is `acc`: when the
/// next character's octet length would reach or exceed 75, the current line
/// ends and a continuation line begins with one space; the counter restarts
/// at the octet length of the character that started the new line.
pub open spec fn fold_chars(s: Seq<char>, cur: Seq<char>, acc: int) -> Seq<Seq<char>>
    decreases s.len(),
{
    if s.len() == 0 {
        seq![cur]
    } else {
        let w = char_octets(s[0]);
        if acc + w >= 75 {
            seq![cur] + fold_chars(s.skip(1), seq![' ', s[0]], w)
        } else {
            fold_chars(s.skip(1), cur.push(s[0]), acc + w)
        }
    }
}

/// The physical lines of one folded content line.
pub open spec fn fold_lines(s: Seq<char>) -> Seq<Seq<char>> {
    fold_chars(s, Seq::empty(), 0)
}

proof fn lemma_fold_chars_octets(s: Seq<char>, cur: Seq<char>, acc: int)
    requires
        0 <= acc <= 74,
        octet_len(cur) <= acc + 1,
    ensures
        forall|i: int|
            0 <= i < fold_chars(s, cur, acc).len() ==> octet_len(
                #[trigger] fold_chars(s, cur, acc)[i],
            ) <= 75,
    decreases s.len(),
{
    let r = fold_chars(s, cur, acc);
    if s.len() == 0 {
        assert(r =~= seq![cur]);
        assert forall|i: int| 0 <= i < r.len() implies octet_len(r[i]) <= 75 by {
            assert(r[i] == cur);
        }
    } else {
        let w = char_octets(s[0]);
        if acc + w >= 75 {
            let cont = seq![' ', s[0]];
            assert(octet_len(cont) == w + 1) by {
                assert(cont.last() == s[0]);
                assert(cont.drop_last() =~= seq![' ']);
                assert(seq![' '].last() == ' ');
                assert(seq![' '].drop_last() =~= Seq::<char>::empty());
                assert(octet_len(Seq::<char>::empty()) == 0);
                assert(octet_len(seq![' ']) == 1);
            }
            lemma_fold_chars_octets(s.skip(1), cont, w);
            let rest = fold_chars(s.skip(1), cont, w);
            assert forall|i: int| 0 <= i < r.len() implies octet_len(r[i]) <= 75 by {
                if i == 0 {
                    assert(r[0] == cur);
                } else {
                    assert(r[i] == rest[i - 1]);
                }
            }
        } else {
            lemma_octet_len_push(cur, s[0]);
            lemma_fold_chars_octets(s.skip(1), cur.push(s[0]), acc + w);
            let r2 = fold_chars(s.skip(1), cur.push(s[0]), acc + w);
            assert forall|i: int| 0 <= i < r.len() implies octet_len(r[i]) <= 75 by {
                assert(r[i] == r2[i]);
            }
        }
    }
}

/// Every physical line of a folded content line is at most 75 octets long,
/// not counting the terminating CRLF.
pub proof fn lemma_fold_lines_octets(s: Seq<char>)
    ensures
        forall|i: int|
            0 <= i < fold_lines(s).len() ==> octet_len(#[trigger] fold_lines(s)[i]) <= 75,
{
    assert(octet_len(Seq::<char>::empty()) == 0);
    lemma_fold_chars_octets(s, Seq::empty(), 0);
}

proof fn lemma_fold_chars_shape(s: Seq<char>, cur: Seq<char>, acc: int)
    ensures
        fold_chars(s, cur, acc).len() >= 1,
        forall|i: int|
            1 <= i < fold_chars(s, cur, acc).len() ==> (#[trigger] fold_chars(s, cur, acc)[i]).len()
                >= 1 && fold_chars(s, cur, acc)[i][0] == ' ',
    decreases s.len(),
{
    let r = fold_chars(s, cur, acc);
    if s.len() == 0 {
    } else {
        let w = char_octets(s[0]);
        if acc + w >= 75 {
            let cont = seq![' ', s[0]];
            lemma_fold_chars_shape(s.skip(1), cont, w);
            lemma_fold_chars_starts(s.skip(1), cont, w);
            let rest = fold_chars(s.skip(1), cont, w);
            assert forall|i: int| 1 <= i < r.len() implies r[i].len() >= 1 && r[i][0] == ' ' by {
                assert(r[i] == rest[i - 1]);
            }
        } else {
            lemma_fold_chars_shape(s.skip(1), cur.push(s[0]), acc + w);
        }
    }
}

/// The first emitted line extends `cur` at the front.
proof fn lemma_fold_chars_starts(s: Seq<char>, cur: Seq<char>, acc: int)
    ensures
        fold_chars(s, cur, acc).len() >= 1,
        fold_chars(s, cur, acc)[0].len() >= cur.len(),
        forall|k: int|
            0 <= k < cur.len() ==> #[trigger] fold_chars(s, cur, acc)[0][k] == cur[k],
    decreases s.len(),
{
    if s.len() == 0 {
    } else {
        let w = char_octets(s[0]);
        if acc + w >= 75 {
        } else {
            lemma_fold_chars_starts(s.skip(1), cur.push(s[0]), acc + w);
        }
    }
}

/// Rejoining after the first physical line: the leading space of every
/// continuation line is removed and the remainders are concatenated.
pub open spec fn join_rest(lines: Seq<Seq<char>>) -> Seq<char>
    decreases lines.len(),
{
    if lines.len() == 0 {
        Seq::empty()
    } else {
        lines[0].skip(1) + join_rest(lines.skip(1))
    }
}

/// Rejoins folded physical lines: the first line whole, each continuation
/// line without its leading space.
pub open spec fn unfold_lines(lines: Seq<Seq<char>>) -> Seq<char> {
    if lines.len() == 0 {
        Seq::empty()
    } else {
        lines[0] + join_rest(lines.skip(1))
    }
}

proof fn lemma_join_rest_fold(s: Seq<char>, cur: Seq<char>, acc: int)
    requires
        cur.len() >= 1,
    ensures
        join_rest(fold_chars(s, cur, acc)) == cur.skip(1) + s,
    decreases s.len(),
{
    let r = fold_chars(s, cur, acc);
    if s.len() == 0 {
        assert(r =~= seq![cur]);
        assert(r.skip(1) =~= Seq::<Seq<char>>::empty());
        assert(join_rest(Seq::<Seq<char>>::empty()) == Seq::<char>::empty());
        assert(join_rest(r) == r[0].skip(1) + join_rest(r.skip(1)));
        assert(r[0] == cur);
        assert(join_rest(r) =~= cur.skip(1) + s);
    } else {
        let w = char_octets(s[0]);
        if acc + w >= 75 {
            let cont = seq![' ', s[0]];
            let rest = fold_chars(s.skip(1), cont, w);
            lemma_join_rest_fold(s.skip(1), cont, w);
            assert(cont.skip(1) =~= seq![s[0]]);
            assert(r == seq![cur] + rest);
            assert(r.len() >= 1 && r[0] == cur);
            assert(r.skip(1) =~= rest);
            assert(join_rest(r) == cur.skip(1) + join_rest(rest));
            assert(cur.skip(1) + (seq![s[0]] + s.skip(1)) =~= cur.skip(1) + s);
            assert(join_rest(r) =~= cur.skip(1) + s);
        } else {
            lemma_join_rest_fold(s.skip(1), cur.push(s[0]), acc + w);
            assert(cur.push(s[0]).skip(1) =~= cur.skip(1).push(s[0]));
            assert(cur.skip(1).push(s[0]) + s.skip(1) =~= cur.skip(1) + s);
        }
    }
}

proof fn lemma_unfold_fold(s: Seq<char>, cur: Seq<char>, acc: int)
    ensures
        unfold_lines(fold_chars(s, cur, acc)) == cur + s,
    decreases s.len(),
{
    let r = fold_chars(s, cur, acc);
    if s.len() == 0 {
        assert(r =~= seq![cur]);
        assert(r.skip(1) =~= Seq::<Seq<char>>::empty());
        assert(join_rest(Seq::<Seq<char>>::empty()) == Seq::<char>::empty());
        assert(r[0] == cur);
        assert(unfold_lines(r) =~= cur + s);
    } else {
        let w = char_octets(s[0]);
        if acc + w >= 75 {
            let cont = seq![' ', s[0]];
            let rest = fold_chars(s.skip(1), cont, w);
            lemma_join_rest_fold(s.skip(1), cont, w);
            assert(cont.skip(1) =~= seq![s[0]]);
            assert(r.len() >= 1 && r[0] == cur);
            assert(r.skip(1) =~= rest);
            assert(unfold_lines(r) == cur + join_rest(rest));
            assert(cur + (seq![s[0]] + s.skip(1)) =~= cur + s);
            assert(unfold_lines(r) =~= cur + s);
        } else {
            lemma_unfold_fold(s.skip(1), cur.push(s[0]), acc + w);
            assert(cur.push(s[0]) + s.skip(1) =~= cur + s);
        }
    }
}

/// Folding round-trip: rejoining the physical lines of a folded content line
/// (CRLF removed, continuation leading space removed) reconstructs the
/// unfolded line exactly; each continuation line does begin with one space.
pub proof fn lemma_fold_unfold(s: Seq<char>)
    ensures
        fold_lines(s).len() >= 1,
        unfold_lines(fold_lines(s)) == s,
        forall|i: int|
            1 <= i < fold_lines(s).len() ==> (#[trigger] fold_lines(s)[i]).len() >= 1
                && fold_lines(s)[i][0] == ' ',
{
    lemma_unfold_fold(s, Seq::empty(), 0);
    assert(Seq::<char>::empty() + s =~= s);
    lemma_fold_chars_shape(s, Seq::empty(), 0);
}

/// Folds one unfolded content line into its physical lines.
pub fn fold_content(v: &Vec<char>) -> (r: Vec<Vec<char>>)
    ensures
        r.deep_view() == fold_lines(v@),
{
    let mut lines: Vec<Vec<char>> = Vec::new();
    let mut cur: Vec<char> = Vec::new();
    let mut acc: usize = 0;
    let mut i: usize = 0;
    proof {
        assert(v@.skip(0) =~= v@);
    }
    while i < v.len()
        invariant
            i <= v.len(),
            acc <= 74,
            fold_lines(v@) == lines.deep_view() + fold_chars(v@.skip(i as int), cur@, acc as int),
        decreases v.len() - i,
    {
        let ghost pre_lines = lines.deep_view();
        let ghost pre_cur = cur@;
        let ghost pre_acc = acc as int;
        let ghost tail = v@.skip(i as int);
        let c = v[i];
        let w = char_utf8_len(c);
        proof {
            assert(tail[0] == c);
            assert(tail.skip(1) =~= v@.skip(i + 1));
        }
        if acc + w >= 75 {
            lines.push(cur);
            cur = Vec::new();
            cur.push(' ');
            cur.push(c);
            acc = w;
            proof {
                assert(cur@ =~= seq![' ', c]);
                assert(lines.deep_view() =~~= pre_lines.push(pre_cur));
                assert(fold_chars(tail, pre_cur, pre_acc) == seq![pre_cur] + fold_chars(
                    tail.skip(1),
                    seq![' ', c],
                    char_octets(c),
                ));
                assert(pre_lines + (seq![pre_cur] + fold_chars(
                    v@.skip(i + 1),
                    cur@,
                    char_octets(c),
                )) =~= pre_lines.push(pre_cur) + fold_chars(v@.skip(i + 1), cur@, char_octets(c)));
            }
        } else {
            cur.push(c);
            acc = acc + w;
            proof {
                assert(fold_chars(tail, pre_cur, pre_acc) == fold_chars(
                    v@.skip(i + 1),
                    pre_cur.push(c),
                    pre_acc + char_octets(c),
                ));
            }
        }
        i += 1;
    }
    proof {
        assert(v@.skip(v@.len() as int) =~= Seq::<char>::empty());
    }
    let ghost pre_lines = lines.deep_view();
    let ghost last_cur = cur@;
    lines.push(cur);
    proof {
        assert(lines.deep_view() =~~= pre_lines.push(last_cur));
        assert(fold_lines(v@) =~= lines.deep_view());
    }
    lines
}

} // verus!
