//! The tolerant output comparison: two byte streams are judged equal when
//! they agree after stripping trailing whitespace from every line and
//! dropping trailing blank lines.
use vstd::prelude::*;

verus! {

/// Line-level whitespace: the ASCII whitespace bytes other than the line
/// separator itself.
pub open spec fn is_ws(b: u8) -> bool {
    b == 0x20 || b == 0x09 || b == 0x0c || b == 0x0d
}

/// A byte sequence split at every line feed. The result always has one more
/// element than the input has line feeds; a trailing line feed contributes a
/// final empty line.
pub open spec fn lines_of(s: Seq<u8>) -> Seq<Seq<u8>>
    decreases s.len(),
{
    if s.len() == 0 {
        seq![Seq::<u8>::empty()]
    } else if s.last() == 0x0a {
        lines_of(s.drop_last()).push(Seq::<u8>::empty())
    } else {
        let l = lines_of(s.drop_last());
        l.update(l.len() - 1, l.last().push(s.last()))
    }
}

/// A line with its trailing whitespace removed.
pub open spec fn rstrip(l: Seq<u8>) -> Seq<u8>
    decreases l.len(),
{
    if l.len() > 0 && is_ws(l.last()) {
        rstrip(l.drop_last())
    } else {
        l
    }
}

/// Drops the empty lines at the end of a line list.
pub open spec fn drop_blank_suffix(ls: Seq<Seq<u8>>) -> Seq<Seq<u8>>
    decreases ls.len(),
{
    if ls.len() > 0 && ls.last().len() == 0 {
        drop_blank_suffix(ls.drop_last())
    } else {
        ls
    }
}

/// The canonical form of an output: its lines, each right-stripped, with
/// trailing blank lines removed.
pub open spec fn canon(s: Seq<u8>) -> Seq<Seq<u8>> {
    drop_blank_suffix(lines_of(s).map_values(|l: Seq<u8>| rstrip(l)))
}

/// The tolerant equality the judge uses on a program's output and the
/// expected answer.
pub open spec fn normal_eq(a: Seq<u8>, b: Seq<u8>) -> bool {
    canon(a) == canon(b)
}

/// The views of a list of byte vectors.
pub open spec fn views_of(vs: Seq<Vec<u8>>) -> Seq<Seq<u8>> {
    vs.map_values(|v: Vec<u8>| v@)
}

/// Splitting never yields an empty line list.
pub proof fn lemma_lines_nonempty(s: Seq<u8>)
    ensures
        lines_of(s).len() >= 1,
    decreases s.len(),
{
    if s.len() > 0 {
        lemma_lines_nonempty(s.drop_last());
    }
}

/// Whether a byte is line-level whitespace.
fn is_ws_exec(b: u8) -> (r: bool)
    ensures
        r == is_ws(b),
{
    b == 0x20 || b == 0x09 || b == 0x0c || b == 0x0d
}

/// Removes the trailing whitespace of one line.
fn rstrip_vec(l: Vec<u8>) -> (r: Vec<u8>)
    ensures
        r@ == rstrip(l@),
{
    let mut v = l;
    while v.len() > 0 && is_ws_exec(v[v.len() - 1])
        invariant
            rstrip(v@) == rstrip(l@),
        decreases v.len(),
    {
        proof {
            assert(v@.len() > 0 && is_ws(v@.last()));
        }
        v.pop();
    }
    proof {
        assert(rstrip(v@) == v@);
    }
    v
}

/// The canonical form of an output, as a list of right-stripped lines with
/// the blank suffix removed.
fn canon_exec(s: &Vec<u8>) -> (r: Vec<Vec<u8>>)
    ensures
        views_of(r@) == canon(s@),
{
    let ghost f = |l: Seq<u8>| rstrip(l);
    let mut out: Vec<Vec<u8>> = Vec::new();
    let mut cur: Vec<u8> = Vec::new();
    let mut i: usize = 0;
    proof {
        assert(s@.take(0) =~= Seq::<u8>::empty());
        assert(views_of(out@) =~= lines_of(s@.take(0)).drop_last().map_values(f));
    }
    while i < s.len()
        invariant
            0 <= i <= s.len(),
            lines_of(s@.take(i as int)).len() >= 1,
            views_of(out@) == lines_of(s@.take(i as int)).drop_last().map_values(f),
            cur@ == lines_of(s@.take(i as int)).last(),
            f == (|l: Seq<u8>| rstrip(l)),
        decreases s.len() - i,
    {
        let ghost prev = lines_of(s@.take(i as int));
        let b = s[i];
        proof {
            assert(s@.take(i + 1) =~= s@.take(i as int).push(b));
            assert(s@.take(i + 1).drop_last() =~= s@.take(i as int));
            lemma_lines_nonempty(s@.take(i + 1));
        }
        if b == 0x0a {
            let stripped = rstrip_vec(cur);
            out.push(stripped);
            cur = Vec::new();
            proof {
                assert(lines_of(s@.take(i + 1)) =~= prev.push(Seq::<u8>::empty()));
                assert(lines_of(s@.take(i + 1)).drop_last() =~= prev);
                assert(prev.drop_last().map_values(f).push(rstrip(prev.last())) =~= prev.map_values(
                    f,
                ));
                assert(views_of(out@) =~= prev.map_values(f));
            }
        } else {
            cur.push(b);
            proof {
                let now = lines_of(s@.take(i + 1));
                assert(now =~= prev.update(prev.len() - 1, prev.last().push(b)));
                assert(now.drop_last() =~= prev.drop_last());
                assert(now.last() == prev.last().push(b));
            }
        }
        i = i + 1;
    }
    proof {
        assert(s@.take(i as int) =~= s@);
    }
    let stripped = rstrip_vec(cur);
    out.push(stripped);
    proof {
        let l = lines_of(s@);
        assert(l.drop_last().map_values(f).push(rstrip(l.last())) =~= l.map_values(f));
        assert(views_of(out@) =~= l.map_values(f));
    }
    while out.len() > 0 && out[out.len() - 1].len() == 0
        invariant
            drop_blank_suffix(views_of(out@)) == canon(s@),
        decreases out.len(),
    {
        let ghost prev = views_of(out@);
        proof {
            assert(prev.len() > 0);
            assert(prev.last() == out@.last()@);
            assert(prev.last().len() == 0);
        }
        out.pop();
        proof {
            assert(views_of(out@) =~= prev.drop_last());
        }
    }
    proof {
        if out.len() > 0 {
            assert(views_of(out@).last() == out@.last()@);
        }
        assert(drop_blank_suffix(views_of(out@)) == views_of(out@));
    }
    out
}

/// Decides the tolerant equality of a program's output and the expected
/// answer.
pub fn normal_compare(out: &Vec<u8>, expected: &Vec<u8>) -> (r: bool)
    ensures
        r == normal_eq(out@, expected@),
{
    let ca = canon_exec(out);
    let cb = canon_exec(expected);
    if ca.len() != cb.len() {
        proof {
            assert(views_of(ca@).len() != views_of(cb@).len());
        }
        return false;
    }
    let mut i: usize = 0;
    while i < ca.len()
        invariant
            0 <= i <= ca.len(),
            ca@.len() == cb@.len(),
            views_of(ca@) == canon(out@),
            views_of(cb@) == canon(expected@),
            forall|j: int| 0 <= j < i ==> views_of(ca@)[j] == views_of(cb@)[j],
        decreases ca.len() - i,
    {
        if !bytes_eq(&ca[i], &cb[i]) {
            proof {
                assert(views_of(ca@)[i as int] == ca@[i as int]@);
                assert(views_of(cb@)[i as int] == cb@[i as int]@);
            }
            return false;
        }
        i = i + 1;
    }
    proof {
        assert(views_of(ca@) =~= views_of(cb@));
    }
    true
}

/// The lines joined back with a line feed between each pair.
pub open spec fn join(ls: Seq<Seq<u8>>) -> Seq<u8>
    decreases ls.len(),
{
    if ls.len() == 0 {
        Seq::<u8>::empty()
    } else if ls.len() == 1 {
        ls[0]
    } else {
        join(ls.drop_last()) + seq![0x0au8] + ls.last()
    }
}

/// Joining the split lines of a byte sequence gives the sequence back: an
/// output is determined by its lines.
pub proof fn lemma_join_lines(s: Seq<u8>)
    ensures
        join(lines_of(s)) == s,
    decreases s.len(),
{
    lemma_lines_nonempty(s);
    if s.len() == 0 {
        assert(join(lines_of(s)) =~= s);
    } else {
        let c = s.last();
        lemma_join_lines(s.drop_last());
        lemma_lines_nonempty(s.drop_last());
        let l = lines_of(s.drop_last());
        if c == 0x0a {
            let l2 = l.push(Seq::<u8>::empty());
            assert(lines_of(s) == l2);
            assert(l2.drop_last() =~= l);
            assert(join(l2) =~= join(l) + seq![0x0au8]);
            assert(join(l) + seq![0x0au8] =~= s);
        } else {
            let l2 = l.update(l.len() - 1, l.last().push(c));
            assert(lines_of(s) == l2);
            if l.len() == 1 {
                assert(join(l2) == l2[0]);
                assert(l2[0] =~= l[0].push(c));
                assert(join(l) == l[0]);
                assert(l[0].push(c) =~= s);
            } else {
                assert(l2.drop_last() =~= l.drop_last());
                assert(l2.last() == l.last().push(c));
                assert(join(l2) == join(l.drop_last()) + seq![0x0au8] + l.last().push(c));
                assert(join(l) == join(l.drop_last()) + seq![0x0au8] + l.last());
                assert(join(l.drop_last()) + seq![0x0au8] + l.last().push(c) =~= (join(l.drop_last())
                    + seq![0x0au8] + l.last()).push(c));
                assert(join(l).push(c) =~= s);
            }
        }
    }
}

/// Appending a trailing whitespace byte or a line feed to an output does not
/// change its canonical form.
pub proof fn lemma_canon_push_trailing(s: Seq<u8>, b: u8)
    requires
        is_ws(b) || b == 0x0a,
    ensures
        canon(s.push(b)) == canon(s),
{
    let f = |l: Seq<u8>| rstrip(l);
    lemma_lines_nonempty(s);
    let l = lines_of(s);
    assert(s.push(b).drop_last() =~= s);
    assert(s.push(b).last() == b);
    if b == 0x0a {
        assert(lines_of(s.push(b)) == l.push(Seq::<u8>::empty()));
        assert(rstrip(Seq::<u8>::empty()) == Seq::<u8>::empty());
        let m = l.push(Seq::<u8>::empty()).map_values(f);
        assert(m =~= l.map_values(f).push(Seq::<u8>::empty()));
        assert(m.last().len() == 0);
        assert(m.drop_last() =~= l.map_values(f));
        assert(drop_blank_suffix(m) == drop_blank_suffix(l.map_values(f)));
    } else {
        let k = l.len() - 1;
        assert(lines_of(s.push(b)) == l.update(k, l.last().push(b)));
        assert(l.last().push(b).drop_last() =~= l.last());
        assert(rstrip(l.last().push(b)) == rstrip(l.last()));
        let m = l.update(k, l.last().push(b)).map_values(f);
        assert(m =~= l.map_values(f));
    }
}

/// Appending any run of trailing whitespace and line feeds to an output does
/// not change how it is judged: the comparison tolerates trailing whitespace
/// on the last line and trailing blank lines.
pub proof fn lemma_normal_eq_trailing(s: Seq<u8>, t: Seq<u8>)
    requires
        forall|i: int| 0 <= i < t.len() ==> is_ws(#[trigger] t[i]) || t[i] == 0x0a,
    ensures
        normal_eq(s + t, s),
    decreases t.len(),
{
    if t.len() == 0 {
        assert(s + t =~= s);
    } else {
        lemma_normal_eq_trailing(s, t.drop_last());
        assert(s + t =~= (s + t.drop_last()).push(t.last()));
        lemma_canon_push_trailing(s + t.drop_last(), t.last());
    }
}

/// Two outputs with equally many lines whose corresponding lines differ only
/// in trailing whitespace are judged equal: the comparison tolerates trailing
/// whitespace on every line.
pub proof fn lemma_normal_eq_rstripped_lines(a: Seq<u8>, b: Seq<u8>)
    requires
        lines_of(a).len() == lines_of(b).len(),
        forall|i: int|
            0 <= i < lines_of(a).len() ==> rstrip(#[trigger] lines_of(a)[i]) == rstrip(
                lines_of(b)[i],
            ),
    ensures
        normal_eq(a, b),
{
    let f = |l: Seq<u8>| rstrip(l);
    assert(lines_of(a).map_values(f) =~= lines_of(b).map_values(f));
}

/// An output is canonical when splitting, stripping and blank-dropping leave
/// it as it is: no line has trailing whitespace and no blank line ends it.
pub open spec fn canonical(s: Seq<u8>) -> bool {
    canon(s) == lines_of(s)
}

/// On canonical outputs the comparison is exact: two canonical outputs that
/// the judge accepts as equal are identical.
pub proof fn lemma_exact_on_canonical(a: Seq<u8>, b: Seq<u8>)
    requires
        canonical(a),
        canonical(b),
        normal_eq(a, b),
    ensures
        a == b,
{
    lemma_join_lines(a);
    lemma_join_lines(b);
}

/// Whether two byte vectors hold the same bytes.
fn bytes_eq(a: &Vec<u8>, b: &Vec<u8>) -> (r: bool)
    ensures
        r == (a@ == b@),
{
    if a.len() != b.len() {
        return false;
    }
    let mut i: usize = 0;
    while i < a.len()
        invariant
            0 <= i <= a.len(),
            a@.len() == b@.len(),
            forall|j: int| 0 <= j < i ==> a@[j] == b@[j],
        decreases a.len() - i,
    {
        if a[i] != b[i] {
            return false;
        }
        i = i + 1;
    }
    proof {
        assert(a@ =~= b@);
    }
    true
}

} // verus!
