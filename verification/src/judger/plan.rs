//! Planning the test set of a problem: the base names that appear with both
//! the input suffix and the output suffix in the test-data directory, in
//! lexicographic order.
use vstd::prelude::*;

verus! {

/// Strict lexicographic order on character sequences, by code point.
pub open spec fn lex_lt(a: Seq<char>, b: Seq<char>) -> bool
    decreases a.len(),
{
    if b.len() == 0 {
        false
    } else if a.len() == 0 {
        true
    } else if a[0] == b[0] {
        lex_lt(a.drop_first(), b.drop_first())
    } else {
        (a[0] as u32) < (b[0] as u32)
    }
}

/// A sequence of names in strictly increasing lexicographic order; such a
/// sequence has no repeated name.
pub open spec fn sorted_strict(ss: Seq<Seq<char>>) -> bool {
    forall|i: int, j: int| 0 <= i < j < ss.len() ==> lex_lt(ss[i], ss[j])
}

/// The views of a list of strings.
pub open spec fn sviews(ss: Seq<String>) -> Seq<Seq<char>> {
    ss.map_values(|s: String| s@)
}

/// `suf` is the tail of `s`.
pub open spec fn has_suffix(s: Seq<char>, suf: Seq<char>) -> bool {
    s.len() >= suf.len() && s.skip(s.len() - suf.len()) == suf
}

/// `r` is the planned test set of the directory listing `names`: exactly
/// the base names present with both the `.in` and the `.out` suffix, in
/// strictly increasing lexicographic order.
pub open spec fn is_plan(names: Seq<Seq<char>>, r: Seq<Seq<char>>) -> bool {
    &&& sorted_strict(r)
    &&& forall|t: Seq<char>| #[trigger]
        r.contains(t) <==> (names.contains(t + ".in"@) && names.contains(t + ".out"@))
}

/// Of two distinct names one is lexicographically below the other.
pub proof fn lemma_lex_total(a: Seq<char>, b: Seq<char>)
    ensures
        lex_lt(a, b) || lex_lt(b, a) || a == b,
    decreases a.len(),
{
    if a.len() == 0 || b.len() == 0 {
    } else if a[0] == b[0] {
        lemma_lex_total(a.drop_first(), b.drop_first());
        if a.drop_first() == b.drop_first() {
            assert(a.drop_first().len() == b.drop_first().len());
            assert(a.len() == b.len());
            assert forall|i: int| 0 <= i < a.len() implies a[i] == b[i] by {
                if i > 0 {
                    assert(a.drop_first()[i - 1] == b.drop_first()[i - 1]);
                }
            }
            assert(a =~= b);
        }
    } else {
        if !((a[0] as u32) < (b[0] as u32)) && !((b[0] as u32) < (a[0] as u32)) {
            assert(a[0] as u32 == b[0] as u32);
            vstd::utf8::char_u32_cast(a[0], a[0] as u32);
            vstd::utf8::char_u32_cast(b[0], b[0] as u32);
            assert(a[0] == b[0]);
        }
    }
}

/// The lexicographic order is transitive.
pub proof fn lemma_lex_trans(a: Seq<char>, b: Seq<char>, c: Seq<char>)
    requires
        lex_lt(a, b),
        lex_lt(b, c),
    ensures
        lex_lt(a, c),
    decreases a.len(),
{
    if a.len() > 0 && b.len() > 0 && c.len() > 0 {
        if a[0] == b[0] && b[0] == c[0] {
            lemma_lex_trans(a.drop_first(), b.drop_first(), c.drop_first());
        }
    }
}

/// Decides the strict lexicographic order on two names.
pub fn str_lt(a: &str, b: &str) -> (r: bool)
    ensures
        r == lex_lt(a@, b@),
{
    let an = a.unicode_len();
    let bn = b.unicode_len();
    proof {
        assert(a@.skip(0) =~= a@);
        assert(b@.skip(0) =~= b@);
    }
    let mut i: usize = 0;
    while i < an && i < bn
        invariant
            0 <= i <= an,
            0 <= i <= bn,
            an == a@.len(),
            bn == b@.len(),
            lex_lt(a@, b@) == lex_lt(a@.skip(i as int), b@.skip(i as int)),
        decreases an - i,
    {
        let ca = a.get_char(i);
        let cb = b.get_char(i);
        proof {
            assert(a@.skip(i as int)[0] == ca);
            assert(b@.skip(i as int)[0] == cb);
            assert(a@.skip(i as int).drop_first() =~= a@.skip(i + 1));
            assert(b@.skip(i as int).drop_first() =~= b@.skip(i + 1));
        }
        if (ca as u32) < (cb as u32) {
            return true;
        }
        if (cb as u32) < (ca as u32) {
            return false;
        }
        proof {
            assert(ca as u32 == cb as u32);
            vstd::utf8::char_u32_cast(ca, ca as u32);
            vstd::utf8::char_u32_cast(cb, cb as u32);
            assert(ca == cb);
        }
        i = i + 1;
    }
    proof {
        if i == an {
            assert(a@.skip(i as int) =~= Seq::<char>::empty());
        }
        if i == bn {
            assert(b@.skip(i as int) =~= Seq::<char>::empty());
        }
    }
    an < bn
}

/// Whether two names are the same string.
pub fn str_eq(a: &str, b: &str) -> (r: bool)
    ensures
        r == (a@ == b@),
{
    let an = a.unicode_len();
    let bn = b.unicode_len();
    if an != bn {
        return false;
    }
    let mut i: usize = 0;
    while i < an
        invariant
            0 <= i <= an,
            an == a@.len(),
            an == b@.len(),
            forall|j: int| 0 <= j < i ==> a@[j] == b@[j],
        decreases an - i,
    {
        if a.get_char(i) != b.get_char(i) {
            return false;
        }
        i = i + 1;
    }
    proof {
        assert(a@ =~= b@);
    }
    true
}

/// Whether the name ends in the given suffix.
pub fn ends_with_suffix(s: &str, suf: &str) -> (r: bool)
    ensures
        r == has_suffix(s@, suf@),
{
    let n = s.unicode_len();
    let m = suf.unicode_len();
    if n < m {
        return false;
    }
    let mut k: usize = 0;
    while k < m
        invariant
            0 <= k <= m,
            m <= n,
            n == s@.len(),
            m == suf@.len(),
            forall|j: int| 0 <= j < k ==> s@[n - m + j] == suf@[j],
        decreases m - k,
    {
        if s.get_char(n - m + k) != suf.get_char(k) {
            proof {
                assert(s@.skip((n - m) as int)[k as int] == s@[n - m + k]);
            }
            return false;
        }
        k = k + 1;
    }
    proof {
        assert(s@.skip((n - m) as int) =~= suf@);
    }
    true
}

/// Inserts a name into a sorted duplicate-free list, keeping it so; a name
/// already present is left alone.
fn sorted_insert(v: &mut Vec<String>, x: String)
    requires
        sorted_strict(sviews(old(v)@)),
    ensures
        sorted_strict(sviews(final(v)@)),
        forall|t: Seq<char>| #[trigger]
            sviews(final(v)@).contains(t) <==> (sviews(old(v)@).contains(t) || t == x@),
{
    let ghost vs = sviews(v@);
    let mut i: usize = 0;
    while i < v.len() && str_lt(v[i].as_str(), x.as_str())
        invariant
            0 <= i <= v@.len(),
            vs == sviews(v@),
            sorted_strict(vs),
            forall|j: int| 0 <= j < i ==> lex_lt(#[trigger] vs[j], x@),
        decreases v@.len() - i,
    {
        proof {
            assert(vs[i as int] == v@[i as int]@);
        }
        i = i + 1;
    }
    if i < v.len() && v[i] == x {
        proof {
            assert(vs[i as int] == x@);
            assert forall|t: Seq<char>| #[trigger]
                sviews(v@).contains(t) <==> (sviews(v@).contains(t) || t == x@) by {
                if t == x@ {
                    assert(sviews(v@)[i as int] == x@);
                    assert(sviews(v@).contains(t));
                }
            }
        }
        return ;
    }
    proof {
        if i < v@.len() {
            assert(vs[i as int] == v@[i as int]@);
            lemma_lex_total(vs[i as int], x@);
        }
    }
    v.insert(i, x);
    proof {
        let ws = sviews(v@);
        assert(ws =~= vs.take(i as int) + seq![x@] + vs.skip(i as int));
        assert forall|p: int, q: int| 0 <= p < q < ws.len() implies lex_lt(ws[p], ws[q]) by {
            if q < i {
                assert(ws[p] == vs[p] && ws[q] == vs[q]);
            } else if p > i {
                assert(ws[p] == vs[p - 1] && ws[q] == vs[q - 1]);
            } else if p < i && q == i {
                assert(ws[p] == vs[p] && ws[q] == x@);
            } else if p == i && q > i {
                assert(ws[p] == x@ && ws[q] == vs[q - 1]);
                assert(lex_lt(x@, vs[i as int]));
                if q - 1 > i {
                    assert(lex_lt(vs[i as int], vs[q - 1]));
                    lemma_lex_trans(x@, vs[i as int], vs[q - 1]);
                }
            } else if p < i && q > i {
                assert(ws[p] == vs[p] && ws[q] == vs[q - 1]);
                if q - 1 == i {
                    assert(lex_lt(vs[p], x@));
                } else {
                    assert(lex_lt(vs[p], vs[q - 1]));
                }
            }
        }
        assert forall|t: Seq<char>| #[trigger]
            ws.contains(t) <==> (vs.contains(t) || t == x@) by {
            if ws.contains(t) {
                let k = choose|k: int| 0 <= k < ws.len() && #[trigger] ws[k] == t;
                if k < i {
                    assert(vs[k] == t);
                } else if k == i {
                } else {
                    assert(vs[k - 1] == t);
                }
            }
            if vs.contains(t) {
                let k = choose|k: int| 0 <= k < vs.len() && #[trigger] vs[k] == t;
                if k < i {
                    assert(ws[k] == t);
                } else {
                    assert(ws[k + 1] == t);
                }
            }
            if t == x@ {
                assert(ws[i as int] == t);
            }
        }
    }
}

/// Membership in a one-longer prefix is membership in the prefix or equality
/// with the newly covered element.
proof fn lemma_take_one_more_contains<T>(s: Seq<T>, i: int, x: T)
    requires
        0 <= i < s.len(),
    ensures
        s.take(i + 1).contains(x) <==> (s.take(i).contains(x) || x == s[i]),
{
    if s.take(i + 1).contains(x) {
        let k = choose|k: int| 0 <= k < i + 1 && #[trigger] s.take(i + 1)[k] == x;
        if k < i {
            assert(s.take(i)[k] == x);
        }
    }
    if s.take(i).contains(x) {
        let k = choose|k: int| 0 <= k < i && #[trigger] s.take(i)[k] == x;
        assert(s.take(i + 1)[k] == x);
    }
    if x == s[i] {
        assert(s.take(i + 1)[i] == x);
    }
}

/// A name with the given tail is that tail appended to the rest.
proof fn lemma_suffix_split(s: Seq<char>, suf: Seq<char>)
    requires
        has_suffix(s, suf),
    ensures
        s == s.take(s.len() - suf.len()) + suf,
{
    assert(s =~= s.take(s.len() - suf.len()) + s.skip(s.len() - suf.len()));
}

/// Appending a tail to a name leaves the tail as a suffix and the name as
/// the front.
proof fn lemma_concat_suffix(t: Seq<char>, suf: Seq<char>)
    ensures
        has_suffix(t + suf, suf),
        (t + suf).take(t.len() as int) == t,
{
    assert((t + suf).skip(t.len() as int) =~= suf);
    assert((t + suf).take(t.len() as int) =~= t);
}

/// The set of base names that occur with both the `.in` suffix and the
/// `.out` suffix among the given file names, in strictly increasing
/// lexicographic order.
pub fn plan_tests(names: &Vec<String>) -> (r: Vec<String>)
    ensures
        is_plan(sviews(names@), sviews(r@)),
{
    proof {
        reveal_strlit(".in");
        reveal_strlit(".out");
    }
    let ghost ns = sviews(names@);
    let mut ins: Vec<String> = Vec::new();
    let mut outs: Vec<String> = Vec::new();
    let mut i: usize = 0;
    proof {
        assert(ns.take(0) =~= Seq::<Seq<char>>::empty());
    }
    while i < names.len()
        invariant
            0 <= i <= names@.len(),
            ns == sviews(names@),
            sorted_strict(sviews(ins@)),
            sorted_strict(sviews(outs@)),
            forall|t: Seq<char>| #[trigger]
                sviews(ins@).contains(t) <==> ns.take(i as int).contains(t + ".in"@),
            forall|t: Seq<char>| #[trigger]
                sviews(outs@).contains(t) <==> ns.take(i as int).contains(t + ".out"@),
        decreases names@.len() - i,
    {
        let name = &names[i];
        let ghost nv = ns[i as int];
        proof {
            reveal_strlit(".in");
            reveal_strlit(".out");
            assert(nv == names@[i as int]@);
        }
        if ends_with_suffix(name.as_str(), ".in") {
            let n = name.as_str().unicode_len();
            let base = name.as_str().substring_char(0, n - 3);
            let ghost old_ins = sviews(ins@);
            sorted_insert(&mut ins, String::from_str(base));
            proof {
                let bv = nv.take(n - 3);
                assert(base@ =~= bv);
                lemma_suffix_split(nv, ".in"@);
                assert forall|t: Seq<char>| #[trigger]
                    sviews(ins@).contains(t) <==> ns.take(i + 1).contains(t + ".in"@) by {
                    lemma_take_one_more_contains(ns, i as int, t + ".in"@);
                    lemma_concat_suffix(t, ".in"@);
                    if t == bv {
                        assert(nv == t + ".in"@);
                    }
                    if nv == t + ".in"@ {
                        assert(t =~= nv.take(n - 3));
                    }
                }
                assert forall|t: Seq<char>| #[trigger]
                    sviews(outs@).contains(t) <==> ns.take(i + 1).contains(t + ".out"@) by {
                    lemma_take_one_more_contains(ns, i as int, t + ".out"@);
                    if nv == t + ".out"@ {
                        lemma_concat_suffix(t, ".out"@);
                        assert(nv[nv.len() - 1] == 't');
                        assert(nv[nv.len() - 1] == 'n');
                    }
                }
            }
        } else if ends_with_suffix(name.as_str(), ".out") {
            let n = name.as_str().unicode_len();
            let base = name.as_str().substring_char(0, n - 4);
            sorted_insert(&mut outs, String::from_str(base));
            proof {
                let bv = nv.take(n - 4);
                assert(base@ =~= bv);
                lemma_suffix_split(nv, ".out"@);
                assert forall|t: Seq<char>| #[trigger]
                    sviews(outs@).contains(t) <==> ns.take(i + 1).contains(t + ".out"@) by {
                    lemma_take_one_more_contains(ns, i as int, t + ".out"@);
                    lemma_concat_suffix(t, ".out"@);
                    if t == bv {
                        assert(nv == t + ".out"@);
                    }
                    if nv == t + ".out"@ {
                        assert(t =~= nv.take(n - 4));
                    }
                }
                assert forall|t: Seq<char>| #[trigger]
                    sviews(ins@).contains(t) <==> ns.take(i + 1).contains(t + ".in"@) by {
                    lemma_take_one_more_contains(ns, i as int, t + ".in"@);
                    if nv == t + ".in"@ {
                        lemma_concat_suffix(t, ".in"@);
                        assert(has_suffix(nv, ".in"@));
                    }
                }
            }
        } else {
            proof {
                assert forall|t: Seq<char>| #[trigger]
                    sviews(ins@).contains(t) <==> ns.take(i + 1).contains(t + ".in"@) by {
                    lemma_take_one_more_contains(ns, i as int, t + ".in"@);
                    if nv == t + ".in"@ {
                        lemma_concat_suffix(t, ".in"@);
                        assert(has_suffix(nv, ".in"@));
                    }
                }
                assert forall|t: Seq<char>| #[trigger]
                    sviews(outs@).contains(t) <==> ns.take(i + 1).contains(t + ".out"@) by {
                    lemma_take_one_more_contains(ns, i as int, t + ".out"@);
                    if nv == t + ".out"@ {
                        lemma_concat_suffix(t, ".out"@);
                        assert(has_suffix(nv, ".out"@));
                    }
                }
            }
        }
        i = i + 1;
    }
    proof {
        assert(ns.take(i as int) =~= ns);
    }
    let ghost iv = sviews(ins@);
    let ghost ov = sviews(outs@);
    let mut r: Vec<String> = Vec::new();
    let mut k: usize = 0;
    proof {
        assert(iv.take(0) =~= Seq::<Seq<char>>::empty());
    }
    while k < ins.len()
        invariant
            0 <= k <= ins@.len(),
            iv == sviews(ins@),
            ov == sviews(outs@),
            sorted_strict(iv),
            sorted_strict(sviews(r@)),
            forall|t: Seq<char>| #[trigger]
                sviews(r@).contains(t) <==> (iv.take(k as int).contains(t) && ov.contains(t)),
        decreases ins@.len() - k,
    {
        let ghost xv = iv[k as int];
        proof {
            assert(xv == ins@[k as int]@);
        }
        if contains_str(&outs, &ins[k]) {
            let ghost old_r = sviews(r@);
            let x = ins[k].clone();
            r.push(x);
            proof {
                assert(sviews(r@) =~= old_r.push(xv));
                assert forall|p: int, q: int|
                    0 <= p < q < sviews(r@).len() implies lex_lt(
                    sviews(r@)[p],
                    sviews(r@)[q],
                ) by {
                    if q == sviews(r@).len() - 1 {
                        assert(old_r.contains(old_r[p]));
                        let m = choose|m: int| 0 <= m < k && #[trigger] iv.take(k as int)[m] == old_r[p];
                        assert(iv[m] == old_r[p]);
                        assert(lex_lt(iv[m], iv[k as int]));
                    }
                }
                assert forall|t: Seq<char>| #[trigger]
                    sviews(r@).contains(t) <==> (iv.take(k + 1).contains(t) && ov.contains(
                        t,
                    )) by {
                    lemma_take_one_more_contains(iv, k as int, t);
                    if sviews(r@).contains(t) {
                        let m = choose|m: int| 0 <= m < sviews(r@).len() && #[trigger] sviews(r@)[m] == t;
                        if m < old_r.len() {
                            assert(old_r[m] == t);
                        }
                    }
                    if t == xv {
                        assert(sviews(r@).last() == t);
                    }
                    if old_r.contains(t) {
                        let m = choose|m: int| 0 <= m < old_r.len() && #[trigger] old_r[m] == t;
                        assert(sviews(r@)[m] == t);
                    }
                }
            }
        } else {
            proof {
                assert forall|t: Seq<char>| #[trigger]
                    sviews(r@).contains(t) <==> (iv.take(k + 1).contains(t) && ov.contains(
                        t,
                    )) by {
                    lemma_take_one_more_contains(iv, k as int, t);
                }
            }
        }
        k = k + 1;
    }
    proof {
        assert(iv.take(k as int) =~= iv);
    }
    r
}

/// Whether the list holds the given name.
fn contains_str(v: &Vec<String>, x: &String) -> (r: bool)
    ensures
        r == sviews(v@).contains(x@),
{
    let mut i: usize = 0;
    while i < v.len()
        invariant
            0 <= i <= v@.len(),
            forall|j: int| 0 <= j < i ==> sviews(v@)[j] != x@,
        decreases v@.len() - i,
    {
        if v[i] == *x {
            proof {
                assert(sviews(v@)[i as int] == x@);
            }
            return true;
        }
        proof {
            assert(sviews(v@)[i as int] == v@[i as int]@);
        }
        i = i + 1;
    }
    proof {
        assert(forall|j: int| 0 <= j < sviews(v@).len() ==> sviews(v@)[j] != x@);
    }
    false
}

} // verus!
