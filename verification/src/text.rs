//! Character- and byte-sequence helpers shared by the naming, routing and
//! rewriting rules: prefix and suffix tests, splitting, joining and
//! left-to-right replacement, each with the meaning `str` gives it.

use vstd::prelude::*;

verus! {

/// The characters of `s`, in order.
pub fn chars_of(s: &str) -> (r: Vec<char>)
    ensures
        r@ == s@,
{
    let n = s.unicode_len();
    let mut r: Vec<char> = Vec::new();
    let mut i: usize = 0;
    while i < n
        invariant
            n == s@.len(),
            i <= n,
            r@ == s@.take(i as int),
        decreases n - i,
    {
        let c = s.get_char(i);
        r.push(c);
        proof {
            assert(s@.take(i + 1) == s@.take(i as int).push(s@[i as int]));
        }
        i = i + 1;
    }
    proof {
        assert(s@.take(n as int) == s@);
    }
    r
}

/// `String::from_iter`: the string made of `cs`, in order.
#[verifier::external_body]
pub(crate) fn string_of(cs: &Vec<char>) -> (r: String)
    ensures
        r@ == cs@,
{
    String::from_iter(cs.iter())
}

/// `a` followed by `b`.
pub fn append_chars(a: &mut Vec<char>, b: &Vec<char>)
    ensures
        final(a)@ == old(a)@ + b@,
{
    let ghost start = a@;
    let mut i: usize = 0;
    while i < b.len()
        invariant
            i <= b.len(),
            a@ == start + b@.take(i as int),
        decreases b.len() - i,
    {
        a.push(b[i]);
        proof {
            assert(b@.take(i + 1) == b@.take(i as int).push(b@[i as int]));
        }
        i = i + 1;
    }
    proof {
        assert(b@.take(b.len() as int) == b@);
    }
}

/// The string `a`, `b` and `c` make one after the other.
pub fn concat3(a: &str, b: &str, c: &str) -> (r: String)
    ensures
        r@ == a@ + b@ + c@,
{
    let mut v = chars_of(a);
    append_chars(&mut v, &chars_of(b));
    append_chars(&mut v, &chars_of(c));
    string_of(&v)
}

/// Whether `a` and `b` hold the same characters.
pub fn equal_chars(a: &Vec<char>, b: &Vec<char>) -> (r: bool)
    ensures
        r == (a@ == b@),
{
    if a.len() != b.len() {
        return false;
    }
    let mut i: usize = 0;
    while i < a.len()
        invariant
            a.len() == b.len(),
            i <= a.len(),
            forall|j: int| 0 <= j < i ==> a@[j] == b@[j],
        decreases a.len() - i,
    {
        if a[i] != b[i] {
            return false;
        }
        i = i + 1;
    }
    proof {
        assert(a@ =~= b@);
    }
    true
}

/// `p` is a prefix of `s`.
pub open spec fn has_prefix<A>(s: Seq<A>, p: Seq<A>) -> bool {
    p.len() <= s.len() && s.take(p.len() as int) == p
}

/// `p` is a suffix of `s`.
pub open spec fn has_suffix<A>(s: Seq<A>, p: Seq<A>) -> bool {
    p.len() <= s.len() && s.skip(s.len() - p.len()) == p
}

pub fn starts_with_chars(s: &Vec<char>, p: &Vec<char>) -> (r: bool)
    ensures
        r == has_prefix(s@, p@),
{
    if p.len() > s.len() {
        return false;
    }
    let mut i: usize = 0;
    while i < p.len()
        invariant
            p.len() <= s.len(),
            i <= p.len(),
            forall|j: int| 0 <= j < i ==> s@[j] == p@[j],
        decreases p.len() - i,
    {
        if s[i] != p[i] {
            proof {
                assert(s@.take(p.len() as int)[i as int] != p@[i as int]);
            }
            return false;
        }
        i = i + 1;
    }
    proof {
        assert(s@.take(p.len() as int) =~= p@);
    }
    true
}

pub fn ends_with_chars(s: &Vec<char>, p: &Vec<char>) -> (r: bool)
    ensures
        r == has_suffix(s@, p@),
{
    if p.len() > s.len() {
        return false;
    }
    let off = s.len() - p.len();
    let mut i: usize = 0;
    while i < p.len()
        invariant
            p.len() <= s.len(),
            off == s.len() - p.len(),
            i <= p.len(),
            forall|j: int| 0 <= j < i ==> s@[off + j] == p@[j],
        decreases p.len() - i,
    {
        if s[off + i] != p[i] {
            proof {
                assert(s@.skip(off as int)[i as int] != p@[i as int]);
            }
            return false;
        }
        i = i + 1;
    }
    proof {
        assert(s@.skip(off as int) =~= p@);
    }
    true
}

/// The elements of `s` from index `from` up to (not including) `to`.
pub fn slice_chars(s: &Vec<char>, from: usize, to: usize) -> (r: Vec<char>)
    requires
        from <= to <= s.len(),
    ensures
        r@ == s@.subrange(from as int, to as int),
{
    let mut r: Vec<char> = Vec::new();
    let mut i = from;
    while i < to
        invariant
            from <= i <= to <= s.len(),
            r@ == s@.subrange(from as int, i as int),
        decreases to - i,
    {
        r.push(s[i]);
        proof {
            assert(s@.subrange(from as int, i + 1) == s@.subrange(from as int, i as int).push(s@[i as int]));
        }
        i = i + 1;
    }
    r
}

/// `c` occurs in `s`.
pub fn contains_char(s: &Vec<char>, c: char) -> (r: bool)
    ensures
        r == s@.contains(c),
{
    let mut i: usize = 0;
    while i < s.len()
        invariant
            i <= s.len(),
            forall|j: int| 0 <= j < i ==> s@[j] != c,
        decreases s.len() - i,
    {
        if s[i] == c {
            return true;
        }
        i = i + 1;
    }
    false
}

/// The pieces of `s` between occurrences of `sep`, as `str::split` yields
/// them: empty pieces included, one piece more than there are separators.
pub open spec fn split_chars(s: Seq<char>, sep: char) -> Seq<Seq<char>>
    decreases s.len(),
{
    if s.len() == 0 {
        seq![Seq::<char>::empty()]
    } else {
        let init = split_chars(s.drop_last(), sep);
        if s.last() == sep {
            init.push(Seq::<char>::empty())
        } else {
            init.update(init.len() - 1, init.last().push(s.last()))
        }
    }
}

proof fn lemma_split_nonempty(s: Seq<char>, sep: char)
    ensures
        split_chars(s, sep).len() >= 1,
    decreases s.len(),
{
    if s.len() > 0 {
        lemma_split_nonempty(s.drop_last(), sep);
    }
}

/// The views of a vector of character vectors.
pub open spec fn views(v: Seq<Vec<char>>) -> Seq<Seq<char>> {
    v.map_values(|x: Vec<char>| x@)
}

/// `s` split at every `sep`, empty pieces included.
pub fn split_on(s: &Vec<char>, sep: char) -> (r: Vec<Vec<char>>)
    ensures
        views(r@) == split_chars(s@, sep),
{
    let mut pieces: Vec<Vec<char>> = Vec::new();
    let mut cur: Vec<char> = Vec::new();
    let mut i: usize = 0;
    while i < s.len()
        invariant
            i <= s.len(),
            views(pieces@).push(cur@) == split_chars(s@.take(i as int), sep),
        decreases s.len() - i,
    {
        let c = s[i];
        proof {
            assert(s@.take(i + 1).drop_last() == s@.take(i as int));
            assert(s@.take(i + 1).last() == c);
            lemma_split_nonempty(s@.take(i as int), sep);
        }
        if c == sep {
            let ghost old_pieces = views(pieces@);
            let done = cur;
            pieces.push(done);
            cur = Vec::new();
            proof {
                assert(views(pieces@) =~= old_pieces.push(done@));
                assert(views(pieces@).push(cur@) =~= split_chars(s@.take(i + 1), sep));
            }
        } else {
            let ghost old_cur = cur@;
            cur.push(c);
            proof {
                assert(views(pieces@).push(cur@) =~= split_chars(s@.take(i + 1), sep));
            }
        }
        i = i + 1;
    }
    proof {
        assert(s@.take(s.len() as int) == s@);
    }
    let ghost old_pieces = views(pieces@);
    pieces.push(cur);
    proof {
        assert(views(pieces@) =~= old_pieces.push(cur@));
    }
    pieces
}

/// `s` with its empty pieces dropped.
pub open spec fn non_empty(s: Seq<Seq<char>>) -> Seq<Seq<char>> {
    s.filter(|p: Seq<char>| p.len() > 0)
}

/// The non-empty pieces of `pieces`, in order.
pub fn drop_empty(pieces: &Vec<Vec<char>>) -> (r: Vec<Vec<char>>)
    ensures
        views(r@) == non_empty(views(pieces@)),
{
    let mut r: Vec<Vec<char>> = Vec::new();
    let ghost all = views(pieces@);
    let n = pieces.len();
    let mut i: usize = 0;
    while i < n
        invariant
            n == pieces.len(),
            all == views(pieces@),
            i <= n,
            views(r@) == non_empty(all.take(i as int)),
        decreases n - i,
    {
        let p = &pieces[i];
        proof {
            assert(p@ == all[i as int]);
            assert(all.take(i + 1).drop_last() == all.take(i as int));
            assert(all.take(i + 1).last() == all[i as int]);
            reveal(Seq::filter);
        }
        if p.len() > 0 {
            let copy = slice_chars(p, 0, p.len());
            proof {
                assert(copy@ =~= p@);
            }
            let ghost old_r = views(r@);
            r.push(copy);
            proof {
                assert(views(r@) =~= old_r.push(p@));
            }
        }
        proof {
            assert(views(r@) == non_empty(all.take(i + 1)));
        }
        i = i + 1;
    }
    proof {
        assert(all.take(n as int) == all);
    }
    r
}

/// A piece that `Path::components` keeps after the first: neither empty nor `.`.
pub open spec fn is_normal_piece(p: Seq<char>) -> bool {
    p.len() > 0 && p != seq!['.']
}

/// The components of a `/`-separated path, as `Path::components` reads
/// them: `/` for a leading separator, then the pieces between separators
/// with empty ones left out and `.` kept only at the very front.
pub open spec fn path_components(path: Seq<char>) -> Seq<Seq<char>> {
    let pieces = split_chars(path, '/');
    let head: Seq<Seq<char>> = if path.len() > 0 && path[0] == '/' {
        seq![seq!['/']]
    } else if pieces[0].len() > 0 {
        seq![pieces[0]]
    } else {
        Seq::empty()
    };
    head + pieces.drop_first().filter(|p: Seq<char>| is_normal_piece(p))
}

/// The components of the `/`-separated path `path`.
pub fn path_components_of(path: &Vec<char>) -> (r: Vec<Vec<char>>)
    ensures
        views(r@) == path_components(path@),
{
    let pieces = split_on(path, '/');
    proof {
        lemma_split_nonempty(path@, '/');
    }
    let ghost all = views(pieces@);
    let mut r: Vec<Vec<char>> = Vec::new();
    if path.len() > 0 && path[0] == '/' {
        let root: Vec<char> = vec!['/'];
        proof {
            assert(root@ =~= seq!['/']);
        }
        r.push(root);
        proof {
            assert(views(r@)[0] == root@);
            assert(views(r@) =~= seq![seq!['/']]);
        }
    } else if pieces[0].len() > 0 {
        let first = slice_chars(&pieces[0], 0, pieces[0].len());
        r.push(first);
        proof {
            assert(first@ =~= all[0]);
            assert(views(r@) =~= seq![all[0]]);
        }
    } else {
        proof {
            assert(views(r@) =~= Seq::<Seq<char>>::empty());
        }
    }
    let ghost head = views(r@);
    let ghost rest = all.drop_first();
    let n = pieces.len();
    let mut i: usize = 1;
    proof {
        assert(rest.take(0) =~= Seq::<Seq<char>>::empty());
        reveal(Seq::filter);
        assert(head + rest.take(0).filter(|p: Seq<char>| is_normal_piece(p)) =~= head);
    }
    while i < n
        invariant
            n == pieces.len(),
            all == views(pieces@),
            rest == all.drop_first(),
            1 <= i <= n,
            views(r@) == head + rest.take(i - 1).filter(|p: Seq<char>| is_normal_piece(p)),
        decreases n - i,
    {
        let p = &pieces[i];
        proof {
            assert(p@ == rest[i - 1]);
            assert(rest.take(i as int).drop_last() == rest.take(i - 1));
            assert(rest.take(i as int).last() == rest[i - 1]);
            reveal(Seq::filter);
        }
        let is_dot = p.len() == 1 && p[0] == '.';
        proof {
            if is_dot { assert(p@ =~= seq!['.']); }
            if p@ == seq!['.'] { assert(is_dot); }
        }
        let ghost before = views(r@);
        if p.len() > 0 && !is_dot {
            let copy = slice_chars(p, 0, p.len());
            proof {
                assert(copy@ =~= p@);
            }
            r.push(copy);
            proof {
                assert(views(r@) =~= before.push(p@));
            }
        }
        proof {
            assert(views(r@) =~= head + rest.take(i as int).filter(|p: Seq<char>| is_normal_piece(p)));
        }
        i = i + 1;
    }
    proof {
        assert(rest.take(n - 1) == rest);
    }
    r
}

/// The pieces of `list` joined with `sep` between each two.
pub open spec fn join_with(list: Seq<Seq<char>>, sep: Seq<char>) -> Seq<char>
    decreases list.len(),
{
    if list.len() == 0 {
        Seq::empty()
    } else if list.len() == 1 {
        list[0]
    } else {
        join_with(list.drop_last(), sep) + sep + list.last()
    }
}

/// `list` joined with `sep`, as `[..].join(sep)` does.
pub fn join_on(list: &Vec<Vec<char>>, sep: &Vec<char>) -> (r: Vec<char>)
    ensures
        r@ == join_with(views(list@), sep@),
{
    let mut r: Vec<char> = Vec::new();
    let mut i: usize = 0;
    while i < list.len()
        invariant
            i <= list.len(),
            r@ == join_with(views(list@).take(i as int), sep@),
        decreases list.len() - i,
    {
        let ghost before = r@;
        if i > 0 {
            let mut k: usize = 0;
            while k < sep.len()
                invariant
                    k <= sep.len(),
                    r@ == before + sep@.take(k as int),
                decreases sep.len() - k,
            {
                r.push(sep[k]);
                proof {
                    assert(sep@.take(k + 1) == sep@.take(k as int).push(sep@[k as int]));
                }
                k = k + 1;
            }
            proof {
                assert(sep@.take(sep.len() as int) == sep@);
            }
        }
        let ghost mid = r@;
        let piece = &list[i];
        let mut k: usize = 0;
        while k < piece.len()
            invariant
                k <= piece.len(),
                r@ == mid + piece@.take(k as int),
            decreases piece.len() - k,
        {
            r.push(piece[k]);
            proof {
                assert(piece@.take(k + 1) == piece@.take(k as int).push(piece@[k as int]));
            }
            k = k + 1;
        }
        proof {
            assert(piece@.take(piece.len() as int) == piece@);
            let vs = views(list@);
            assert(vs.take(i + 1).drop_last() =~= vs.take(i as int));
            assert(vs.take(i + 1).last() == piece@);
            if i == 0 {
                assert(vs.take(1).len() == 1);
                assert(r@ =~= vs.take(1)[0]);
            }
        }
        i = i + 1;
    }
    proof {
        assert(views(list@).take(list.len() as int) =~= views(list@));
    }
    r
}

/// `s` with every occurrence of `pat` replaced by `rep`, scanning left to
/// right and never looking inside a replacement, as `str::replace` does.
pub open spec fn replace_all<A>(s: Seq<A>, pat: Seq<A>, rep: Seq<A>) -> Seq<A>
    recommends
        pat.len() > 0,
    decreases s.len(),
{
    if pat.len() == 0 || s.len() < pat.len() {
        s
    } else if s.take(pat.len() as int) == pat {
        rep + replace_all(s.skip(pat.len() as int), pat, rep)
    } else {
        seq![s[0]] + replace_all(s.skip(1), pat, rep)
    }
}

/// Every occurrence of `pat` in `s` replaced by `rep`.
pub fn replace_bytes(s: &Vec<u8>, pat: &Vec<u8>, rep: &Vec<u8>) -> (r: Vec<u8>)
    requires
        pat.len() > 0,
    ensures
        r@ == replace_all(s@, pat@, rep@),
{
    let mut r: Vec<u8> = Vec::new();
    let mut i: usize = 0;
    proof {
        assert(s@.skip(0) =~= s@);
        assert(r@ + s@ =~= s@);
    }
    while i < s.len()
        invariant
            pat.len() > 0,
            i <= s.len(),
            r@ + replace_all(s@.skip(i as int), pat@, rep@) == replace_all(s@, pat@, rep@),
        decreases s.len() - i,
    {
        proof {
            if i == 0 {
                assert(s@.skip(0) =~= s@);
            }
        }
        let ghost rest = s@.skip(i as int);
        let fits = pat.len() <= s.len() - i;
        let mut is_match = fits;
        let mut k: usize = 0;
        while is_match && k < pat.len()
            invariant
                i < s.len(),
                k <= pat.len(),
                fits == (i + pat.len() <= s.len()),
                is_match ==> fits,
                is_match ==> forall|j: int| 0 <= j < k ==> s@[i + j] == pat@[j],
                !is_match ==> (!fits || exists|j: int| 0 <= j < pat.len() && s@[i + j] != pat@[j]),
            decreases pat.len() - k + (if is_match { 1int } else { 0int }),
        {
            if s[i + k] != pat[k] {
                is_match = false;
            } else {
                k = k + 1;
            }
        }
        proof {
            if is_match {
                assert(rest.take(pat.len() as int) =~= pat@);
            } else if i + pat.len() <= s.len() {
                let j = choose|j: int| 0 <= j < pat.len() && s@[i + j] != pat@[j];
                assert(rest.take(pat.len() as int)[j] != pat@[j]);
            }
        }
        if is_match {
            let ghost before = r@;
            let mut k: usize = 0;
            while k < rep.len()
                invariant
                    k <= rep.len(),
                    r@ == before + rep@.take(k as int),
                decreases rep.len() - k,
            {
                r.push(rep[k]);
                proof {
                    assert(rep@.take(k + 1) == rep@.take(k as int).push(rep@[k as int]));
                }
                k = k + 1;
            }
            proof {
                assert(rep@.take(rep.len() as int) == rep@);
                assert(rest.skip(pat.len() as int) =~= s@.skip(i + pat.len()));
                assert(r@ + replace_all(s@.skip(i + pat.len()), pat@, rep@) =~= before
                    + replace_all(rest, pat@, rep@));
            }
            i = i + pat.len();
        } else {
            let ghost before = r@;
            r.push(s[i]);
            proof {
                assert(rest.skip(1) =~= s@.skip(i + 1));
                assert(r@ + replace_all(s@.skip(i + 1), pat@, rep@) =~= before
                    + replace_all(rest, pat@, rep@));
            }
            i = i + 1;
        }
    }
    proof {
        assert(s@.skip(s.len() as int) =~= Seq::<u8>::empty());
    }
    r
}


/// `pat` occurs nowhere in `s`.
pub open spec fn occurs_nowhere<A>(s: Seq<A>, pat: Seq<A>) -> bool {
    forall|i: int| 0 <= i <= s.len() - pat.len() ==> #[trigger] s.subrange(i, i + pat.len()) != pat
}

/// `pat` occurs in `s` at position `i`.
pub open spec fn occurs_at<A>(s: Seq<A>, pat: Seq<A>, i: int) -> bool {
    0 <= i && i + pat.len() <= s.len() && s.subrange(i, i + pat.len()) == pat
}

/// No `a` in `s` is directly followed by `b`.
pub open spec fn no_adjacent<A>(s: Seq<A>, a: A, b: A) -> bool {
    forall|i: int| 0 <= i < s.len() - 1 ==> !(#[trigger] s[i] == a && s[i + 1] == b)
}

/// Neither of `q` and `rep` can begin inside the other: `rep` holds no copy
/// of the first two items of `q` and does not end with the first, and the
/// same the other way round.
pub open spec fn separated<A>(q: Seq<A>, rep: Seq<A>) -> bool {
    &&& q.len() >= 2
    &&& rep.len() >= 2
    &&& no_adjacent(rep, q[0], q[1])
    &&& rep.last() != q[0]
    &&& no_adjacent(q, rep[0], rep[1])
    &&& q.last() != rep[0]
}

/// Where `pat` does not occur at the front, the first item is kept.
proof fn lemma_replace_keeps_first<A>(s: Seq<A>, pat: Seq<A>, rep: Seq<A>)
    requires
        pat.len() > 0,
        s.len() > 0,
        !occurs_at(s, pat, 0),
    ensures
        replace_all(s, pat, rep) == seq![s[0]] + replace_all(s.skip(1), pat, rep),
{
    assert(seq![s[0]] + s.skip(1) =~= s);
    if s.len() >= pat.len() {
        assert(s.subrange(0, pat.len() as int) =~= s.take(pat.len() as int));
    }
}

/// Before the first occurrence of `pat`, `s` is copied unchanged.
pub(crate) proof fn lemma_replace_prefix<A>(s: Seq<A>, pat: Seq<A>, rep: Seq<A>, k: int)
    requires
        pat.len() > 0,
        0 <= k <= s.len(),
        forall|i: int| 0 <= i < k ==> !#[trigger] occurs_at(s, pat, i),
    ensures
        replace_all(s, pat, rep) == s.take(k) + replace_all(s.skip(k), pat, rep),
    decreases k,
{
    if k == 0 {
        assert(s.skip(0) =~= s);
        assert(s.take(0) + s =~= s);
    } else {
        assert(!occurs_at(s, pat, 0));
        lemma_replace_keeps_first(s, pat, rep);
        let t = s.skip(1);
        assert forall|i: int| 0 <= i < k - 1 implies !#[trigger] occurs_at(t, pat, i) by {
            assert(!occurs_at(s, pat, i + 1));
            if 0 <= i && i + pat.len() <= t.len() {
                assert(t.subrange(i, i + pat.len()) =~= s.subrange(i + 1, i + 1 + pat.len()));
            }
        }
        lemma_replace_prefix(t, pat, rep, k - 1);
        assert(t.skip(k - 1) =~= s.skip(k));
        assert(seq![s[0]] + t.take(k - 1) =~= s.take(k));
    }
}

/// A copy of `q` at the front of `replace_all(s, pat, rep)` would have to be
/// a copy in `s` itself, once positions before `j` hold no `pat`.
proof fn lemma_front_window<A>(s: Seq<A>, pat: Seq<A>, rep: Seq<A>, q: Seq<A>, j: int)
    requires
        pat.len() > 0,
        separated(q, rep),
        1 <= j <= s.len(),
        forall|i: int| 0 <= i < j ==> !#[trigger] occurs_at(s, pat, i),
        q == pat || occurs_nowhere(s, q),
    ensures
        !occurs_at(replace_all(s, pat, rep), q, 0),
    decreases s.len() - j,
{
    let u = replace_all(s, pat, rep);
    if j == s.len() || j >= q.len() {
        lemma_replace_prefix(s, pat, rep, j);
        if j == s.len() {
            assert(s.skip(j) =~= Seq::<A>::empty());
            assert(s.take(j) =~= s);
            assert(u =~= s);
        }
        if occurs_at(u, q, 0) {
            assert(u.subrange(0, q.len() as int) =~= s.subrange(0, q.len() as int));
            if q == pat {
                assert(occurs_at(s, pat, 0));
            } else {
                assert(s.subrange(0, 0 + q.len() as int) == q);
            }
        }
    } else if occurs_at(s, pat, j) {
        lemma_replace_prefix(s, pat, rep, j);
        let t = s.skip(j);
        assert(t.take(pat.len() as int) =~= s.subrange(j, j + pat.len()));
        assert(replace_all(t, pat, rep) == rep + replace_all(t.skip(pat.len() as int), pat, rep));
        assert(u[j] == rep[0]);
        assert(u[j + 1] == rep[1]);
        if occurs_at(u, q, 0) {
            assert(q[j] == u.subrange(0, q.len() as int)[j]);
            if j + 1 < q.len() {
                assert(q[j + 1] == u.subrange(0, q.len() as int)[j + 1]);
                assert(!(q[j] == rep[0] && q[j + 1] == rep[1]));
            } else {
                assert(q.last() == q[j]);
            }
        }
    } else {
        lemma_front_window(s, pat, rep, q, j + 1);
    }
}

/// Replacing `pat` by a `rep` separated from `q` makes no new copy of `q`:
/// if `q` is `pat` itself, none is left, and otherwise none appears.
pub proof fn lemma_replace_leaves_no_copy<A>(s: Seq<A>, pat: Seq<A>, rep: Seq<A>, q: Seq<A>)
    requires
        pat.len() > 0,
        separated(q, rep),
        q == pat || occurs_nowhere(s, q),
    ensures
        occurs_nowhere(replace_all(s, pat, rep), q),
    decreases s.len(),
{
    let u = replace_all(s, pat, rep);
    if s.len() < pat.len() {
        if q != pat {
            assert(u == s);
        }
    } else if s.take(pat.len() as int) == pat {
        let t = s.skip(pat.len() as int);
        if q != pat {
            assert forall|i: int| 0 <= i <= t.len() - q.len() implies
                #[trigger] t.subrange(i, i + q.len()) != q by {
                assert(t.subrange(i, i + q.len()) =~= s.subrange(i + pat.len(), i + pat.len() + q.len()));
            }
        }
        lemma_replace_leaves_no_copy(t, pat, rep, q);
        let w = replace_all(t, pat, rep);
        assert(u == rep + w);
        assert forall|i: int| 0 <= i <= u.len() - q.len() implies
            #[trigger] u.subrange(i, i + q.len()) != q by {
            if i >= rep.len() {
                assert(u.subrange(i, i + q.len()) =~= w.subrange(i - rep.len(), i - rep.len() + q.len()));
            } else if u.subrange(i, i + q.len()) == q {
                assert(u[i] == q[0]);
                assert(u[i + 1] == q[1]);
                if i + 1 < rep.len() {
                    assert(rep[i] == q[0] && rep[i + 1] == q[1]);
                } else {
                    assert(rep.last() == rep[i]);
                }
            }
        }
    } else {
        assert(!occurs_at(s, pat, 0)) by {
            assert(s.subrange(0, pat.len() as int) =~= s.take(pat.len() as int));
        }
        lemma_replace_keeps_first(s, pat, rep);
        let t = s.skip(1);
        if q != pat {
            assert forall|i: int| 0 <= i <= t.len() - q.len() implies
                #[trigger] t.subrange(i, i + q.len()) != q by {
                assert(t.subrange(i, i + q.len()) =~= s.subrange(i + 1, i + 1 + q.len()));
            }
        }
        lemma_replace_leaves_no_copy(t, pat, rep, q);
        let w = replace_all(t, pat, rep);
        lemma_front_window(s, pat, rep, q, 1);
        assert forall|i: int| 0 <= i <= u.len() - q.len() implies
            #[trigger] u.subrange(i, i + q.len()) != q by {
            if i >= 1 {
                assert(u.subrange(i, i + q.len()) =~= w.subrange(i - 1, i - 1 + q.len()));
            } else {
                assert(!occurs_at(u, q, 0));
            }
        }
    }
}

} // verus!
