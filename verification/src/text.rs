use vstd::prelude::*;

verus! {

broadcast use vstd::string::group_string_axioms;

/// Whether `c` has the Unicode `White_Space` property (what `char::is_whitespace`
/// and `str::trim` go by): the controls U+0009 to U+000D, space, U+0085,
/// no-break space, U+1680, U+2000 to U+200A, the line and paragraph separators,
/// U+202F, U+205F and the ideographic space.
pub open spec fn white_space(c: char) -> bool {
    let u = c as u32;
    ||| 0x9 <= u <= 0xD
    ||| u == 0x20
    ||| u == 0x85
    ||| u == 0xA0
    ||| u == 0x1680
    ||| 0x2000 <= u <= 0x200A
    ||| u == 0x2028
    ||| u == 0x2029
    ||| u == 0x202F
    ||| u == 0x205F
    ||| u == 0x3000
}

/// Whether `c` has the Unicode `White_Space` property.
pub fn is_white_space(c: char) -> (b: bool)
    ensures
        b == white_space(c),
{
    let u = c as u32;
    (0x9 <= u && u <= 0xD) || u == 0x20 || u == 0x85 || u == 0xA0 || u == 0x1680 || (0x2000 <= u
        && u <= 0x200A) || u == 0x2028 || u == 0x2029 || u == 0x202F || u == 0x205F || u == 0x3000
}

/// `String::push`. Claimed: the string afterwards is the one before with `c`
/// appended.
#[verifier::external_body]
fn push_char(s: &mut String, c: char)
    ensures
        final(s)@ == old(s)@.push(c),
{
    s.push(c);
}

/// The characters of `s`, in order.
pub fn chars_of(s: &str) -> (v: Vec<char>)
    ensures
        v@ == s@,
{
    let mut v: Vec<char> = Vec::new();
    for c in it: s.chars()
        invariant
            v@ == it.seq().take(it.index() as int),
            it.seq() == s@,
    {
        v.push(c);
    }
    v
}

/// A string holding exactly the characters of `v`.
pub fn string_from_chars(v: &Vec<char>) -> (s: String)
    ensures
        s@ == v@,
{
    let mut s = String::new();
    let n = v.len();
    for i in 0..n
        invariant
            n == v.len(),
            s@ == v@.take(i as int),
    {
        push_char(&mut s, v[i]);
        assert(v@.take(i + 1) == v@.take(i as int).push(v@[i as int]));
    }
    assert(v@.take(n as int) == v@);
    s
}

/// Every character of `s` is white space: what `s.trim().is_empty()` tests.
pub open spec fn all_white(s: Seq<char>) -> bool {
    forall|i: int| 0 <= i < s.len() ==> white_space(#[trigger] s[i])
}

/// Whether `s` holds nothing but white space (the empty string included).
pub fn is_blank(s: &str) -> (b: bool)
    ensures
        b == all_white(s@),
{
    let v = chars_of(s);
    let n = v.len();
    for i in 0..n
        invariant
            n == v.len(),
            v@ == s@,
            forall|j: int| 0 <= j < i ==> white_space(#[trigger] s@[j]),
    {
        if !is_white_space(v[i]) {
            return false;
        }
    }
    true
}

/// Whether two character vectors are equal.
pub fn chars_eq(a: &Vec<char>, b: &Vec<char>) -> (r: bool)
    ensures
        r == (a@ == b@),
{
    if a.len() != b.len() {
        return false;
    }
    let n = a.len();
    for i in 0..n
        invariant
            n == a.len(),
            n == b.len(),
            forall|j: int| 0 <= j < i ==> a@[j] == b@[j],
    {
        if a[i] != b[i] {
            return false;
        }
    }
    assert(a@ =~= b@);
    true
}

/// Whether two strings hold the same characters.
pub fn text_eq(a: &str, b: &str) -> (r: bool)
    ensures
        r == (a@ == b@),
{
    let va = chars_of(a);
    let vb = chars_of(b);
    chars_eq(&va, &vb)
}

/// Whether `pat` occurs in `s` at position `i`.
pub open spec fn occurs_at(s: Seq<char>, pat: Seq<char>, i: int) -> bool {
    0 <= i && i + pat.len() <= s.len() && s.subrange(i, i + pat.len()) == pat
}

/// `s` with every occurrence of the non-empty `pat` replaced by `rep`, the
/// occurrences taken from left to right without overlap (what `str::replace` does).
pub open spec fn replace_all(s: Seq<char>, pat: Seq<char>, rep: Seq<char>) -> Seq<char>
    decreases s.len(),
{
    if s.len() == 0 || pat.len() == 0 {
        s
    } else if occurs_at(s, pat, 0) {
        rep + replace_all(s.skip(pat.len() as int), pat, rep)
    } else {
        seq![s[0]] + replace_all(s.skip(1), pat, rep)
    }
}

/// `pat` occurs at `i` of `s` exactly when it fits there and each of its
/// characters matches the one of `s` it lies over.
pub proof fn lemma_occurs_at_rule(s: Seq<char>, pat: Seq<char>, i: int)
    ensures
        occurs_at(s, pat, i) <==> (0 <= i && i + pat.len() <= s.len() && forall|k: int|
            0 <= k < pat.len() ==> s[i + k] == pat[k]),
{
    if 0 <= i && i + pat.len() <= s.len() {
        if forall|k: int| 0 <= k < pat.len() ==> s[i + k] == pat[k] {
            assert(s.subrange(i, i + pat.len()) =~= pat);
        }
        if occurs_at(s, pat, i) {
            assert forall|k: int| 0 <= k < pat.len() implies s[i + k] == pat[k] by {
                assert(s.subrange(i, i + pat.len())[k] == s[i + k]);
            }
        }
    }
}

/// Each piece's view is the characters of the vector at the same place.
pub proof fn lemma_pieces_view(v: Seq<Vec<char>>)
    ensures
        pieces_view(v).len() == v.len(),
        forall|i: int| 0 <= i < v.len() ==> #[trigger] pieces_view(v)[i] == v[i]@,
{
}

/// Where `pat` does not occur in `s`, replacing it changes nothing.
pub proof fn lemma_replace_absent(s: Seq<char>, pat: Seq<char>, rep: Seq<char>)
    requires
        forall|i: int| !occurs_at(s, pat, i),
    ensures
        replace_all(s, pat, rep) == s,
    decreases s.len(),
{
    if s.len() > 0 && pat.len() > 0 {
        let t = s.skip(1);
        assert forall|i: int| !occurs_at(t, pat, i) by {
            if occurs_at(t, pat, i) {
                assert(s.subrange(i + 1, i + 1 + pat.len()) =~= t.subrange(i, i + pat.len()));
                assert(occurs_at(s, pat, i + 1));
            }
        }
        lemma_replace_absent(t, pat, rep);
        assert(!occurs_at(s, pat, 0));
        assert(seq![s[0]] + t =~= s);
    }
}

/// Replacement goes from the left: when the first occurrence of `pat` in
/// `a + pat + b` is the one right after `a`, the result is `a`, then `rep`,
/// then whatever replacing in `b` gives. Applied again to `b`, this replaces
/// every later occurrence in turn.
pub proof fn lemma_replace_first_occurrence(a: Seq<char>, pat: Seq<char>, b: Seq<char>, rep: Seq<char>)
    requires
        pat.len() > 0,
        forall|i: int| 0 <= i < a.len() ==> !occurs_at(a + pat + b, pat, i),
    ensures
        replace_all(a + pat + b, pat, rep) == a + rep + replace_all(b, pat, rep),
    decreases a.len(),
{
    let s = a + pat + b;
    if a.len() == 0 {
        assert(s =~= pat + b);
        assert(s.subrange(0, pat.len() as int) =~= pat);
        assert(s.skip(pat.len() as int) =~= b);
        assert(a + rep + replace_all(b, pat, rep) =~= rep + replace_all(b, pat, rep));
    } else {
        let a1 = a.skip(1);
        let t = a1 + pat + b;
        assert(s.skip(1) =~= t);
        assert forall|i: int| 0 <= i < a1.len() implies !occurs_at(t, pat, i) by {
            if occurs_at(t, pat, i) {
                assert(s.subrange(i + 1, i + 1 + pat.len()) =~= t.subrange(i, i + pat.len()));
                assert(occurs_at(s, pat, i + 1));
            }
        }
        lemma_replace_first_occurrence(a1, pat, b, rep);
        assert(!occurs_at(s, pat, 0));
        assert(s[0] == a[0]);
        assert(seq![a[0]] + (a1 + rep + replace_all(b, pat, rep)) =~= a + rep + replace_all(b, pat, rep));
    }
}

/// What `decimal` spells: the digit characters '0' to '9', with no leading
/// zero unless the number is zero itself, reading back as the number.
pub open spec fn digits_value(s: Seq<char>) -> int
    decreases s.len(),
{
    if s.len() == 0 {
        0
    } else {
        digits_value(s.drop_last()) * 10 + (s.last() as int - 48)
    }
}

/// The decimal numeral of `n` is made of the characters '0' to '9', starts with
/// '0' only for zero itself, and reads back as `n`.
pub proof fn lemma_decimal_reads_back(n: nat)
    ensures
        digits_value(decimal(n)) == n,
        forall|i: int| 0 <= i < decimal(n).len() ==> '0' <= #[trigger] decimal(n)[i] <= '9',
        decimal(n).len() > 0,
        decimal(n)[0] == '0' ==> n == 0,
    decreases n,
{
    if n < 10 {
        assert(digit_char(n as int) as int == n + 48);
        assert(decimal(n).drop_last() =~= Seq::<char>::empty());
        assert(digits_value(Seq::<char>::empty()) == 0);
    } else {
        lemma_decimal_reads_back(n / 10);
        let d = (n % 10) as int;
        assert(digit_char(d) as int == d + 48);
        let s = decimal(n);
        assert(s.drop_last() =~= decimal(n / 10));
        assert forall|i: int| 0 <= i < s.len() implies '0' <= #[trigger] s[i] <= '9' by {
            if i < s.len() - 1 {
                assert(s[i] == decimal(n / 10)[i]);
            }
        }
        assert(s[0] == decimal(n / 10)[0]);
        assert(s.last() == digit_char(d));
        assert(digits_value(s) == digits_value(decimal(n / 10)) * 10 + d);
        assert((n / 10) * 10 + n % 10 == n);
    }
}

fn occurs_at_exec(s: &Vec<char>, pat: &Vec<char>, i: usize) -> (r: bool)
    requires
        i <= s.len(),
    ensures
        r == occurs_at(s@, pat@, i as int),
{
    if pat.len() > s.len() - i {
        return false;
    }
    let m = pat.len();
    for k in 0..m
        invariant
            m == pat.len(),
            i + m <= s.len(),
            forall|j: int| 0 <= j < k ==> s@[i + j] == pat@[j],
    {
        if s[i + k] != pat[k] {
            assert(s@.subrange(i as int, i + m)[k as int] != pat@[k as int]);
            return false;
        }
    }
    assert(s@.subrange(i as int, i + m) =~= pat@);
    true
}

/// `s` with every occurrence of `pat` replaced by `rep`, scanning from the left.
pub fn replace_text(s: &str, pat: &Vec<char>, rep: &str) -> (r: String)
    requires
        pat.len() > 0,
    ensures
        r@ == replace_all(s@, pat@, rep@),
{
    let sv = chars_of(s);
    let rv = chars_of(rep);
    let n = sv.len();
    let mut out: Vec<char> = Vec::new();
    let mut i: usize = 0;
    assert(sv@.skip(0) =~= sv@);
    assert(out@ + replace_all(sv@, pat@, rv@) =~= replace_all(sv@, pat@, rv@));
    while i < n
        invariant
            n == sv.len(),
            sv@ == s@,
            rv@ == rep@,
            pat.len() > 0,
            i <= n,
            out@ + replace_all(sv@.skip(i as int), pat@, rv@) == replace_all(sv@, pat@, rv@),
        decreases n - i,
    {
        let ghost rest = sv@.skip(i as int);
        if occurs_at_exec(&sv, pat, i) {
            assert(occurs_at(rest, pat@, 0)) by {
                assert(rest.subrange(0, pat@.len() as int) =~= sv@.subrange(i as int, i + pat@.len()));
            }
            assert(rest.skip(pat@.len() as int) =~= sv@.skip(i + pat@.len()));
            let ghost out0 = out@;
            let m = rv.len();
            for k in 0..m
                invariant
                    m == rv.len(),
                    out@ == out0 + rv@.take(k as int),
            {
                out.push(rv[k]);
                assert(rv@.take(k + 1) == rv@.take(k as int).push(rv@[k as int]));
            }
            assert(rv@.take(m as int) == rv@);
            i = i + pat.len();
        } else {
            assert(!occurs_at(rest, pat@, 0)) by {
                if occurs_at(rest, pat@, 0) {
                    assert(rest.subrange(0, pat@.len() as int) =~= sv@.subrange(i as int, i + pat@.len()));
                }
            }
            assert(rest.skip(1) =~= sv@.skip(i + 1));
            out.push(sv[i]);
            i = i + 1;
        }
    }
    assert(sv@.skip(i as int) =~= Seq::<char>::empty());
    assert(out@ + Seq::<char>::empty() =~= out@);
    string_from_chars(&out)
}

/// The pieces of `s` between occurrences of `sep`, in order, as `str::split`
/// yields them for a single-character separator: one piece more than there are
/// separators, empty pieces included.
pub open spec fn split_on(s: Seq<char>, sep: char) -> Seq<Seq<char>>
    decreases s.len(),
{
    if s.len() == 0 {
        seq![Seq::<char>::empty()]
    } else {
        let parts = split_on(s.drop_last(), sep);
        if s.last() == sep {
            parts.push(Seq::<char>::empty())
        } else {
            parts.update(parts.len() - 1, parts.last().push(s.last()))
        }
    }
}

/// The pieces joined back together with `sep` between each two of them.
pub open spec fn join_with(parts: Seq<Seq<char>>, sep: char) -> Seq<char>
    decreases parts.len(),
{
    if parts.len() == 0 {
        Seq::<char>::empty()
    } else if parts.len() == 1 {
        parts[0]
    } else {
        join_with(parts.drop_last(), sep).push(sep) + parts.last()
    }
}

proof fn lemma_split_nonempty(s: Seq<char>, sep: char)
    ensures
        split_on(s, sep).len() >= 1,
    decreases s.len(),
{
    if s.len() > 0 {
        lemma_split_nonempty(s.drop_last(), sep);
    }
}

/// Splitting at `sep` and joining the pieces back with `sep` gives the text back.
pub proof fn lemma_split_then_join(s: Seq<char>, sep: char)
    ensures
        join_with(split_on(s, sep), sep) == s,
    decreases s.len(),
{
    if s.len() > 0 {
        let p = split_on(s.drop_last(), sep);
        lemma_split_nonempty(s.drop_last(), sep);
        lemma_split_then_join(s.drop_last(), sep);
        let c = s.last();
        if c == sep {
            let q = p.push(Seq::<char>::empty());
            assert(q.drop_last() =~= p);
            assert(join_with(q, sep) =~= s);
        } else {
            let q = p.update(p.len() - 1, p.last().push(c));
            if p.len() == 1 {
                assert(join_with(q, sep) =~= s);
            } else {
                assert(q.drop_last() =~= p.drop_last());
                let head = join_with(p.drop_last(), sep).push(sep);
                assert(join_with(p, sep) == head + p.last());
                assert(join_with(q, sep) == head + p.last().push(c));
                assert(head + p.last().push(c) =~= (head + p.last()).push(c));
                assert(s =~= s.drop_last().push(c));
            }
        }
    }
}

/// Text without `sep` splits into a single piece: itself.
pub proof fn lemma_split_without_sep(s: Seq<char>, sep: char)
    requires
        !s.contains(sep),
    ensures
        split_on(s, sep) == seq![s],
    decreases s.len(),
{
    if s.len() > 0 {
        assert(!s.drop_last().contains(sep)) by {
            if s.drop_last().contains(sep) {
                let k = choose|k: int| 0 <= k < s.drop_last().len() && s.drop_last()[k] == sep;
                assert(s[k] == sep);
            }
        }
        lemma_split_without_sep(s.drop_last(), sep);
        assert(s[s.len() - 1] != sep);
        assert(s.drop_last().push(s.last()) =~= s);
        assert(seq![s.drop_last()].update(0, s) =~= seq![s]);
    } else {
        assert(s =~= Seq::<char>::empty());
    }
}

/// A leading piece without `sep`, then `sep`, then the rest: the split is that
/// piece followed by the split of the rest.
pub proof fn lemma_split_leading_piece(k: Seq<char>, p: Seq<char>, sep: char)
    requires
        !k.contains(sep),
    ensures
        split_on(k.push(sep) + p, sep) == seq![k] + split_on(p, sep),
    decreases p.len(),
{
    let s = k.push(sep) + p;
    if p.len() == 0 {
        assert(s =~= k.push(sep));
        assert(s.drop_last() =~= k);
        lemma_split_without_sep(k, sep);
        assert(seq![k].push(Seq::<char>::empty()) =~= seq![k] + seq![Seq::<char>::empty()]);
    } else {
        lemma_split_leading_piece(k, p.drop_last(), sep);
        lemma_split_nonempty(p.drop_last(), sep);
        assert(s.drop_last() =~= k.push(sep) + p.drop_last());
        assert(s.last() == p.last());
        let q = split_on(p.drop_last(), sep);
        if p.last() == sep {
            assert((seq![k] + q).push(Seq::<char>::empty()) =~= seq![k] + q.push(Seq::<char>::empty()));
        } else {
            let whole = seq![k] + q;
            assert(whole.last() == q.last());
            assert(whole.update(whole.len() - 1, whole.last().push(s.last())) =~= seq![k] + q.update(
                q.len() - 1,
                q.last().push(p.last()),
            ));
        }
    }
}

/// No piece that splitting at `sep` yields holds `sep`.
pub proof fn lemma_split_pieces_free_of_sep(s: Seq<char>, sep: char)
    ensures
        forall|i: int, j: int|
            0 <= i < split_on(s, sep).len() && 0 <= j < split_on(s, sep)[i].len()
                ==> split_on(s, sep)[i][j] != sep,
    decreases s.len(),
{
    if s.len() > 0 {
        lemma_split_nonempty(s.drop_last(), sep);
        lemma_split_pieces_free_of_sep(s.drop_last(), sep);
        let p = split_on(s.drop_last(), sep);
        let q = split_on(s, sep);
        assert forall|i: int, j: int| 0 <= i < q.len() && 0 <= j < q[i].len() implies q[i][j] != sep by {
            if i < p.len() - 1 {
                assert(q[i] == p[i]);
            } else if i == p.len() - 1 {
                if s.last() != sep {
                    if j < p[i].len() {
                        assert(q[i][j] == p[i][j]);
                    }
                } else {
                    assert(q[i] == p[i]);
                }
            }
        }
    }
}

/// The characters of each vector, in order.
pub open spec fn pieces_view(v: Seq<Vec<char>>) -> Seq<Seq<char>> {
    v.map_values(|p: Vec<char>| p@)
}

/// The pieces of `s` between the occurrences of `sep`.
pub fn split_text(s: &str, sep: char) -> (parts: Vec<Vec<char>>)
    ensures
        pieces_view(parts@) == split_on(s@, sep),
{
    let sv = chars_of(s);
    let n = sv.len();
    let mut parts: Vec<Vec<char>> = Vec::new();
    let mut cur: Vec<char> = Vec::new();
    assert(sv@.take(0) =~= Seq::<char>::empty());
    assert(pieces_view(parts@).push(cur@) =~= split_on(sv@.take(0), sep));
    for i in 0..n
        invariant
            n == sv.len(),
            sv@ == s@,
            pieces_view(parts@).push(cur@) == split_on(sv@.take(i as int), sep),
    {
        let c = sv[i];
        let ghost pre = sv@.take(i as int);
        assert(sv@.take(i + 1).drop_last() =~= pre);
        assert(sv@.take(i + 1).last() == c);
        proof {
            lemma_split_nonempty(pre, sep);
        }
        if c == sep {
            let ghost before = parts@;
            let done = cur;
            parts.push(done);
            cur = Vec::new();
            assert(parts@ == before.push(done));
            assert(pieces_view(parts@) =~= pieces_view(before).push(done@));
            assert(pieces_view(parts@).push(cur@) =~= split_on(sv@.take(i + 1), sep));
        } else {
            cur.push(c);
            assert(pieces_view(parts@).push(cur@) =~= split_on(sv@.take(i + 1), sep));
        }
    }
    let ghost before = parts@;
    parts.push(cur);
    assert(pieces_view(parts@) =~= pieces_view(before).push(cur@));
    assert(sv@.take(n as int) =~= sv@);
    assert(pieces_view(parts@) =~= split_on(s@, sep));
    parts
}

/// The decimal digit character for `d` (below ten).
pub open spec fn digit_char(d: int) -> char {
    ((d + 48) as u8) as char
}

/// The decimal numeral of `n`, without sign or leading zeros.
pub open spec fn decimal(n: nat) -> Seq<char>
    decreases n,
{
    if n < 10 {
        seq![digit_char(n as int)]
    } else {
        decimal(n / 10).push(digit_char((n % 10) as int))
    }
}

fn digit(d: u64) -> (c: char)
    requires
        d < 10,
    ensures
        c == digit_char(d as int),
{
    ((d as u8) + 48u8) as char
}

/// The decimal numeral of `n`.
pub fn decimal_text(n: u64) -> (v: Vec<char>)
    ensures
        v@ == decimal(n as nat),
{
    let mut m = n;
    let mut v: Vec<char> = Vec::new();
    while m >= 10
        invariant
            decimal(n as nat) == decimal(m as nat) + v@,
        decreases m,
    {
        let d = digit(m % 10);
        let ghost old_v = v@;
        v.insert(0, d);
        assert(decimal(m as nat) == decimal((m / 10) as nat).push(d));
        assert(decimal((m / 10) as nat).push(d) + old_v =~= decimal((m / 10) as nat) + v@);
        m = m / 10;
    }
    let d = digit(m);
    let ghost old_v = v@;
    v.insert(0, d);
    assert(decimal(m as nat) + old_v =~= v@);
    v
}

} // verus!
