//! Text handling for configuration values: whitespace trimming, splitting of
//! comma-separated lists, and decimal numbers.
use vstd::prelude::*;

verus! {

/// The text of an optional string.
pub open spec fn opt_text(o: Option<String>) -> Option<Seq<char>> {
    match o {
        Some(s) => Some(s@),
        None => None,
    }
}

/// Unicode `White_Space`, the characters that `str::trim` removes.
pub open spec fn is_white_space(c: char) -> bool {
    ||| ('\u{9}' <= c && c <= '\u{d}')
    ||| c == ' '
    ||| c == '\u{85}'
    ||| c == '\u{a0}'
    ||| c == '\u{1680}'
    ||| ('\u{2000}' <= c && c <= '\u{200a}')
    ||| c == '\u{2028}'
    ||| c == '\u{2029}'
    ||| c == '\u{202f}'
    ||| c == '\u{205f}'
    ||| c == '\u{3000}'
}

/// Whether `c` is Unicode white space.
pub fn white_space(c: char) -> (r: bool)
    ensures
        r == is_white_space(c),
{
    ('\u{9}' <= c && c <= '\u{d}') || c == ' ' || c == '\u{85}' || c == '\u{a0}' || c
        == '\u{1680}' || ('\u{2000}' <= c && c <= '\u{200a}') || c == '\u{2028}' || c
        == '\u{2029}' || c == '\u{202f}' || c == '\u{205f}' || c == '\u{3000}'
}

/// `s` without its leading white space.
pub open spec fn trim_start(s: Seq<char>) -> Seq<char>
    decreases s.len(),
{
    if s.len() > 0 && is_white_space(s[0]) {
        trim_start(s.drop_first())
    } else {
        s
    }
}

/// `s` without its trailing white space.
pub open spec fn trim_end(s: Seq<char>) -> Seq<char>
    decreases s.len(),
{
    if s.len() > 0 && is_white_space(s.last()) {
        trim_end(s.drop_last())
    } else {
        s
    }
}

/// `s` without leading and trailing white space (what `str::trim` returns).
pub open spec fn trim(s: Seq<char>) -> Seq<char> {
    trim_end(trim_start(s))
}

/// The pieces of `s` between commas, in order (what `str::split(',')` yields):
/// one piece more than there are commas.
pub open spec fn split_commas(s: Seq<char>) -> Seq<Seq<char>>
    decreases s.len(),
{
    if s.len() == 0 {
        seq![Seq::<char>::empty()]
    } else {
        let prev = split_commas(s.drop_last());
        if s.last() == ',' {
            prev.push(Seq::<char>::empty())
        } else {
            prev.update(prev.len() - 1, prev.last().push(s.last()))
        }
    }
}

/// The trimmed pieces that are not empty, in order.
pub open spec fn nonempty_trimmed(pieces: Seq<Seq<char>>) -> Seq<Seq<char>>
    decreases pieces.len(),
{
    if pieces.len() == 0 {
        Seq::<Seq<char>>::empty()
    } else {
        let prev = nonempty_trimmed(pieces.drop_last());
        let t = trim(pieces.last());
        if t.len() > 0 {
            prev.push(t)
        } else {
            prev
        }
    }
}

/// The entries of a comma-separated list: each piece trimmed, empty ones dropped.
pub open spec fn list_entries(s: Seq<char>) -> Seq<Seq<char>> {
    nonempty_trimmed(split_commas(s))
}

proof fn lemma_split_commas_nonempty(s: Seq<char>)
    ensures
        split_commas(s).len() >= 1,
    decreases s.len(),
{
    if s.len() > 0 {
        lemma_split_commas_nonempty(s.drop_last());
    }
}

proof fn lemma_trim_start_skip(t: Seq<char>, a: int)
    requires
        0 <= a <= t.len(),
        forall|k: int| 0 <= k < a ==> is_white_space(#[trigger] t[k]),
        a == t.len() || !is_white_space(t[a]),
    ensures
        trim_start(t) == t.skip(a),
    decreases a,
{
    if a == 0 {
        assert(t.skip(0) =~= t);
    } else {
        let u = t.drop_first();
        assert forall|k: int| 0 <= k < a - 1 implies is_white_space(#[trigger] u[k]) by {
            assert(u[k] == t[k + 1]);
        }
        lemma_trim_start_skip(u, a - 1);
        assert(u.skip(a - 1) =~= t.skip(a));
    }
}

proof fn lemma_trim_end_take(t: Seq<char>, b: int)
    requires
        0 <= b <= t.len(),
        forall|k: int| b <= k < t.len() ==> is_white_space(#[trigger] t[k]),
        b == 0 || !is_white_space(t[b - 1]),
    ensures
        trim_end(t) == t.take(b),
    decreases t.len() - b,
{
    if b == t.len() {
        assert(t.take(b) =~= t);
    } else {
        let u = t.drop_last();
        lemma_trim_end_take(u, b);
        assert(u.take(b) =~= t.take(b));
    }
}

/// The bounds of `s[lo..hi]` without its leading and trailing white space.
fn trim_bounds(s: &str, lo: usize, hi: usize) -> (r: (usize, usize))
    requires
        lo <= hi <= s@.len(),
    ensures
        lo <= r.0 <= r.1 <= hi,
        s@.subrange(r.0 as int, r.1 as int) == trim(s@.subrange(lo as int, hi as int)),
{
    let mut a = lo;
    while a < hi && white_space(s.get_char(a))
        invariant
            lo <= a <= hi <= s@.len(),
            forall|k: int| lo <= k < a ==> is_white_space(#[trigger] s@[k]),
        decreases hi - a,
    {
        a = a + 1;
    }
    let mut b = hi;
    while b > a && white_space(s.get_char(b - 1))
        invariant
            lo <= a <= b <= hi <= s@.len(),
            forall|k: int| b <= k < hi ==> is_white_space(#[trigger] s@[k]),
            a == hi || !is_white_space(s@[a as int]),
        decreases b - a,
    {
        b = b - 1;
    }
    proof {
        let t = s@.subrange(lo as int, hi as int);
        assert forall|k: int| 0 <= k < a - lo implies is_white_space(#[trigger] t[k]) by {
            assert(t[k] == s@[lo + k]);
        }
        lemma_trim_start_skip(t, a - lo);
        let u = t.skip(a - lo);
        assert(u =~= s@.subrange(a as int, hi as int));
        assert forall|k: int| b - a <= k < u.len() implies is_white_space(#[trigger] u[k]) by {
            assert(u[k] == s@[a + k]);
        }
        if b > a {
            assert(u[b - a - 1] == s@[b - 1]);
        }
        lemma_trim_end_take(u, b - a);
        assert(u.take(b - a) =~= s@.subrange(a as int, b as int));
    }
    (a, b)
}

/// The entries of the comma-separated list `s`: the pieces between commas,
/// trimmed of white space, without the empty ones.
pub fn split_list(s: &str) -> (r: Vec<String>)
    ensures
        r@.len() == list_entries(s@).len(),
        forall|k: int| 0 <= k < r@.len() ==> #[trigger] r@[k]@ == list_entries(s@)[k],
{
    let n = s.unicode_len();
    let mut out: Vec<String> = Vec::new();
    let mut start: usize = 0;
    let mut i: usize = 0;
    proof {
        assert(s@.take(0) =~= Seq::<char>::empty());
    }
    while i < n
        invariant
            n == s@.len(),
            start <= i <= n,
            split_commas(s@.take(i as int)).last() == s@.subrange(start as int, i as int),
            out@.len() == nonempty_trimmed(split_commas(s@.take(i as int)).drop_last()).len(),
            forall|k: int|
                0 <= k < out@.len() ==> #[trigger] out@[k]@ == nonempty_trimmed(
                    split_commas(s@.take(i as int)).drop_last(),
                )[k],
        decreases n - i,
    {
        let c = s.get_char(i);
        let ghost prev = split_commas(s@.take(i as int));
        proof {
            lemma_split_commas_nonempty(s@.take(i as int));
            assert(s@.take(i + 1).drop_last() =~= s@.take(i as int));
            assert(s@.take(i + 1).last() == c);
        }
        if c == ',' {
            let (a, b) = trim_bounds(s, start, i);
            let ghost before = out@;
            if a < b {
                let piece = String::from_str(s.substring_char(a, b));
                out.push(piece);
            }
            proof {
                let next = split_commas(s@.take(i + 1));
                assert(next == prev.push(Seq::<char>::empty()));
                assert(next.drop_last() =~= prev);
                assert(prev =~= prev.drop_last().push(prev.last()));
                assert(nonempty_trimmed(prev) == {
                    let p = nonempty_trimmed(prev.drop_last());
                    let t = trim(prev.last());
                    if t.len() > 0 { p.push(t) } else { p }
                });
                assert(s@.subrange(i + 1, i + 1) =~= Seq::<char>::empty());
            }
            start = i + 1;
        } else {
            proof {
                let next = split_commas(s@.take(i + 1));
                assert(next == prev.update(prev.len() - 1, prev.last().push(c)));
                assert(next.drop_last() =~= prev.drop_last());
                assert(s@.subrange(start as int, i + 1) =~= s@.subrange(start as int, i as int).push(c));
            }
        }
        i = i + 1;
    }
    let (a, b) = trim_bounds(s, start, n);
    if a < b {
        let piece = String::from_str(s.substring_char(a, b));
        out.push(piece);
    }
    proof {
        let all = split_commas(s@.take(n as int));
        assert(s@.take(n as int) =~= s@);
        lemma_split_commas_nonempty(s@);
        assert(all =~= all.drop_last().push(all.last()));
    }
    out
}

proof fn lemma_trim_start_shape(y: Seq<char>) -> (i: int)
    ensures
        0 <= i <= y.len(),
        trim_start(y) == y.skip(i),
        i < y.len() ==> !is_white_space(y[i]),
        forall|k: int| 0 <= k < i ==> is_white_space(#[trigger] y[k]),
    decreases y.len(),
{
    if y.len() > 0 && is_white_space(y[0]) {
        let i0 = lemma_trim_start_shape(y.drop_first());
        assert(y.drop_first().skip(i0) =~= y.skip(i0 + 1));
        assert forall|k: int| 0 <= k < i0 + 1 implies is_white_space(#[trigger] y[k]) by {
            if k > 0 {
                assert(y[k] == y.drop_first()[k - 1]);
            }
        }
        i0 + 1
    } else {
        assert(y.skip(0) =~= y);
        0
    }
}

proof fn lemma_trim_end_shape(y: Seq<char>) -> (j: int)
    ensures
        0 <= j <= y.len(),
        trim_end(y) == y.take(j),
        j > 0 ==> !is_white_space(y[j - 1]),
    decreases y.len(),
{
    if y.len() > 0 && is_white_space(y.last()) {
        let j0 = lemma_trim_end_shape(y.drop_last());
        assert(y.drop_last().take(j0) =~= y.take(j0));
        j0
    } else {
        assert(y.take(y.len() as int) =~= y);
        y.len() as int
    }
}

/// A trimmed text: no white space at either end.
pub open spec fn is_trimmed(t: Seq<char>) -> bool {
    t.len() > 0 ==> !is_white_space(t[0]) && !is_white_space(t.last())
}

proof fn lemma_trim_is_trimmed_subrange(t: Seq<char>) -> (r: (int, int))
    ensures
        0 <= r.0 <= r.1 <= t.len(),
        trim(t) == t.subrange(r.0, r.1),
        is_trimmed(trim(t)),
{
    let i = lemma_trim_start_shape(t);
    let u = t.skip(i);
    let j = lemma_trim_end_shape(u);
    assert(u.take(j) =~= t.subrange(i, i + j));
    if j > 0 {
        assert(u[0] == t[i]);
        assert(trim(t)[0] == u[0]);
        assert(trim(t).last() == u[j - 1]);
    }
    (i, i + j)
}

proof fn lemma_trimmed_is_fixed(t: Seq<char>)
    requires
        is_trimmed(t),
    ensures
        trim(t) == t,
{
}

/// Whether `t` holds a comma.
pub open spec fn has_comma(t: Seq<char>) -> bool {
    exists|k: int| 0 <= k < t.len() && t[k] == ','
}

proof fn lemma_pieces_have_no_comma(s: Seq<char>)
    ensures
        forall|k: int| 0 <= k < split_commas(s).len() ==> !has_comma(#[trigger] split_commas(s)[k]),
    decreases s.len(),
{
    lemma_split_commas_nonempty(s);
    if s.len() > 0 {
        let prev = split_commas(s.drop_last());
        lemma_pieces_have_no_comma(s.drop_last());
        lemma_split_commas_nonempty(s.drop_last());
        if s.last() != ',' {
            let p = prev.last();
            assert(!has_comma(p));
            assert forall|k: int| 0 <= k < p.push(s.last()).len() implies p.push(s.last())[k] != ',' by {
                if k < p.len() {
                    assert(p.push(s.last())[k] == p[k]);
                }
            }
        }
    }
}

proof fn lemma_nonempty_trimmed_clean(pieces: Seq<Seq<char>>)
    requires
        forall|k: int| 0 <= k < pieces.len() ==> !has_comma(#[trigger] pieces[k]),
    ensures
        forall|k: int|
            0 <= k < nonempty_trimmed(pieces).len() ==> {
                let e = #[trigger] nonempty_trimmed(pieces)[k];
                &&& e.len() > 0
                &&& trim(e) == e
                &&& !has_comma(e)
            },
    decreases pieces.len(),
{
    if pieces.len() > 0 {
        let prev = pieces.drop_last();
        assert forall|k: int| 0 <= k < prev.len() implies !has_comma(#[trigger] prev[k]) by {
            assert(prev[k] == pieces[k]);
        }
        lemma_nonempty_trimmed_clean(prev);
        let p = pieces.last();
        let r = lemma_trim_is_trimmed_subrange(p);
        lemma_trimmed_is_fixed(trim(p));
        assert(!has_comma(p));
        assert forall|k: int| 0 <= k < trim(p).len() implies trim(p)[k] != ',' by {
            assert(trim(p)[k] == p[r.0 + k]);
        }
        let all = nonempty_trimmed(pieces);
        let before = nonempty_trimmed(prev);
        assert forall|k: int| 0 <= k < all.len() implies {
            let e = #[trigger] all[k];
            &&& e.len() > 0
            &&& trim(e) == e
            &&& !has_comma(e)
        } by {
            if k < before.len() {
                assert(all[k] == before[k]);
            } else {
                assert(all[k] == trim(p));
            }
        }
    }
}

/// The entries of a list are clean: none is empty, none has white space at
/// either end (trimming leaves it as it is), and none holds a comma.
pub proof fn lemma_list_entries_clean(s: Seq<char>)
    ensures
        forall|k: int|
            0 <= k < list_entries(s).len() ==> {
                let e = #[trigger] list_entries(s)[k];
                &&& e.len() > 0
                &&& trim(e) == e
                &&& !has_comma(e)
            },
{
    lemma_pieces_have_no_comma(s);
    lemma_nonempty_trimmed_clean(split_commas(s));
}

proof fn lemma_split_commas_concat(a: Seq<char>, b: Seq<char>)
    ensures
        split_commas(a + seq![','] + b) == split_commas(a) + split_commas(b),
    decreases b.len(),
{
    let s = a + seq![','] + b;
    if b.len() == 0 {
        assert(s.drop_last() =~= a);
        assert(split_commas(b) =~= seq![Seq::<char>::empty()]);
        assert(split_commas(a).push(Seq::<char>::empty()) =~= split_commas(a) + split_commas(b));
    } else {
        let bd = b.drop_last();
        lemma_split_commas_concat(a, bd);
        lemma_split_commas_nonempty(bd);
        lemma_split_commas_nonempty(a);
        assert(s.drop_last() =~= a + seq![','] + bd);
        assert(s.last() == b.last());
        let pa = split_commas(a);
        let pb = split_commas(bd);
        if b.last() == ',' {
            assert((pa + pb).push(Seq::<char>::empty()) =~= pa + pb.push(Seq::<char>::empty()));
        } else {
            let whole = pa + pb;
            assert(whole.last() == pb.last());
            assert(whole.update(whole.len() - 1, whole.last().push(b.last())) =~= pa + pb.update(
                pb.len() - 1,
                pb.last().push(b.last()),
            ));
        }
    }
}

proof fn lemma_nonempty_trimmed_concat(p: Seq<Seq<char>>, q: Seq<Seq<char>>)
    ensures
        nonempty_trimmed(p + q) == nonempty_trimmed(p) + nonempty_trimmed(q),
    decreases q.len(),
{
    if q.len() == 0 {
        assert(p + q =~= p);
        assert(nonempty_trimmed(p) + nonempty_trimmed(q) =~= nonempty_trimmed(p));
    } else {
        lemma_nonempty_trimmed_concat(p, q.drop_last());
        assert((p + q).drop_last() =~= p + q.drop_last());
        assert((p + q).last() == q.last());
        let np = nonempty_trimmed(p);
        let nq = nonempty_trimmed(q.drop_last());
        assert((np + nq).push(trim(q.last())) =~= np + nq.push(trim(q.last())));
    }
}

proof fn lemma_split_commas_without_comma(t: Seq<char>)
    requires
        !has_comma(t),
    ensures
        split_commas(t) == seq![t],
    decreases t.len(),
{
    if t.len() == 0 {
        assert(t =~= Seq::<char>::empty());
    } else {
        let d = t.drop_last();
        assert(!has_comma(d)) by {
            if has_comma(d) {
                let k = choose|k: int| 0 <= k < d.len() && d[k] == ',';
                assert(t[k] == ',');
            }
        }
        lemma_split_commas_without_comma(d);
        assert(t.last() != ',') by {
            assert(t[t.len() - 1] == t.last());
        }
        assert(d.push(t.last()) =~= t);
        assert(seq![d].update(0, d.push(t.last())) =~= seq![t]);
    }
}

/// How a comma-separated list reads: a text without commas is one entry (its
/// trimmed text, or none when that is empty), and a comma joins the entries of
/// the texts on either side, in order.
pub proof fn lemma_list_entries_structure(a: Seq<char>, b: Seq<char>)
    ensures
        list_entries(a + seq![','] + b) == list_entries(a) + list_entries(b),
        !has_comma(a) ==> list_entries(a) == (if trim(a).len() > 0 {
            seq![trim(a)]
        } else {
            Seq::<Seq<char>>::empty()
        }),
{
    lemma_split_commas_concat(a, b);
    lemma_nonempty_trimmed_concat(split_commas(a), split_commas(b));
    if !has_comma(a) {
        lemma_split_commas_without_comma(a);
        let one = seq![a];
        assert(one.drop_last() =~= Seq::<Seq<char>>::empty());
        assert(one.last() == a);
        assert(nonempty_trimmed(one.drop_last()) == Seq::<Seq<char>>::empty());
        if trim(a).len() > 0 {
            assert(Seq::<Seq<char>>::empty().push(trim(a)) =~= seq![trim(a)]);
        }
    }
}

proof fn lemma_decimal_digit(d: nat)
    requires
        d < 10,
    ensures
        decimal_digits().len() == 10,
        decimal_digits().subrange(d as int, d as int + 1) == seq![decimal_digits()[d as int]],
        is_digit(decimal_digits()[d as int]),
        digit_value(decimal_digits()[d as int]) == d,
{
    reveal_strlit("0123456789");
    assert(decimal_digits().subrange(d as int, d as int + 1) =~= seq![decimal_digits()[d as int]]);
    assert(decimal_digits()[0] == '0' && decimal_digits()[1] == '1' && decimal_digits()[2] == '2');
    assert(decimal_digits()[3] == '3' && decimal_digits()[4] == '4' && decimal_digits()[5] == '5');
    assert(decimal_digits()[6] == '6' && decimal_digits()[7] == '7' && decimal_digits()[8] == '8');
    assert(decimal_digits()[9] == '9');
}

proof fn lemma_read_decimal(n: nat, max: int)
    requires
        n <= max,
    ensures
        read_digits(decimal_text(n), max) == Ok::<int, IntErrorKind>(n as int),
        decimal_text(n).len() > 0,
        is_digit(decimal_text(n)[0]),
    decreases n,
{
    let t = decimal_text(n);
    if n < 10 {
        lemma_decimal_digit(n);
        assert(t.drop_last() =~= Seq::<char>::empty());
        assert(read_digits(t.drop_last(), max) == Ok::<int, IntErrorKind>(0));
        assert(t.last() == decimal_digits()[n as int]);
        assert(read_digits(t, max) == Ok::<int, IntErrorKind>(n as int));
    } else {
        let q = n / 10;
        let d = (n % 10) as nat;
        lemma_decimal_digit(d);
        lemma_read_decimal(q, max);
        let tq = decimal_text(q);
        assert(t == tq + seq![decimal_digits()[d as int]]);
        assert(t.drop_last() =~= tq);
        assert(t.last() == decimal_digits()[d as int]);
        assert(t[0] == tq[0]);
        assert(q * 10 + d == n);
        assert(read_digits(tq, max) == Ok::<int, IntErrorKind>(q as int));
        assert(is_digit(t.last()));
        assert(digit_value(t.last()) == d);
        assert(read_digits(t, max) == Ok::<int, IntErrorKind>((q * 10 + d) as int));
    }
}

/// Decimal notation reads back: the decimal text of any `n` no larger than
/// `max` parses to `n`.
pub proof fn lemma_decimal_round_trip(n: nat, max: int)
    requires
        n <= max,
    ensures
        parse_unsigned(decimal_text(n), max) == Ok::<int, IntErrorKind>(n as int),
{
    lemma_read_decimal(n, max);
    let t = decimal_text(n);
    assert(t[0] != '+' && t[0] != '-');
}

/// Why a text is not an unsigned decimal number in range (the kinds of
/// `core::num::ParseIntError` that unsigned parsing can give).
#[derive(Clone, Copy, Debug, PartialEq, Eq, Structural)]
pub enum IntErrorKind {
    /// The text is empty.
    Empty,
    /// The text holds a character that is not a decimal digit (or only a sign).
    InvalidDigit,
    /// The number exceeds the largest value allowed.
    Overflow,
}

/// The text that `core::num::ParseIntError` displays for each kind.
pub open spec fn int_error_text(kind: IntErrorKind) -> Seq<char> {
    match kind {
        IntErrorKind::Empty => "cannot parse integer from empty string"@,
        IntErrorKind::InvalidDigit => "invalid digit found in string"@,
        IntErrorKind::Overflow => "number too large to fit in target type"@,
    }
}

impl IntErrorKind {
    /// The text that `core::num::ParseIntError` displays for this kind.
    pub fn message(&self) -> (r: String)
        ensures
            r@ == int_error_text(*self),
    {
        match self {
            IntErrorKind::Empty => String::from_str("cannot parse integer from empty string"),
            IntErrorKind::InvalidDigit => String::from_str("invalid digit found in string"),
            IntErrorKind::Overflow => String::from_str("number too large to fit in target type"),
        }
    }
}

/// The decimal digits, in order.
pub open spec fn decimal_digits() -> Seq<char> {
    "0123456789"@
}

/// The decimal notation of `n`, without leading zeros.
pub open spec fn decimal_text(n: nat) -> Seq<char>
    decreases n,
{
    if n < 10 {
        decimal_digits().subrange(n as int, n as int + 1)
    } else {
        decimal_text(n / 10) + decimal_digits().subrange((n % 10) as int, (n % 10) as int + 1)
    }
}

/// The decimal notation of `n`.
pub fn decimal_string(n: u64) -> (r: String)
    ensures
        r@ == decimal_text(n as nat),
    decreases n,
{
    proof {
        reveal_strlit("0123456789");
    }
    let digits = "0123456789";
    if n < 10 {
        String::from_str(digits.substring_char(n as usize, n as usize + 1))
    } else {
        let mut r = decimal_string(n / 10);
        let d = (n % 10) as usize;
        r.append(digits.substring_char(d, d + 1));
        r
    }
}

/// Whether `c` is an ASCII decimal digit.
pub open spec fn is_digit(c: char) -> bool {
    '0' <= c && c <= '9'
}

/// The value of the decimal digit `c`.
pub open spec fn digit_value(c: char) -> int {
    c as int - '0' as int
}

/// Reading the digits `d` left to right into a number no larger than `max`:
/// the value, or the first failure met (a non-digit, or a value past `max`).
pub open spec fn read_digits(d: Seq<char>, max: int) -> Result<int, IntErrorKind>
    decreases d.len(),
{
    if d.len() == 0 {
        Ok(0)
    } else {
        match read_digits(d.drop_last(), max) {
            Err(e) => Err(e),
            Ok(v) => if !is_digit(d.last()) {
                Err(IntErrorKind::InvalidDigit)
            } else if v * 10 + digit_value(d.last()) > max {
                Err(IntErrorKind::Overflow)
            } else {
                Ok(v * 10 + digit_value(d.last()))
            },
        }
    }
}

/// Unsigned decimal parsing as `str::parse` does it for an unsigned integer
/// type whose largest value is `max`: an optional leading `+`, then digits.
pub open spec fn parse_unsigned(s: Seq<char>, max: int) -> Result<int, IntErrorKind> {
    if s.len() == 0 {
        Err(IntErrorKind::Empty)
    } else if s.len() == 1 && (s[0] == '+' || s[0] == '-') {
        Err(IntErrorKind::InvalidDigit)
    } else if s[0] == '+' {
        read_digits(s.skip(1), max)
    } else {
        read_digits(s, max)
    }
}

proof fn lemma_read_digits_bounded(d: Seq<char>, max: int)
    requires
        max >= 0,
    ensures
        read_digits(d, max) matches Ok(v) ==> 0 <= v <= max,
    decreases d.len(),
{
    if d.len() > 0 {
        lemma_read_digits_bounded(d.drop_last(), max);
    }
}

/// A parsed number never exceeds the largest value allowed.
pub proof fn lemma_parse_unsigned_bounded(s: Seq<char>, max: int)
    requires
        max >= 0,
    ensures
        parse_unsigned(s, max) matches Ok(v) ==> 0 <= v <= max,
{
    lemma_read_digits_bounded(s, max);
    lemma_read_digits_bounded(s.skip(1), max);
}

/// Parse `s` as an unsigned decimal number no larger than `max`.
pub fn parse_unsigned_decimal(s: &str, max: u64) -> (r: Result<u64, IntErrorKind>)
    ensures
        match parse_unsigned(s@, max as int) {
            Ok(v) => r == Ok::<u64, IntErrorKind>(v as u64),
            Err(e) => r == Err::<u64, IntErrorKind>(e),
        },
{
    let n = s.unicode_len();
    if n == 0 {
        return Err(IntErrorKind::Empty);
    }
    let first = s.get_char(0);
    if n == 1 && (first == '+' || first == '-') {
        return Err(IntErrorKind::InvalidDigit);
    }
    let begin: usize = if first == '+' {
        1
    } else {
        0
    };
    let ghost digits = s@.skip(begin as int);
    let mut value: u64 = 0;
    let mut i: usize = begin;
    proof {
        assert(digits.take(0) =~= Seq::<char>::empty());
        assert(s@.skip(0) =~= s@);
        assert(first == s@[0]);
        assert(parse_unsigned(s@, max as int) == read_digits(digits, max as int));
    }
    while i < n
        invariant
            n == s@.len(),
            begin <= i <= n,
            parse_unsigned(s@, max as int) == read_digits(digits, max as int),
            digits == s@.skip(begin as int),
            read_digits(digits.take(i - begin), max as int) == Ok::<int, IntErrorKind>(
                value as int,
            ),
            value <= max,
        decreases n - i,
    {
        let c = s.get_char(i);
        proof {
            assert(digits.take(i + 1 - begin).drop_last() =~= digits.take(i - begin));
            assert(digits.take(i + 1 - begin).last() == c);
        }
        if !('0' <= c && c <= '9') {
            proof {
                lemma_read_digits_invalid_extends(digits, (i + 1 - begin) as int, max as int);
            }
            return Err(IntErrorKind::InvalidDigit);
        }
        let d: u64 = (c as u32 - '0' as u32) as u64;
        let next: u128 = value as u128 * 10 + d as u128;
        if next > max as u128 {
            proof {
                lemma_read_digits_error_extends(digits, (i + 1 - begin) as int, max as int);
            }
            return Err(IntErrorKind::Overflow);
        }
        value = next as u64;
        i = i + 1;
    }
    proof {
        assert(digits.take(n - begin) =~= digits);
    }
    Ok(value)
}

proof fn lemma_read_digits_invalid_extends(d: Seq<char>, k: int, max: int)
    requires
        0 < k <= d.len(),
        read_digits(d.take(k), max) == Err::<int, IntErrorKind>(IntErrorKind::InvalidDigit),
    ensures
        read_digits(d, max) == Err::<int, IntErrorKind>(IntErrorKind::InvalidDigit),
    decreases d.len() - k,
{
    lemma_read_digits_error_extends(d, k, max);
}

proof fn lemma_read_digits_error_extends(d: Seq<char>, k: int, max: int)
    requires
        0 < k <= d.len(),
        read_digits(d.take(k), max) is Err,
    ensures
        read_digits(d, max) == read_digits(d.take(k), max),
    decreases d.len() - k,
{
    if k == d.len() {
        assert(d.take(k) =~= d);
    } else {
        assert(d.take(k + 1).drop_last() =~= d.take(k));
        lemma_read_digits_error_extends(d, k + 1, max);
    }
}

} // verus!
