//! Character-level text utilities: decimal rendering, whitespace
//! normalization, and lexicographic ordering of strings.

use vstd::prelude::*;
use vstd::string::StringExecFns;

verus! {

/// Relies on `alloc::string::String::push`: appends the given character to
/// the end of the string.
pub assume_specification[ String::push ](s: &mut String, c: char)
    ensures
        final(s)@ == old(s)@.push(c),
;

/// The decimal digit character for `d` (`d < 10`).
pub open spec fn digit_char(d: nat) -> char {
    if d == 0 {
        '0'
    } else if d == 1 {
        '1'
    } else if d == 2 {
        '2'
    } else if d == 3 {
        '3'
    } else if d == 4 {
        '4'
    } else if d == 5 {
        '5'
    } else if d == 6 {
        '6'
    } else if d == 7 {
        '7'
    } else if d == 8 {
        '8'
    } else {
        '9'
    }
}

/// The usual decimal rendering of `n`, without sign or leading zeros
/// (a single `'0'` for zero).
pub open spec fn decimal_of(n: nat) -> Seq<char>
    decreases n,
{
    if n < 10 {
        seq![digit_char(n)]
    } else {
        decimal_of(n / 10).push(digit_char(n % 10))
    }
}

fn digit_to_char(d: u64) -> (c: char)
    requires
        d < 10,
    ensures
        c == digit_char(d as nat),
{
    if d == 0 {
        '0'
    } else if d == 1 {
        '1'
    } else if d == 2 {
        '2'
    } else if d == 3 {
        '3'
    } else if d == 4 {
        '4'
    } else if d == 5 {
        '5'
    } else if d == 6 {
        '6'
    } else if d == 7 {
        '7'
    } else if d == 8 {
        '8'
    } else {
        '9'
    }
}

/// Renders `n` in decimal.
pub fn u64_to_decimal(n: u64) -> (r: String)
    ensures
        r@ == decimal_of(n as nat),
    decreases n,
{
    if n < 10 {
        let mut s = String::new();
        s.push(digit_to_char(n));
        s
    } else {
        let mut s = u64_to_decimal(n / 10);
        s.push(digit_to_char(n % 10));
        s
    }
}

/// The decimal rendering of a signed value: a leading `'-'` for a negative
/// one, then the digits of its magnitude.
pub open spec fn decimal_of_int(n: int) -> Seq<char> {
    if n >= 0 {
        decimal_of(n as nat)
    } else {
        seq!['-'] + decimal_of((-n) as nat)
    }
}

/// Renders a signed value in decimal.
pub fn i32_to_decimal(n: i32) -> (r: String)
    ensures
        r@ == decimal_of_int(n as int),
{
    if n >= 0 {
        u64_to_decimal(n as u64)
    } else {
        let magnitude: u64 = if n == i32::MIN {
            2147483648
        } else {
            (-n) as u64
        };
        assert(magnitude == -(n as int));
        let mut s = String::new();
        s.push('-');
        let digits = u64_to_decimal(magnitude);
        s.append(digits.as_str());
        proof {
            assert(s@ =~= seq!['-'] + decimal_of((-(n as int)) as nat));
        }
        s
    }
}

/// Whether `c` has the Unicode `White_Space` property, the class of
/// characters that whitespace normalization collapses.
pub open spec fn is_space_char(c: char) -> bool {
    let u = c as u32;
    (9 <= u && u <= 13) || u == 32 || u == 0x85 || u == 0xA0 || u == 0x1680 || (0x2000 <= u
        && u <= 0x200A) || u == 0x2028 || u == 0x2029 || u == 0x202F || u == 0x205F || u == 0x3000
}

fn is_space(c: char) -> (r: bool)
    ensures
        r == is_space_char(c),
{
    let u = c as u32;
    (9 <= u && u <= 13) || u == 32 || u == 0x85 || u == 0xA0 || u == 0x1680 || (0x2000 <= u
        && u <= 0x200A) || u == 0x2028 || u == 0x2029 || u == 0x202F || u == 0x205F || u == 0x3000
}

/// `s` with every whitespace run collapsed to a single `' '` and leading
/// whitespace removed; a lone trailing `' '` may remain.
pub open spec fn collapsed_ws(s: Seq<char>) -> Seq<char>
    decreases s.len(),
{
    if s.len() == 0 {
        Seq::empty()
    } else {
        let rest = collapsed_ws(s.drop_last());
        if is_space_char(s.last()) {
            if rest.len() == 0 {
                rest
            } else if rest.last() == ' ' {
                rest
            } else {
                rest.push(' ')
            }
        } else {
            rest.push(s.last())
        }
    }
}

/// `s` with every whitespace run collapsed to a single `' '` and with
/// leading and trailing whitespace removed.
pub open spec fn normalized_ws(s: Seq<char>) -> Seq<char> {
    let c = collapsed_ws(s);
    if c.len() > 0 && c.last() == ' ' {
        c.drop_last()
    } else {
        c
    }
}

/// Collapses whitespace runs to single spaces and trims both ends.
pub fn normalize_whitespace(s: &str) -> (r: String)
    ensures
        r@ == normalized_ws(s@),
{
    let n = s.unicode_len();
    let mut out = String::new();
    let mut out_len: usize = 0;
    let mut last_space = false;
    for i in 0..n
        invariant
            n == s@.len(),
            out@ == collapsed_ws(s@.take(i as int)),
            out_len == out@.len(),
            out_len <= i,
            last_space == (out@.len() > 0 && out@.last() == ' '),
    {
        let c = s.get_char(i);
        proof {
            assert(s@.take(i + 1).drop_last() =~= s@.take(i as int));
            assert(s@.take(i + 1).last() == s@[i as int]);
        }
        if is_space(c) {
            if out_len > 0 && !last_space {
                out.push(' ');
                out_len = out_len + 1;
                last_space = true;
            }
        } else {
            out.push(c);
            out_len = out_len + 1;
            last_space = false;
        }
    }
    proof {
        assert(s@.take(n as int) =~= s@);
    }
    if last_space {
        let trimmed = out.as_str().substring_char(0, out_len - 1);
        proof {
            assert(trimmed@ =~= collapsed_ws(s@).drop_last());
        }
        trimmed.to_owned()
    } else {
        out
    }
}

/// Lexicographic order on character sequences, by code point; total, and
/// the order in which file lists are emitted.
pub open spec fn lex_leq(a: Seq<char>, b: Seq<char>) -> bool
    decreases a.len(),
{
    if a.len() == 0 {
        true
    } else if b.len() == 0 {
        false
    } else if a.first() < b.first() {
        true
    } else if b.first() < a.first() {
        false
    } else {
        lex_leq(a.drop_first(), b.drop_first())
    }
}

pub proof fn lemma_lex_total(a: Seq<char>, b: Seq<char>)
    ensures
        lex_leq(a, b) || lex_leq(b, a),
    decreases a.len(),
{
    if a.len() == 0 || b.len() == 0 {
    } else if a.first() == b.first() {
        lemma_lex_total(a.drop_first(), b.drop_first());
    }
}

pub proof fn lemma_lex_refl(a: Seq<char>)
    ensures
        lex_leq(a, a),
    decreases a.len(),
{
    if a.len() > 0 {
        lemma_lex_refl(a.drop_first());
    }
}

pub proof fn lemma_lex_antisym(a: Seq<char>, b: Seq<char>)
    requires
        lex_leq(a, b),
        lex_leq(b, a),
    ensures
        a == b,
    decreases a.len(),
{
    if a.len() == 0 {
        assert(b.len() == 0);
        assert(a =~= b);
    } else {
        assert(a.first() == b.first());
        lemma_lex_antisym(a.drop_first(), b.drop_first());
        assert forall|i: int| 0 <= i < a.len() implies a[i] == b[i] by {
            if i > 0 {
                assert(a[i] == a.drop_first()[i - 1]);
                assert(b[i] == b.drop_first()[i - 1]);
            }
        }
        assert(a =~= b);
    }
}

pub proof fn lemma_lex_trans(a: Seq<char>, b: Seq<char>, c: Seq<char>)
    requires
        lex_leq(a, b),
        lex_leq(b, c),
    ensures
        lex_leq(a, c),
    decreases a.len(),
{
    if a.len() == 0 || b.len() == 0 || c.len() == 0 {
    } else if a.first() == b.first() && b.first() == c.first() {
        lemma_lex_trans(a.drop_first(), b.drop_first(), c.drop_first());
    }
}

/// Compares two strings in code-point order.
pub fn str_lex_leq(a: &str, b: &str) -> (r: bool)
    ensures
        r == lex_leq(a@, b@),
{
    let la = a.unicode_len();
    let lb = b.unicode_len();
    let mut i: usize = 0;
    proof {
        assert(a@.skip(0) =~= a@);
        assert(b@.skip(0) =~= b@);
    }
    while i < la && i < lb
        invariant
            la == a@.len(),
            lb == b@.len(),
            i <= la,
            i <= lb,
            lex_leq(a@, b@) == lex_leq(a@.skip(i as int), b@.skip(i as int)),
        decreases la - i,
    {
        let ca = a.get_char(i);
        let cb = b.get_char(i);
        proof {
            assert(a@.skip(i as int).first() == a@[i as int]);
            assert(b@.skip(i as int).first() == b@[i as int]);
        }
        if ca != cb {
            return ca < cb;
        }
        proof {
            assert(a@.skip(i as int).drop_first() =~= a@.skip(i + 1));
            assert(b@.skip(i as int).drop_first() =~= b@.skip(i + 1));
        }
        i = i + 1;
    }
    proof {
        if i >= la {
            assert(a@.skip(i as int).len() == 0);
            assert(lex_leq(a@.skip(i as int), b@.skip(i as int)));
        } else {
            assert(b@.skip(i as int).len() == 0);
            assert(a@.skip(i as int).len() > 0);
            assert(!lex_leq(a@.skip(i as int), b@.skip(i as int)));
        }
    }
    i >= la
}

/// The views of a sequence of strings.
pub open spec fn str_views(v: Seq<String>) -> Seq<Seq<char>> {
    v.map_values(|s: String| s@)
}

/// Whether `x` occurs in `v`.
pub open spec fn seq_has(v: Seq<Seq<char>>, x: Seq<char>) -> bool {
    exists|i: int| 0 <= i < v.len() && v[i] == x
}

/// Strictly ascending in code-point order; in particular, free of
/// duplicates.
pub open spec fn strictly_sorted(v: Seq<Seq<char>>) -> bool {
    forall|i: int, j: int|
        0 <= i < j < v.len() ==> lex_leq(#[trigger] v[i], #[trigger] v[j]) && v[i] != v[j]
}

/// Whether `x`'s view occurs among the views of `v`.
pub fn vec_has_string(v: &Vec<String>, x: &String) -> (r: bool)
    ensures
        r == seq_has(str_views(v@), x@),
{
    let mut i: usize = 0;
    while i < v.len()
        invariant
            i <= v@.len(),
            forall|j: int| 0 <= j < i ==> str_views(v@)[j] != x@,
        decreases v@.len() - i,
    {
        if v[i].eq(x) {
            assert(str_views(v@)[i as int] == x@);
            return true;
        }
        i = i + 1;
    }
    false
}

/// Inserts `x` into the strictly sorted `v`, keeping it strictly sorted;
/// a value already present is not inserted twice.
pub fn insert_sorted_unique(v: &mut Vec<String>, x: String)
    requires
        strictly_sorted(str_views(old(v)@)),
    ensures
        strictly_sorted(str_views(final(v)@)),
        forall|y: Seq<char>|
            #[trigger] seq_has(str_views(final(v)@), y) <==> (seq_has(str_views(old(v)@), y) || y
                == x@),
{
    let ghost vs = str_views(v@);
    let mut i: usize = 0;
    while i < v.len() && !str_lex_leq(x.as_str(), v[i].as_str())
        invariant
            vs == str_views(v@),
            i <= v@.len(),
            forall|j: int| 0 <= j < i ==> !lex_leq(x@, #[trigger] vs[j]),
        decreases v@.len() - i,
    {
        i = i + 1;
    }
    if i < v.len() && v[i].eq(&x) {
        proof {
            assert(seq_has(vs, x@)) by {
                assert(vs[i as int] == x@);
            }
        }
        return ;
    }
    proof {
        // every earlier element is strictly below x
        assert forall|j: int| 0 <= j < i implies lex_leq(vs[j], x@) && vs[j] != x@ by {
            lemma_lex_total(x@, vs[j]);
            if vs[j] == x@ {
                lemma_lex_refl(x@);
            }
        }
        // x is strictly below the element at i (when there is one)
        if i < v@.len() {
            assert(lex_leq(x@, vs[i as int]));
        }
    }
    v.insert(i, x);
    proof {
        let nvs = str_views(v@);
        assert(nvs =~= vs.take(i as int) + seq![x@] + vs.skip(i as int));
        assert forall|p: int, q: int| 0 <= p < q < nvs.len() implies lex_leq(
            #[trigger] nvs[p],
            #[trigger] nvs[q],
        ) && nvs[p] != nvs[q] by {
            let n = i as int;
            if q < n {
            } else if p > n {
            } else if p == n && q > n {
                // x against a later old element
                assert(nvs[p] == x@);
                assert(nvs[q] == vs[q - 1]);
                assert(lex_leq(x@, vs[n]));
                if q - 1 > n {
                    assert(lex_leq(vs[n], vs[q - 1]) && vs[n] != vs[q - 1]);
                    lemma_lex_trans(x@, vs[n], vs[q - 1]);
                    if x@ == vs[q - 1] {
                        lemma_lex_antisym(vs[n], vs[q - 1]);
                    }
                } else {
                    assert(vs[n] != x@);
                }
            } else if q == n {
                assert(nvs[q] == x@);
                assert(nvs[p] == vs[p]);
            } else if p < n && q > n {
                assert(nvs[p] == vs[p]);
                assert(nvs[q] == vs[q - 1]);
            }
        }
        assert forall|y: Seq<char>| #[trigger]
            seq_has(nvs, y) <==> (seq_has(vs, y) || y == x@) by {
            if seq_has(nvs, y) {
                let k = choose|k: int| 0 <= k < nvs.len() && nvs[k] == y;
                if k == i as int {
                } else if k < i as int {
                    assert(vs[k] == y);
                } else {
                    assert(vs[k - 1] == y);
                }
            }
            if seq_has(vs, y) {
                let k = choose|k: int| 0 <= k < vs.len() && vs[k] == y;
                if k < i as int {
                    assert(nvs[k] == y);
                } else {
                    assert(nvs[k + 1] == y);
                }
            }
            if y == x@ {
                assert(nvs[i as int] == y);
            }
        }
    }
}

/// Two strictly sorted sequences with the same members are the same
/// sequence: strict sortedness is a canonical form, so the classified
/// file lists are a function of their membership alone.
pub proof fn lemma_sorted_unique_canonical(a: Seq<Seq<char>>, b: Seq<Seq<char>>)
    requires
        strictly_sorted(a),
        strictly_sorted(b),
        forall|y: Seq<char>| #[trigger] seq_has(a, y) <==> seq_has(b, y),
    ensures
        a == b,
    decreases a.len(),
{
    if a.len() == 0 {
        if b.len() > 0 {
            assert(seq_has(b, b[0]));
            assert(seq_has(a, b[0]));
            let k = choose|k: int| 0 <= k < a.len() && a[k] == b[0];
            assert(false);
        }
        assert(a =~= b);
    } else {
        assert(seq_has(a, a[0]));
        assert(seq_has(b, a[0]));
        let j = choose|j: int| 0 <= j < b.len() && b[j] == a[0];
        assert(seq_has(b, b[0]));
        assert(seq_has(a, b[0]));
        let k = choose|k: int| 0 <= k < a.len() && a[k] == b[0];
        if k > 0 {
            assert(lex_leq(a[0], a[k]) && a[0] != a[k]);
        } else {
            lemma_lex_refl(a[0]);
        }
        if j > 0 {
            assert(lex_leq(b[0], b[j]) && b[0] != b[j]);
        } else {
            lemma_lex_refl(b[0]);
        }
        lemma_lex_antisym(a[0], b[0]);
        assert(a[0] == b[0]);
        let at = a.drop_first();
        let bt = b.drop_first();
        assert forall|p: int, q: int| 0 <= p < q < at.len() implies lex_leq(
            #[trigger] at[p],
            #[trigger] at[q],
        ) && at[p] != at[q] by {
            assert(at[p] == a[p + 1]);
            assert(at[q] == a[q + 1]);
        }
        assert forall|p: int, q: int| 0 <= p < q < bt.len() implies lex_leq(
            #[trigger] bt[p],
            #[trigger] bt[q],
        ) && bt[p] != bt[q] by {
            assert(bt[p] == b[p + 1]);
            assert(bt[q] == b[q + 1]);
        }
        assert forall|y: Seq<char>| #[trigger] seq_has(at, y) <==> seq_has(bt, y) by {
            if seq_has(at, y) {
                let p = choose|p: int| 0 <= p < at.len() && (#[trigger] at[p]) == y;
                assert(a[p + 1] == y);
                assert(seq_has(a, y));
                assert(seq_has(b, y));
                let q = choose|q: int| 0 <= q < b.len() && (#[trigger] b[q]) == y;
                assert(y != a[0]);
                assert(q != 0);
                assert(bt[q - 1] == y);
                assert(seq_has(bt, y));
            }
            if seq_has(bt, y) {
                let p = choose|p: int| 0 <= p < bt.len() && (#[trigger] bt[p]) == y;
                assert(b[p + 1] == y);
                assert(seq_has(b, y));
                assert(seq_has(a, y));
                let q = choose|q: int| 0 <= q < a.len() && (#[trigger] a[q]) == y;
                assert(y != b[0]);
                assert(q != 0);
                assert(at[q - 1] == y);
                assert(seq_has(at, y));
            }
        }
        lemma_sorted_unique_canonical(at, bt);
        assert forall|i: int| 0 <= i < a.len() implies a[i] == b[i] by {
            if i > 0 {
                assert(a[i] == at[i - 1]);
                assert(b[i] == bt[i - 1]);
            }
        }
        assert(a =~= b);
    }
}

/// The elements of `parts` joined by `sep`.
pub open spec fn join_with(parts: Seq<Seq<char>>, sep: Seq<char>) -> Seq<char>
    decreases parts.len(),
{
    if parts.len() == 0 {
        Seq::empty()
    } else if parts.len() == 1 {
        parts[0]
    } else {
        join_with(parts.drop_last(), sep) + sep + parts.last()
    }
}

/// Joins the strings of `v` with the separator `sep`.
pub fn join_strings(v: &Vec<String>, sep: &str) -> (r: String)
    ensures
        r@ == join_with(str_views(v@), sep@),
{
    let mut out = String::new();
    let mut i: usize = 0;
    while i < v.len()
        invariant
            i <= v@.len(),
            out@ == join_with(str_views(v@).take(i as int), sep@),
        decreases v@.len() - i,
    {
        if i > 0 {
            out.append(sep);
        }
        out.append(v[i].as_str());
        proof {
            let vs = str_views(v@);
            assert(vs.take(i + 1).drop_last() =~= vs.take(i as int));
            assert(vs.take(i + 1).last() == vs[i as int]);
            if i == 0 {
                assert(out@ =~= join_with(vs.take(1), sep@));
            }
        }
        i = i + 1;
    }
    proof {
        assert(str_views(v@).take(v@.len() as int) =~= str_views(v@));
    }
    out
}

} // verus!
