//! The menu document wire format.
//!
//! A document is written as a tagged, human-editable text form: structs as
//! `Tag(field:value,...)` with every field followed by a comma, strings in
//! double quotes with `\` escaping `"` and `\`, numbers in decimal, lists in
//! square brackets with a comma after every element, and enum variants as
//! bare tags. Optional fields at their default value are omitted.
//!
//! This module holds the primitive token forms shared by the serializer and
//! the parser: keywords, decimal numbers, quoted strings, booleans, and the
//! homogeneous lists. [`ser`] and [`parse`] build the document productions
//! from them, and [`laws`] proves that parsing inverts serialization.

use vstd::prelude::*;

pub mod laws;
pub mod parse;
pub mod ser;

verus! {

broadcast use vstd::seq_lib::group_seq_lib_default, vstd::seq::group_seq_axioms;

// ------------------------------------------------------------------
// Keywords
// ------------------------------------------------------------------

/// The characters of `t` stand in `s` at position `i`.
pub open spec fn kw_at(s: Seq<char>, i: int, t: Seq<char>) -> bool {
    0 <= i && i + t.len() <= s.len() && s.subrange(i, i + t.len()) == t
}

/// Splits knowledge of a compound keyword at `i` into its two halves.
pub proof fn lemma_kw_split(s: Seq<char>, i: int, a: Seq<char>, b: Seq<char>)
    requires
        kw_at(s, i, a + b),
    ensures
        kw_at(s, i, a),
        kw_at(s, i + a.len(), b),
{
    assert(s.subrange(i, i + a.len()) =~= a) by {
        assert forall|k: int| 0 <= k < a.len() implies s.subrange(i, i + a.len())[k] == a[k] by {
            assert((a + b)[k] == a[k]);
            assert(s.subrange(i, i + (a + b).len() as int)[k] == s[i + k]);
        }
    }
    assert(s.subrange(i + a.len(), i + a.len() + b.len()) =~= b) by {
        assert forall|k: int| 0 <= k < b.len() implies s.subrange(
            i + a.len(),
            i + a.len() + b.len(),
        )[k] == b[k] by {
            assert((a + b)[a.len() + k] == b[k]);
            assert(s.subrange(i, i + (a + b).len() as int)[a.len() + k] == s[i + a.len() + k]);
        }
    }
}

/// Whether the keyword `t` stands at position `i` of `s`.
pub fn match_lit(s: &Vec<char>, i: usize, t: &str) -> (r: bool)
    requires
        i <= s.len(),
    ensures
        r == kw_at(s@, i as int, t@),
{
    let n = t.unicode_len();
    if s.len() - i < n {
        proof {
            assert(!kw_at(s@, i as int, t@));
        }
        return false;
    }
    let mut k: usize = 0;
    while k < n
        invariant
            0 <= k <= n,
            i + n <= s.len(),
            n == t@.len(),
            forall|l: int| 0 <= l < k ==> s@[i + l] == t@[l],
        decreases n - k,
    {
        if s[i + k] != t.get_char(k) {
            proof {
                assert(s@.subrange(i as int, i + t@.len()) != t@) by {
                    assert(s@.subrange(i as int, i + t@.len())[k as int] == s@[i + k]);
                }
            }
            return false;
        }
        k += 1;
    }
    proof {
        assert(s@.subrange(i as int, i + t@.len()) =~= t@);
    }
    true
}

/// Appends the keyword `t` to `out`.
pub fn push_lit(out: &mut Vec<char>, t: &str)
    ensures
        final(out)@ == old(out)@ + t@,
{
    let n = t.unicode_len();
    let mut k: usize = 0;
    while k < n
        invariant
            0 <= k <= n,
            n == t@.len(),
            out@ == old(out)@ + t@.subrange(0, k as int),
        decreases n - k,
    {
        let c = t.get_char(k);
        out.push(c);
        proof {
            assert(old(out)@ + t@.subrange(0, k as int) + seq![t@[k as int]] =~= old(out)@
                + t@.subrange(0, k + 1));
        }
        k += 1;
    }
    proof {
        assert(t@.subrange(0, t@.len() as int) =~= t@);
    }
}

// ------------------------------------------------------------------
// Decimal numbers
// ------------------------------------------------------------------

pub open spec fn is_digit(c: char) -> bool {
    c == '0' || c == '1' || c == '2' || c == '3' || c == '4' || c == '5' || c == '6' || c == '7'
        || c == '8' || c == '9'
}

pub open spec fn dig_char(d: nat) -> char {
    if d == 0 {
        '0'
    } else if d == 1 {
        '1'
    } else if d == 2 {
        '2'
    } else if d == 3 {
        '3'
    } else if d == 4 {
        '4'
    } else if d == 5 {
        '5'
    } else if d == 6 {
        '6'
    } else if d == 7 {
        '7'
    } else if d == 8 {
        '8'
    } else {
        '9'
    }
}

pub open spec fn dig_val(c: char) -> nat {
    if c == '0' {
        0
    } else if c == '1' {
        1
    } else if c == '2' {
        2
    } else if c == '3' {
        3
    } else if c == '4' {
        4
    } else if c == '5' {
        5
    } else if c == '6' {
        6
    } else if c == '7' {
        7
    } else if c == '8' {
        8
    } else {
        9
    }
}

/// The decimal form of `n`, most significant digit first.
pub open spec fn ser_nat(n: nat) -> Seq<char>
    decreases n,
{
    if n < 10 {
        seq![dig_char(n)]
    } else {
        ser_nat(n / 10) + seq![dig_char(n % 10)]
    }
}

/// Consumes digits left to right into an accumulator, refusing values that
/// would exceed `usize`.
pub open spec fn p_nat_loop(s: Seq<char>, i: int, acc: usize) -> Option<(usize, int)>
    decreases s.len() - i,
{
    if 0 <= i < s.len() && is_digit(s[i]) {
        if acc * 10 + dig_val(s[i]) <= usize::MAX {
            p_nat_loop(s, i + 1, (acc * 10 + dig_val(s[i])) as usize)
        } else {
            Option::None
        }
    } else {
        Option::Some((acc, i))
    }
}

/// A decimal number: at least one digit, value at most `usize::MAX`.
pub open spec fn p_nat(s: Seq<char>, i: int) -> Option<(usize, int)> {
    if 0 <= i < s.len() && is_digit(s[i]) {
        p_nat_loop(s, i, 0)
    } else {
        Option::None
    }
}

pub fn e_nat(s: &Vec<char>, i: usize) -> (r: Option<(usize, usize)>)
    requires
        i <= s.len(),
    ensures
        lift_deep(r) == p_nat(s@, i as int),
        r matches Option::Some(x) ==> i <= x.1 <= s.len(),
{
    if i >= s.len() || !e_is_digit(s[i]) {
        return Option::None;
    }
    let mut j: usize = i;
    let mut acc: usize = 0;
    while j < s.len() && e_is_digit(s[j])
        invariant
            i <= j <= s.len(),
            p_nat_loop(s@, i as int, 0) == p_nat_loop(s@, j as int, acc),
        decreases s.len() - j,
    {
        let d = e_dig_val(s[j]);
        if acc > (usize::MAX - d) / 10 {
            proof {
                assert(acc * 10 + dig_val(s@[j as int]) > usize::MAX) by (nonlinear_arith)
                    requires
                        acc > (usize::MAX - d) / 10,
                        d == dig_val(s@[j as int]),
                        d < 10,
                ;
            }
            return Option::None;
        }
        proof {
            assert(acc * 10 + dig_val(s@[j as int]) <= usize::MAX) by (nonlinear_arith)
                requires
                    acc <= (usize::MAX - d) / 10,
                    d == dig_val(s@[j as int]),
                    d < 10,
            ;
        }
        acc = acc * 10 + d;
        j += 1;
    }
    Option::Some((acc, j))
}

fn e_is_digit(c: char) -> (r: bool)
    ensures
        r == is_digit(c),
{
    c == '0' || c == '1' || c == '2' || c == '3' || c == '4' || c == '5' || c == '6' || c == '7'
        || c == '8' || c == '9'
}

fn e_dig_val(c: char) -> (r: usize)
    ensures
        r == dig_val(c),
        r < 10,
{
    if c == '0' {
        0
    } else if c == '1' {
        1
    } else if c == '2' {
        2
    } else if c == '3' {
        3
    } else if c == '4' {
        4
    } else if c == '5' {
        5
    } else if c == '6' {
        6
    } else if c == '7' {
        7
    } else if c == '8' {
        8
    } else {
        9
    }
}

fn e_dig_char(d: usize) -> (c: char)
    requires
        d < 10,
    ensures
        c == dig_char(d as nat),
{
    if d == 0 {
        '0'
    } else if d == 1 {
        '1'
    } else if d == 2 {
        '2'
    } else if d == 3 {
        '3'
    } else if d == 4 {
        '4'
    } else if d == 5 {
        '5'
    } else if d == 6 {
        '6'
    } else if d == 7 {
        '7'
    } else if d == 8 {
        '8'
    } else {
        '9'
    }
}

/// Appends the decimal form of `n` to `out`.
pub fn ser_nat_exec(n: usize, out: &mut Vec<char>)
    ensures
        final(out)@ == old(out)@ + ser_nat(n as nat),
    decreases n,
{
    if n < 10 {
        out.push(e_dig_char(n));
    } else {
        ser_nat_exec(n / 10, out);
        out.push(e_dig_char(n % 10));
        proof {
            assert(old(out)@ + ser_nat((n / 10) as nat) + seq![dig_char((n % 10) as nat)]
                =~= old(out)@ + ser_nat(n as nat));
        }
    }
}

// ------------------------------------------------------------------
// Lifting executable parser results to the specification level
// ------------------------------------------------------------------

/// Maps an executable parser result onto the specification parser's form.
pub open spec fn lift_deep<T: DeepView>(r: Option<(T, usize)>) -> Option<(T::V, int)> {
    match r {
        Option::Some((v, j)) => Option::Some((v.deep_view(), j as int)),
        Option::None => Option::None,
    }
}

// ------------------------------------------------------------------
// Quoted strings
// ------------------------------------------------------------------

/// The escaped form of one character.
pub open spec fn esc_char(c: char) -> Seq<char> {
    if c == '"' || c == '\\' {
        seq!['\\', c]
    } else {
        seq![c]
    }
}

/// The escaped form of a string body.
pub open spec fn esc(s: Seq<char>) -> Seq<char>
    decreases s.len(),
{
    if s.len() == 0 {
        Seq::empty()
    } else {
        esc_char(s[0]) + esc(s.drop_first())
    }
}

/// A quoted string: the escaped body between double quotes.
pub open spec fn ser_str(s: Seq<char>) -> Seq<char> {
    seq!['"'] + esc(s) + seq!['"']
}

/// Consumes an escaped string body up to its closing quote.
pub open spec fn p_str_loop(s: Seq<char>, i: int, acc: Seq<char>) -> Option<(Seq<char>, int)>
    decreases s.len() - i,
{
    if i < 0 || i >= s.len() {
        Option::None
    } else if s[i] == '"' {
        Option::Some((acc, i + 1))
    } else if s[i] == '\\' {
        if i + 1 < s.len() {
            p_str_loop(s, i + 2, acc + seq![s[i + 1]])
        } else {
            Option::None
        }
    } else {
        p_str_loop(s, i + 1, acc + seq![s[i]])
    }
}

/// A quoted string starting at `i`.
pub open spec fn p_str(s: Seq<char>, i: int) -> Option<(Seq<char>, int)> {
    if 0 <= i < s.len() && s[i] == '"' {
        p_str_loop(s, i + 1, Seq::empty())
    } else {
        Option::None
    }
}

pub fn e_str(s: &Vec<char>, i: usize) -> (r: Option<(String, usize)>)
    requires
        i <= s.len(),
    ensures
        lift_deep(r) == p_str(s@, i as int),
        r matches Option::Some(x) ==> i <= x.1 <= s.len(),
{
    if i >= s.len() || s[i] != '"' {
        return Option::None;
    }
    let mut j: usize = i + 1;
    let mut acc: Vec<char> = Vec::new();
    loop
        invariant
            i < s.len(),
            s@[i as int] == '"',
            i + 1 <= j <= s.len(),
            p_str_loop(s@, i + 1, Seq::empty()) == p_str_loop(s@, j as int, acc@),
        decreases s.len() - j,
    {
        if j >= s.len() {
            return Option::None;
        }
        let c = s[j];
        if c == '"' {
            proof {
                assert(p_str_loop(s@, j as int, acc@) == Option::Some((acc@, j as int + 1)));
                assert(p_str(s@, i as int) == Option::Some((acc@, j as int + 1)));
            }
            return Option::Some((chars_to_string(acc), j + 1));
        } else if c == '\\' {
            if j + 1 >= s.len() {
                return Option::None;
            }
            let ghost acc0 = acc@;
            acc.push(s[j + 1]);
            proof {
                assert(acc@ =~= acc0 + seq![s@[j as int + 1]]);
            }
            j += 2;
        } else {
            let ghost acc0 = acc@;
            acc.push(c);
            proof {
                assert(acc@ =~= acc0 + seq![s@[j as int]]);
            }
            j += 1;
        }
    }
}

/// Appends the quoted form of `v` to `out`.
pub fn ser_str_exec(v: &str, out: &mut Vec<char>)
    ensures
        final(out)@ == old(out)@ + ser_str(v@),
{
    out.push('"');
    let n = v.unicode_len();
    let mut k: usize = 0;
    while k < n
        invariant
            0 <= k <= n,
            n == v@.len(),
            out@ == old(out)@ + seq!['"'] + esc(v@.subrange(0, k as int)),
        decreases n - k,
    {
        let c = v.get_char(k);
        if c == '"' || c == '\\' {
            out.push('\\');
            out.push(c);
        } else {
            out.push(c);
        }
        proof {
            lemma_esc_push(v@, k as int);
            assert(out@ =~= old(out)@ + seq!['"'] + esc(v@.subrange(0, k + 1)));
        }
        k += 1;
    }
    out.push('"');
    proof {
        assert(v@.subrange(0, v@.len() as int) =~= v@);
        assert(out@ =~= old(out)@ + ser_str(v@));
    }
}

/// Escaping one more character extends the escaped prefix.
proof fn lemma_esc_push(v: Seq<char>, k: int)
    requires
        0 <= k < v.len(),
    ensures
        esc(v.subrange(0, k + 1)) == esc(v.subrange(0, k)) + esc_char(v[k]),
    decreases k,
{
    if k == 0 {
        assert(v.subrange(0, 1) =~= seq![v[0]]);
        assert(esc(v.subrange(0, 1)) == esc_char(v[0]) + esc(v.subrange(0, 1).drop_first()));
        assert(v.subrange(0, 1).drop_first() =~= Seq::<char>::empty());
        assert(v.subrange(0, 0) =~= Seq::<char>::empty());
        assert(esc(v.subrange(0, 1)) =~= esc(v.subrange(0, 0)) + esc_char(v[0]));
    } else {
        let w = v.drop_first();
        lemma_esc_push(w, k - 1);
        assert(v.subrange(0, k + 1).drop_first() =~= w.subrange(0, k));
        assert(v.subrange(0, k).drop_first() =~= w.subrange(0, k - 1));
        assert(esc(v.subrange(0, k + 1)) == esc_char(v[0]) + esc(w.subrange(0, k)));
        assert(esc(v.subrange(0, k)) == esc_char(v[0]) + esc(w.subrange(0, k - 1)));
        assert(w.subrange(0, k - 1 + 1) =~= w.subrange(0, k));
        assert(esc_char(v[0]) + (esc(w.subrange(0, k - 1)) + esc_char(w[k - 1])) =~= (esc_char(
            v[0],
        ) + esc(w.subrange(0, k - 1))) + esc_char(v[k]));
    }
}

/// Relies on `String::from_iter` over `char`: collecting characters yields a
/// string holding exactly those characters in order.
#[verifier::external_body]
pub fn chars_to_string(v: Vec<char>) -> (r: String)
    ensures
        r@ == v@,
{
    v.into_iter().collect()
}

/// The characters of `s`, in order, as a vector.
pub fn string_chars(s: &str) -> (r: Vec<char>)
    ensures
        r@ == s@,
{
    let n = s.unicode_len();
    let mut r: Vec<char> = Vec::new();
    let mut k: usize = 0;
    while k < n
        invariant
            0 <= k <= n,
            n == s@.len(),
            r@ == s@.subrange(0, k as int),
        decreases n - k,
    {
        r.push(s.get_char(k));
        proof {
            assert(s@.subrange(0, k as int) + seq![s@[k as int]] =~= s@.subrange(0, k + 1));
        }
        k += 1;
    }
    proof {
        assert(s@.subrange(0, s@.len() as int) =~= s@);
    }
    r
}

/// Whether the single character `c` stands at position `i` of `s`.
pub fn match_ch(s: &Vec<char>, i: usize, c: char) -> (r: bool)
    requires
        i <= s.len(),
    ensures
        r == kw_at(s@, i as int, seq![c]),
        r == ((i as int) < s@.len() && s@[i as int] == c),
{
    if i < s.len() && s[i] == c {
        proof {
            assert(s@.subrange(i as int, i as int + 1) =~= seq![c]);
        }
        true
    } else {
        proof {
            if kw_at(s@, i as int, seq![c]) {
                assert(s@.subrange(i as int, i as int + 1)[0] == s@[i as int]);
            }
        }
        false
    }
}

/// The character count of a keyword.
pub fn lit_len(t: &str) -> (n: usize)
    ensures
        n == t@.len(),
{
    t.unicode_len()
}

/// The document text could not be read as a menu.
#[derive(Clone, Copy, Debug, PartialEq, Eq, Structural)]
pub struct FormatError;

// ------------------------------------------------------------------
// Booleans
// ------------------------------------------------------------------

pub open spec fn ser_bool(b: bool) -> Seq<char> {
    if b {
        "true"@
    } else {
        "false"@
    }
}

pub open spec fn p_bool(s: Seq<char>, i: int) -> Option<(bool, int)> {
    if kw_at(s, i, "true"@) {
        Option::Some((true, i + "true"@.len()))
    } else if kw_at(s, i, "false"@) {
        Option::Some((false, i + "false"@.len()))
    } else {
        Option::None
    }
}

// ------------------------------------------------------------------
// Round-trip facts about the primitive forms
// ------------------------------------------------------------------

/// A keyword that differs from `a` at index `k` does not stand where `a`
/// stands.
pub proof fn lemma_kw_distinct(s: Seq<char>, i: int, a: Seq<char>, b: Seq<char>, k: int)
    requires
        kw_at(s, i, a),
        0 <= k < a.len(),
        k < b.len(),
        a[k] != b[k],
    ensures
        !kw_at(s, i, b),
{
    if kw_at(s, i, b) {
        assert(s.subrange(i, i + a.len())[k] == s[i + k]);
        assert(s.subrange(i, i + b.len())[k] == s[i + k]);
    }
}

pub open spec fn pow10(k: nat) -> nat
    decreases k,
{
    if k == 0 {
        1
    } else {
        10 * pow10((k - 1) as nat)
    }
}

/// Every character of a decimal form is a digit, and there is at least one.
pub proof fn lemma_ser_nat_shape(n: nat)
    ensures
        ser_nat(n).len() >= 1,
        forall|k: int| 0 <= k < ser_nat(n).len() ==> is_digit(#[trigger] ser_nat(n)[k]),
    decreases n,
{
    if n >= 10 {
        lemma_ser_nat_shape(n / 10);
    }
}

/// Consuming the digits of `n` advances the accumulator loop past them.
proof fn lemma_p_nat_loop_run(s: Seq<char>, i: int, n: nat, acc: usize)
    requires
        kw_at(s, i, ser_nat(n)),
        acc * pow10(ser_nat(n).len() as nat) + n <= usize::MAX,
    ensures
        p_nat_loop(s, i, acc) == p_nat_loop(
            s,
            i + ser_nat(n).len(),
            (acc * pow10(ser_nat(n).len() as nat) + n) as usize,
        ),
    decreases n,
{
    if n < 10 {
        assert(s.subrange(i, i + 1)[0] == s[i]);
        assert(s[i] == dig_char(n));
        assert(is_digit(dig_char(n)));
        assert(dig_val(dig_char(n)) == n);
        assert(pow10(0) == 1);
        assert(pow10(1) == 10);
    } else {
        let m = n / 10;
        let r = n % 10;
        let tail = ser_nat(m);
        let lp = tail.len();
        vstd::arithmetic::div_mod::lemma_fundamental_div_mod(n as int, 10);
        lemma_kw_split(s, i, tail, seq![dig_char(r)]);
        assert(pow10((lp + 1) as nat) == 10 * pow10(lp as nat));
        assert(acc * pow10(lp as nat) + m <= usize::MAX) by (nonlinear_arith)
            requires
                acc * (10 * pow10(lp as nat)) + n <= usize::MAX,
                n == 10 * m + r,
                0 <= r < 10,
                pow10(lp as nat) >= 0,
                acc >= 0,
                m >= 0,
        ;
        lemma_p_nat_loop_run(s, i, m, acc);
        let a2 = (acc * pow10(lp as nat) + m) as usize;
        assert(s.subrange(i + lp, i + lp + 1)[0] == s[i + lp]);
        assert(s[i + lp] == dig_char(r));
        assert(dig_val(dig_char(r)) == r);
        assert(a2 * 10 + r == acc * pow10((lp + 1) as nat) + n) by (nonlinear_arith)
            requires
                a2 == acc * pow10(lp as nat) + m,
                pow10((lp + 1) as nat) == 10 * pow10(lp as nat),
                n == 10 * m + r,
        ;
        assert(p_nat_loop(s, i + lp, a2) == p_nat_loop(
            s,
            i + lp + 1,
            (acc * pow10((lp + 1) as nat) + n) as usize,
        ));
    }
}

/// Parsing recovers exactly the number whose decimal form stands at `i`,
/// provided no further digit follows it.
pub proof fn lemma_p_nat_ser(s: Seq<char>, i: int, n: usize)
    requires
        kw_at(s, i, ser_nat(n as nat)),
        i + ser_nat(n as nat).len() == s.len() || !is_digit(s[i + ser_nat(n as nat).len()]),
    ensures
        p_nat(s, i) == Option::Some((n, i + ser_nat(n as nat).len())),
{
    let l = ser_nat(n as nat).len();
    lemma_ser_nat_shape(n as nat);
    assert(s.subrange(i, i + l)[0] == s[i]);
    assert(is_digit(s[i]));
    assert(0 * pow10(l as nat) + n <= usize::MAX) by (nonlinear_arith)
        requires
            n <= usize::MAX,
            pow10(l as nat) >= 0,
    ;
    lemma_p_nat_loop_run(s, i, n as nat, 0);
    assert((0 * pow10(l as nat) + n) as usize == n);
}

/// Consuming an escaped body and its closing quote yields the body.
proof fn lemma_p_str_loop_run(s: Seq<char>, i: int, v: Seq<char>, acc: Seq<char>)
    requires
        kw_at(s, i, esc(v) + seq!['"']),
    ensures
        p_str_loop(s, i, acc) == Option::Some((acc + v, i + esc(v).len() + 1)),
    decreases v.len(),
{
    if v.len() == 0 {
        assert(esc(v) + seq!['"'] =~= seq!['"']);
        assert(s.subrange(i, i + 1)[0] == s[i]);
        assert(s[i] == '"');
        assert(acc + v =~= acc);
    } else {
        let c = v[0];
        let w = v.drop_first();
        assert(esc(v) == esc_char(c) + esc(w));
        assert(esc(v) + seq!['"'] =~= esc_char(c) + (esc(w) + seq!['"']));
        lemma_kw_split(s, i, esc_char(c), esc(w) + seq!['"']);
        if c == '"' || c == '\\' {
            assert(s.subrange(i, i + 2)[0] == s[i]);
            assert(s.subrange(i, i + 2)[1] == s[i + 1]);
            assert(s[i] == '\\' && s[i + 1] == c);
            lemma_p_str_loop_run(s, i + 2, w, acc + seq![c]);
            assert(acc + seq![c] + w =~= acc + v);
        } else {
            assert(s.subrange(i, i + 1)[0] == s[i]);
            assert(s[i] == c);
            lemma_p_str_loop_run(s, i + 1, w, acc + seq![c]);
            assert(acc + seq![c] + w =~= acc + v);
        }
    }
}

/// Parsing recovers exactly the string whose quoted form stands at `i`.
pub proof fn lemma_p_str_ser(s: Seq<char>, i: int, v: Seq<char>)
    requires
        kw_at(s, i, ser_str(v)),
    ensures
        p_str(s, i) == Option::Some((v, i + ser_str(v).len())),
{
    assert(ser_str(v) =~= seq!['"'] + (esc(v) + seq!['"']));
    lemma_kw_split(s, i, seq!['"'], esc(v) + seq!['"']);
    assert(s.subrange(i, i + 1)[0] == s[i]);
    assert(s[i] == '"');
    lemma_p_str_loop_run(s, i + 1, v, Seq::empty());
    assert(Seq::empty() + v =~= v);
}

/// Parsing recovers exactly the boolean whose keyword stands at `i`.
pub proof fn lemma_p_bool_ser(s: Seq<char>, i: int, b: bool)
    requires
        kw_at(s, i, ser_bool(b)),
    ensures
        p_bool(s, i) == Option::Some((b, i + ser_bool(b).len())),
{
    reveal_strlit("true");
    reveal_strlit("false");
    if !b {
        lemma_kw_distinct(s, i, "false"@, "true"@, 0);
    }
}

pub fn e_bool(s: &Vec<char>, i: usize) -> (r: Option<(bool, usize)>)
    requires
        i <= s.len(),
    ensures
        lift_deep(r) == p_bool(s@, i as int),
{
    if match_lit(s, i, "true") {
        proof {
            reveal_strlit("true");
        }
        Option::Some((true, i + 4))
    } else if match_lit(s, i, "false") {
        proof {
            reveal_strlit("true");
            reveal_strlit("false");
        }
        Option::Some((false, i + 5))
    } else {
        Option::None
    }
}

} // verus!
