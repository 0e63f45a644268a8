use vstd::prelude::*;

use crate::dice::dice_average;
use crate::dice::die_text;
use crate::dice::faces;
use crate::dice::Dice;
use crate::dice::Die;
use crate::numeric::ceil_div;
use crate::numeric::decimal;
use crate::numeric::div_ceiling;
use crate::numeric::div_floor;
use crate::numeric::floor_div;
use crate::numeric::push_decimal;
use crate::numeric::push_signed_decimal;
use crate::numeric::signed_decimal;
use crate::text::chars_to_string;

verus! {

/// A dice term with a factor applied to its rolled total.
#[derive(Clone, Copy, Debug, PartialEq, Eq, Structural)]
pub struct FactoredDice {
    pub dice: Dice,
    pub factor: isize,
}

/// A term of the mathematical model: die, count and factor.
pub type Term = (Die, int, int);

/// The mathematical model of a dice expression: its terms in order and its addend.
pub type DiceModel = (Seq<Term>, int);

/// A linear combination of dice terms plus a constant. The first term is the head.
pub struct DiceExpression {
    terms: Vec<FactoredDice>,
    addend: isize,
}

/// How each factor of an expression is changed by a number.
#[derive(Clone, Copy, Debug, PartialEq, Eq, Structural)]
pub enum ScaleOp {
    Multiply,
    FloorDivide,
    CeilingDivide,
}

pub open spec fn term_of(fd: FactoredDice) -> Term {
    (fd.dice.die, fd.dice.coefficient as int, fd.factor as int)
}

pub open spec fn terms_of(v: Seq<FactoredDice>) -> Seq<Term> {
    v.map_values(|fd: FactoredDice| term_of(fd))
}

pub open spec fn in_isize(n: int) -> bool {
    isize::MIN <= n <= isize::MAX
}

/// Two terms share die and factor, so they are merged into one.
pub open spec fn same_key(a: Term, b: Term) -> bool {
    a.0 == b.0 && a.2 == b.2
}

/// `i` is the first position whose term shares die and factor with `t`.
pub open spec fn is_first_key(ts: Seq<Term>, t: Term, i: int) -> bool {
    0 <= i < ts.len() && same_key(ts[i], t) && forall|k: int| 0 <= k < i ==> !same_key(ts[k], t)
}

pub open spec fn has_key(ts: Seq<Term>, t: Term) -> bool {
    exists|i: int| is_first_key(ts, t, i)
}

pub open spec fn key_index(ts: Seq<Term>, t: Term) -> int {
    choose|i: int| is_first_key(ts, t, i)
}

/// Adds a term: its count joins the term with the same die and factor, or it goes last.
pub open spec fn merge_term(ts: Seq<Term>, t: Term) -> Seq<Term> {
    if has_key(ts, t) {
        let i = key_index(ts, t);
        ts.update(i, (ts[i].0, ts[i].1 + t.1, ts[i].2))
    } else {
        ts.push(t)
    }
}

/// Adds the terms one after the other, in order.
pub open spec fn merge_all(ts: Seq<Term>, news: Seq<Term>) -> Seq<Term>
    decreases news.len(),
{
    if news.len() == 0 {
        ts
    } else {
        merge_term(merge_all(ts, news.drop_last()), news.last())
    }
}

/// No two terms share both die and factor.
pub open spec fn distinct_keys(ts: Seq<Term>) -> bool {
    forall|i: int, j: int| 0 <= i < j < ts.len() ==> !same_key(#[trigger] ts[i], #[trigger] ts[j])
}

pub open spec fn counts_fit(ts: Seq<Term>) -> bool {
    forall|i: int| 0 <= i < ts.len() ==> 0 <= (#[trigger] ts[i]).1 <= 255
}

pub open spec fn factors_fit(ts: Seq<Term>) -> bool {
    forall|i: int| 0 <= i < ts.len() ==> in_isize((#[trigger] ts[i]).2)
}

pub open spec fn counts_nonneg(ts: Seq<Term>) -> bool {
    forall|i: int| 0 <= i < ts.len() ==> 0 <= (#[trigger] ts[i]).1
}

pub open spec fn scaled_factor(f: int, k: int, op: ScaleOp) -> int {
    match op {
        ScaleOp::Multiply => f * k,
        ScaleOp::FloorDivide => floor_div(f, k),
        ScaleOp::CeilingDivide => ceil_div(f, k),
    }
}

pub open spec fn scale_terms(ts: Seq<Term>, k: int, op: ScaleOp) -> Seq<Term> {
    ts.map_values(|t: Term| (t.0, t.1, scaled_factor(t.2, k, op)))
}

/// The terms of a scaled expression: each factor changed, then merged in order.
pub open spec fn scaled_model(m: DiceModel, k: int, op: ScaleOp) -> DiceModel {
    (merge_all(Seq::<Term>::empty(), scale_terms(m.0, k, op)), scaled_factor(m.1, k, op))
}

/// Whether a scaled expression can be held: each factor and the addend fit, each count fits.
pub open spec fn scale_fits(m: DiceModel, k: int, op: ScaleOp) -> bool {
    factors_fit(scale_terms(m.0, k, op)) && counts_fit(scaled_model(m, k, op).0) && in_isize(
        scaled_factor(m.1, k, op),
    )
}

/// The sum of two expressions: the terms of the second merged into the first.
pub open spec fn sum_model(a: DiceModel, b: DiceModel) -> DiceModel {
    (merge_all(a.0, b.0), a.1 + b.1)
}

/// The difference of two expressions: the factors of the second negated, then merged.
pub open spec fn difference_model(a: DiceModel, b: DiceModel) -> DiceModel {
    (merge_all(a.0, scale_terms(b.0, -1, ScaleOp::Multiply)), a.1 - b.1)
}

/// Twice the expected total of one term: count times (faces + 1) times factor.
pub open spec fn term_double(t: Term) -> int {
    t.1 * (faces(t.0) + 1) * t.2
}

/// Twice the sum of the term averages, in order.
pub open spec fn terms_double(ts: Seq<Term>) -> int
    decreases ts.len(),
{
    if ts.len() == 0 {
        0
    } else {
        terms_double(ts.drop_last()) + term_double(ts.last())
    }
}

/// The expected value of an expression, rounded down once at the end: the floor of the sum of
/// the term averages plus the addend.
pub open spec fn model_average(m: DiceModel) -> int {
    floor_div(terms_double(m.0) + 2 * m.1, 2)
}

/// Bound on the running sums kept while averaging.
pub open spec fn in_running(n: int) -> bool {
    -0x10_0000_0000_0000_0000_0000_0000 <= n <= 0x10_0000_0000_0000_0000_0000_0000
}

/// Every running doubled sum stays within 2^100 in magnitude, and the average fits a machine
/// integer.
pub open spec fn average_fits(m: DiceModel) -> bool {
    (forall|j: int| 0 <= j <= m.0.len() ==> in_running(#[trigger] terms_double(m.0.take(j))))
        && in_isize(model_average(m))
}

/// The dice text of a term's count and die.
pub open spec fn term_dice_text(t: Term) -> Seq<char> {
    decimal(t.1 as nat) + die_text(t.0)
}

/// The text of the head term.
pub open spec fn head_text(t: Term) -> Seq<char> {
    if t.2 == -1 {
        seq!['-'] + term_dice_text(t)
    } else if t.2 == 1 {
        term_dice_text(t)
    } else {
        seq!['('] + term_dice_text(t) + seq![' ', '×', ' '] + signed_decimal(t.2) + seq![')']
    }
}

/// The text of a term after the head.
pub open spec fn medial_text(t: Term) -> Seq<char> {
    if t.2 == -1 {
        seq![' ', '-', ' '] + term_dice_text(t)
    } else if t.2 == 1 {
        seq![' ', '+', ' '] + term_dice_text(t)
    } else {
        seq![' ', '+', ' ', '('] + term_dice_text(t) + seq![' ', '×', ' '] + signed_decimal(t.2)
            + seq![')']
    }
}

pub open spec fn medials_text(ts: Seq<Term>) -> Seq<char>
    decreases ts.len(),
{
    if ts.len() == 0 {
        Seq::empty()
    } else {
        medials_text(ts.drop_last()) + medial_text(ts.last())
    }
}

pub open spec fn addend_text(a: int) -> Seq<char> {
    if a < 0 {
        seq![' ', '-', ' '] + decimal((-a) as nat)
    } else if a > 0 {
        seq![' ', '+', ' '] + decimal(a as nat)
    } else {
        Seq::empty()
    }
}

/// The text form of an expression: head, each further term, then the addend if not zero.
pub open spec fn serialize_spec(m: DiceModel) -> Seq<char> {
    if m.0.len() == 0 {
        addend_text(m.1)
    } else {
        head_text(m.0[0]) + medials_text(m.0.drop_first()) + addend_text(m.1)
    }
}

// ---- lemmas on merging

proof fn lemma_merge_term_props(ts: Seq<Term>, t: Term)
    requires
        t.1 >= 0,
    ensures
        merge_term(ts, t).len() >= ts.len(),
        merge_term(ts, t).len() >= 1,
        forall|i: int|
            0 <= i < ts.len() ==> (#[trigger] merge_term(ts, t)[i]).0 == ts[i].0 && merge_term(
                ts,
                t,
            )[i].2 == ts[i].2 && merge_term(ts, t)[i].1 >= ts[i].1,
        counts_nonneg(ts) ==> counts_nonneg(merge_term(ts, t)),
        distinct_keys(ts) ==> distinct_keys(merge_term(ts, t)),
{
    let r = merge_term(ts, t);
    if has_key(ts, t) {
        let i = key_index(ts, t);
        assert(is_first_key(ts, t, i));
    } else {
        if distinct_keys(ts) {
            assert forall|a: int, b: int| 0 <= a < b < r.len() implies !same_key(
                #[trigger] r[a],
                #[trigger] r[b],
            ) by {
                if b == ts.len() {
                    if same_key(r[a], r[b]) {
                        assert forall|k: int| 0 <= k < a implies !same_key(ts[k], t) by {
                            assert(!same_key(ts[k], ts[a]));
                        }
                        assert(is_first_key(ts, t, a));
                    }
                }
            }
        }
    }
}

proof fn lemma_merge_all_props(ts: Seq<Term>, news: Seq<Term>)
    requires
        counts_nonneg(news),
    ensures
        merge_all(ts, news).len() >= ts.len(),
        news.len() >= 1 ==> merge_all(ts, news).len() >= 1,
        forall|i: int|
            0 <= i < ts.len() ==> (#[trigger] merge_all(ts, news)[i]).0 == ts[i].0 && merge_all(
                ts,
                news,
            )[i].2 == ts[i].2 && merge_all(ts, news)[i].1 >= ts[i].1,
        counts_nonneg(ts) ==> counts_nonneg(merge_all(ts, news)),
        distinct_keys(ts) ==> distinct_keys(merge_all(ts, news)),
    decreases news.len(),
{
    if news.len() > 0 {
        let prev = news.drop_last();
        assert(counts_nonneg(prev)) by {
            assert forall|i: int| 0 <= i < prev.len() implies 0 <= (#[trigger] prev[i]).1 by {
                assert(prev[i] == news[i]);
            }
        }
        lemma_merge_all_props(ts, prev);
        assert(news.last() == news[news.len() - 1]);
        lemma_merge_term_props(merge_all(ts, prev), news.last());
    }
}

proof fn lemma_merge_all_split(ts: Seq<Term>, news: Seq<Term>, j: int)
    requires
        0 <= j <= news.len(),
    ensures
        merge_all(ts, news) == merge_all(merge_all(ts, news.take(j)), news.skip(j)),
    decreases news.len(),
{
    if j == news.len() {
        assert(news.take(j) =~= news);
        assert(news.skip(j) =~= Seq::<Term>::empty());
    } else {
        let prev = news.drop_last();
        lemma_merge_all_split(ts, prev, j);
        assert(prev.take(j) =~= news.take(j));
        assert(news.skip(j).drop_last() =~= prev.skip(j));
        assert(news.skip(j).last() == news.last());
    }
}

proof fn lemma_terms_of_nonneg(v: Seq<FactoredDice>)
    ensures
        counts_nonneg(terms_of(v)),
        terms_of(v).len() == v.len(),
{
}

// ---- executable merging and scaling

/// Adds one term into `acc`; gives false, and leaves `acc` as it was, where a count would pass 255.
fn merge_term_exec(acc: &mut Vec<FactoredDice>, t: FactoredDice) -> (ok: bool)
    ensures
        ok ==> terms_of(final(acc)@) == merge_term(terms_of(old(acc)@), term_of(t)),
        !ok ==> !counts_fit(merge_term(terms_of(old(acc)@), term_of(t))),
        !ok ==> final(acc)@ == old(acc)@,
{
    let ghost ts = terms_of(acc@);
    let ghost tt = term_of(t);
    let mut i: usize = 0;
    while i < acc.len()
        invariant
            0 <= i <= acc@.len(),
            ts == terms_of(acc@),
            acc@ == old(acc)@,
            tt == term_of(t),
            forall|k: int| 0 <= k < i ==> !same_key(ts[k], tt),
        decreases acc@.len() - i,
    {
        if acc[i].dice.die == t.dice.die && acc[i].factor == t.factor {
            assert(is_first_key(ts, tt, i as int));
            let ghost c = key_index(ts, tt);
            assert(c == i as int) by {
                assert(is_first_key(ts, tt, c));
                if c < i as int {
                    assert(!same_key(ts[c], tt));
                } else if c > i as int {
                    assert(same_key(ts[i as int], tt));
                }
            }
            let sum: u16 = acc[i].dice.coefficient as u16 + t.dice.coefficient as u16;
            if sum > 255 {
                assert(merge_term(ts, tt)[i as int].1 > 255);
                return false;
            }
            let mut cur = acc[i];
            cur.dice.coefficient = sum as u8;
            acc.set(i, cur);
            assert(terms_of(acc@) =~= merge_term(ts, tt));
            return true;
        }
        i = i + 1;
    }
    assert(!has_key(ts, tt));
    acc.push(t);
    assert(terms_of(acc@) =~= merge_term(ts, tt));
    true
}

/// Adds the terms of `news` into `base`, in order; `None` where a count would pass 255.
fn merge_all_exec(base: Vec<FactoredDice>, news: &Vec<FactoredDice>) -> (r: Option<
    Vec<FactoredDice>,
>)
    ensures
        counts_fit(merge_all(terms_of(base@), terms_of(news@))) <==> r is Some,
        r matches Some(v) ==> terms_of(v@) == merge_all(terms_of(base@), terms_of(news@)),
{
    let ghost b = terms_of(base@);
    let ghost n = terms_of(news@);
    let mut acc = base;
    let mut j: usize = 0;
    proof {
        assert(n.take(0) =~= Seq::<Term>::empty());
    }
    while j < news.len()
        invariant
            0 <= j <= news@.len(),
            b == terms_of(base@),
            n == terms_of(news@),
            terms_of(acc@) == merge_all(b, n.take(j as int)),
        decreases news@.len() - j,
    {
        let ghost before = terms_of(acc@);
        let ok = merge_term_exec(&mut acc, news[j]);
        proof {
            assert(n.take(j as int + 1).drop_last() =~= n.take(j as int));
            assert(n.take(j as int + 1).last() == term_of(news@[j as int]));
        }
        if !ok {
            proof {
                let mid = merge_all(b, n.take(j as int + 1));
                assert(!counts_fit(mid));
                let bad = choose|i: int| 0 <= i < mid.len() && !(0 <= (#[trigger] mid[i]).1 <= 255);
                lemma_merge_all_split(b, n, j as int + 1);
                lemma_terms_of_nonneg(news@);
                lemma_terms_of_nonneg(base@);
                assert(counts_nonneg(n.skip(j as int + 1)));
                lemma_merge_all_props(b, n.take(j as int + 1));
                assert(counts_nonneg(n.take(j as int + 1)));
                lemma_merge_all_props(mid, n.skip(j as int + 1));
                assert(0 <= mid[bad].1);
                let fin = merge_all(b, n);
                assert(fin[bad].1 >= mid[bad].1);
                assert(!(0 <= fin[bad].1 <= 255));
            }
            return None;
        }
        j = j + 1;
    }
    proof {
        assert(n.take(j as int) =~= n);
        assert(counts_fit(terms_of(acc@)));
    }
    Some(acc)
}

/// The factor of `f` changed by `k`, if it fits.
fn scale_factor_exec(f: isize, k: isize, op: ScaleOp) -> (r: Option<isize>)
    requires
        op != ScaleOp::Multiply ==> k != 0,
    ensures
        r is Some <==> in_isize(scaled_factor(f as int, k as int, op)),
        r matches Some(v) ==> v == scaled_factor(f as int, k as int, op),
{
    match op {
        ScaleOp::Multiply => {
            assert(-0x8000_0000_0000_0000_0000_0000_0000_0000 <= (f as int) * (k as int)
                <= 0x7fff_ffff_ffff_ffff_ffff_ffff_ffff_ffff) by (nonlinear_arith)
                requires
                    -0x8000_0000_0000_0000 <= f <= 0x7fff_ffff_ffff_ffff,
                    -0x8000_0000_0000_0000 <= k <= 0x7fff_ffff_ffff_ffff,
            {
            }
            let p: i128 = f as i128 * k as i128;
            if p < isize::MIN as i128 || p > isize::MAX as i128 {
                None
            } else {
                Some(p as isize)
            }
        },
        ScaleOp::FloorDivide => {
            if f == isize::MIN && k == -1 {
                assert(floor_div(f as int, -1) == -(f as int));
                None
            } else {
                Some(div_floor(f, k))
            }
        },
        ScaleOp::CeilingDivide => {
            if f == isize::MIN && k == -1 {
                assert(floor_div(-(f as int), -1) == f as int);
                None
            } else {
                Some(div_ceiling(f, k))
            }
        },
    }
}

/// Every factor changed by `k`; `None` where one would not fit.
fn scale_exec(ts: &Vec<FactoredDice>, k: isize, op: ScaleOp) -> (r: Option<Vec<FactoredDice>>)
    requires
        op != ScaleOp::Multiply ==> k != 0,
    ensures
        r is Some <==> factors_fit(scale_terms(terms_of(ts@), k as int, op)),
        r matches Some(v) ==> terms_of(v@) == scale_terms(terms_of(ts@), k as int, op),
{
    let ghost goal = scale_terms(terms_of(ts@), k as int, op);
    let mut out: Vec<FactoredDice> = Vec::new();
    let mut i: usize = 0;
    while i < ts.len()
        invariant
            0 <= i <= ts@.len(),
            op != ScaleOp::Multiply ==> k != 0,
            goal == scale_terms(terms_of(ts@), k as int, op),
            terms_of(out@) == goal.take(i as int),
        decreases ts@.len() - i,
    {
        let fd = ts[i];
        assert(terms_of(ts@)[i as int] == term_of(fd));
        assert(goal[i as int] == (fd.dice.die, fd.dice.coefficient as int, scaled_factor(fd.factor as int, k as int, op)));
        match scale_factor_exec(fd.factor, k, op) {
            Some(f) => {
                let ghost prev = out@;
                let nf = FactoredDice { dice: fd.dice, factor: f };
                out.push(nf);
                assert(terms_of(out@) =~= terms_of(prev).push(term_of(nf)));
                assert(goal.take(i as int + 1) =~= goal.take(i as int).push(goal[i as int]));
            },
            None => {
                assert(terms_of(ts@)[i as int] == term_of(fd));
                assert(!in_isize(goal[i as int].2));
                return None;
            },
        }
        i = i + 1;
    }
    assert(goal.take(i as int) =~= goal);
    assert(factors_fit(goal)) by {
        assert forall|j: int| 0 <= j < goal.len() implies in_isize((#[trigger] goal[j]).2) by {
            assert(terms_of(out@)[j] == term_of(out@[j]));
        }
    }
    Some(out)
}

/// Adds two numbers, if the sum fits.
fn checked_add(a: isize, b: isize) -> (r: Option<isize>)
    ensures
        r is Some <==> in_isize(a + b),
        r matches Some(v) ==> v == a + b,
{
    let s: i128 = a as i128 + b as i128;
    if s < isize::MIN as i128 || s > isize::MAX as i128 {
        None
    } else {
        Some(s as isize)
    }
}

/// Subtracts two numbers, if the difference fits.
fn checked_sub(a: isize, b: isize) -> (r: Option<isize>)
    ensures
        r is Some <==> in_isize(a - b),
        r matches Some(v) ==> v == a - b,
{
    let s: i128 = a as i128 - b as i128;
    if s < isize::MIN as i128 || s > isize::MAX as i128 {
        None
    } else {
        Some(s as isize)
    }
}

/// Writes the dice of a term, then ` × ` and its factor, inside parentheses.
fn push_factored_text(fd: &FactoredDice, out: &mut Vec<char>)
    ensures
        final(out)@ == old(out)@ + seq!['('] + term_dice_text(term_of(*fd)) + seq![' ', '×', ' ']
            + signed_decimal(fd.factor as int) + seq![')'],
{
    out.push('(');
    fd.dice.push_text(out);
    out.push(' ');
    out.push('×');
    out.push(' ');
    push_signed_decimal(out, fd.factor);
    out.push(')');
    assert(final(out)@ =~= old(out)@ + seq!['('] + term_dice_text(term_of(*fd)) + seq![' ', '×', ' ']
        + signed_decimal(fd.factor as int) + seq![')']);
}

fn push_head_text(fd: &FactoredDice, out: &mut Vec<char>)
    ensures
        final(out)@ == old(out)@ + head_text(term_of(*fd)),
{
    if fd.factor == -1 {
        out.push('-');
        fd.dice.push_text(out);
    } else if fd.factor == 1 {
        fd.dice.push_text(out);
    } else {
        push_factored_text(fd, out);
    }
    assert(final(out)@ =~= old(out)@ + head_text(term_of(*fd)));
}

fn push_medial_text(fd: &FactoredDice, out: &mut Vec<char>)
    ensures
        final(out)@ == old(out)@ + medial_text(term_of(*fd)),
{
    out.push(' ');
    if fd.factor == -1 {
        out.push('-');
        out.push(' ');
        fd.dice.push_text(out);
    } else if fd.factor == 1 {
        out.push('+');
        out.push(' ');
        fd.dice.push_text(out);
    } else {
        out.push('+');
        out.push(' ');
        push_factored_text(fd, out);
    }
    assert(final(out)@ =~= old(out)@ + medial_text(term_of(*fd)));
}

impl View for DiceExpression {
    type V = DiceModel;

    closed spec fn view(&self) -> DiceModel {
        (terms_of(self.terms@), self.addend as int)
    }
}

/// Adding an expression never makes two terms share both die and factor: a term whose die and
/// factor are already present only raises that term's count.
pub proof fn lemma_sum_keeps_keys_distinct(a: DiceModel, b: DiceModel)
    requires
        distinct_keys(a.0),
        counts_nonneg(b.0),
    ensures
        distinct_keys(sum_model(a, b).0),
        sum_model(a, b).0.len() >= a.0.len(),
{
    lemma_merge_all_props(a.0, b.0);
}

/// The total count of the terms with a die and factor.
pub open spec fn key_count(ts: Seq<Term>, die: Die, factor: int) -> int
    decreases ts.len(),
{
    if ts.len() == 0 {
        0
    } else {
        key_count(ts.drop_last(), die, factor) + if ts.last().0 == die && ts.last().2 == factor {
            ts.last().1
        } else {
            0
        }
    }
}

proof fn lemma_key_count_update(ts: Seq<Term>, i: int, t: Term, die: Die, factor: int)
    requires
        0 <= i < ts.len(),
        t.0 == ts[i].0 && t.2 == ts[i].2,
    ensures
        key_count(ts.update(i, t), die, factor) == key_count(ts, die, factor) + if ts[i].0 == die && ts[i].2
            == factor {
            t.1 - ts[i].1
        } else {
            0
        },
    decreases ts.len(),
{
    let u = ts.update(i, t);
    if i == ts.len() - 1 {
        assert(u.drop_last() =~= ts.drop_last());
    } else {
        assert(u.drop_last() =~= ts.drop_last().update(i, t));
        lemma_key_count_update(ts.drop_last(), i, t, die, factor);
    }
}

proof fn lemma_key_count_merge_term(ts: Seq<Term>, t: Term, die: Die, factor: int)
    ensures
        key_count(merge_term(ts, t), die, factor) == key_count(ts, die, factor) + if t.0 == die && t.2
            == factor {
            t.1
        } else {
            0
        },
{
    if has_key(ts, t) {
        let i = key_index(ts, t);
        assert(is_first_key(ts, t, i));
        lemma_key_count_update(ts, i, (ts[i].0, ts[i].1 + t.1, ts[i].2), die, factor);
    } else {
        assert(ts.push(t).drop_last() =~= ts);
    }
}

proof fn lemma_key_count_merge_all(ts: Seq<Term>, news: Seq<Term>, die: Die, factor: int)
    ensures
        key_count(merge_all(ts, news), die, factor) == key_count(ts, die, factor) + key_count(news, die, factor),
    decreases news.len(),
{
    if news.len() > 0 {
        lemma_key_count_merge_all(ts, news.drop_last(), die, factor);
        lemma_key_count_merge_term(merge_all(ts, news.drop_last()), news.last(), die, factor);
    }
}

/// In a sum of expressions, the dice of each die and factor are the dice of both operands
/// together, and the addends add up.
pub proof fn lemma_sum_counts(a: DiceModel, b: DiceModel, die: Die, factor: int)
    ensures
        key_count(sum_model(a, b).0, die, factor) == key_count(a.0, die, factor) + key_count(b.0, die, factor),
        sum_model(a, b).1 == a.1 + b.1,
{
    lemma_key_count_merge_all(a.0, b.0, die, factor);
}

/// Merging terms that already have distinct dice and factors into nothing leaves them as they are.
pub proof fn lemma_merge_distinct_is_identity(ts: Seq<Term>)
    requires
        distinct_keys(ts),
    ensures
        merge_all(Seq::<Term>::empty(), ts) == ts,
    decreases ts.len(),
{
    if ts.len() > 0 {
        let d = ts.drop_last();
        assert(distinct_keys(d)) by {
            assert forall|i: int, j: int| 0 <= i < j < d.len() implies !same_key(#[trigger] d[i], #[trigger] d[j]) by {
                assert(!same_key(ts[i], ts[j]));
            }
        }
        lemma_merge_distinct_is_identity(d);
        assert(!has_key(d, ts.last())) by {
            if has_key(d, ts.last()) {
                let i = key_index(d, ts.last());
                assert(is_first_key(d, ts.last(), i));
                assert(!same_key(ts[i], ts[ts.len() - 1]));
            }
        }
        assert(d.push(ts.last()) =~= ts);
    }
}

/// Adding a term whose die and factor are already present leaves the number of terms as it was.
pub proof fn lemma_merge_same_key_keeps_length(ts: Seq<Term>, t: Term, i: int)
    requires
        0 <= i < ts.len(),
        same_key(ts[i], t),
    ensures
        merge_term(ts, t).len() == ts.len(),
{
    lemma_first_key_exists(ts, t, i);
}

proof fn lemma_first_key_exists(ts: Seq<Term>, t: Term, i: int)
    requires
        0 <= i < ts.len(),
        same_key(ts[i], t),
    ensures
        has_key(ts, t),
    decreases i,
{
    if forall|k: int| 0 <= k < i ==> !same_key(ts[k], t) {
        assert(is_first_key(ts, t, i));
    } else {
        let k = choose|k: int| 0 <= k < i && same_key(ts[k], t);
        lemma_first_key_exists(ts, t, k);
    }
}

/// What holds of every expression value: a head term, no two terms sharing die and factor, and
/// counts, factors and addend that fit their machine types.
pub open spec fn model_valid(m: DiceModel) -> bool {
    m.0.len() >= 1 && distinct_keys(m.0) && counts_fit(m.0) && factors_fit(m.0) && in_isize(m.1)
}

/// Whether the text form can carry the expression back: every die is written as itself and no
/// factor or addend is the most negative machine integer.
pub open spec fn text_faithful(m: DiceModel) -> bool {
    (forall|i: int| 0 <= i < m.0.len() ==> (#[trigger] m.0[i]).0 == crate::dice::die_of(faces(m.0[i].0) as u8)
        && m.0[i].2 > isize::MIN) && m.1 > isize::MIN
}

/// Every count, factor and addend of an expression's model fits its machine type.
pub proof fn lemma_model_fits(e: DiceExpression)
    ensures
        counts_fit(e@.0),
        factors_fit(e@.0),
        in_isize(e@.1),
{
}

impl DiceExpression {
    #[verifier::type_invariant]
    spec fn inv(&self) -> bool {
        self.terms@.len() >= 1 && distinct_keys(terms_of(self.terms@))
    }

    /// Builds an expression from terms; the first becomes the head.
    /// An expression of the given terms, merged in order so that no two share die and factor;
    /// `None` where a merged count would pass 255.
    pub(crate) fn from_terms(terms: &Vec<FactoredDice>, addend: isize) -> (r: Option<Self>)
        requires
            terms@.len() >= 1,
        ensures
            r is Some <==> counts_fit(merge_all(Seq::<Term>::empty(), terms_of(terms@))),
            r matches Some(x) ==> x@ == (merge_all(Seq::<Term>::empty(), terms_of(terms@)), addend as int),
    {
        let empty: Vec<FactoredDice> = Vec::new();
        proof {
            assert(terms_of(empty@) =~= Seq::<Term>::empty());
            lemma_terms_of_nonneg(terms@);
            lemma_merge_all_props(Seq::<Term>::empty(), terms_of(terms@));
        }
        match merge_all_exec(empty, terms) {
            Some(merged) => Some(DiceExpression { terms: merged, addend }),
            None => None,
        }
    }

    fn copy_terms(&self) -> (r: Vec<FactoredDice>)
        ensures
            r@ == self.terms@,
    {
        let mut out: Vec<FactoredDice> = Vec::new();
        let mut i: usize = 0;
        while i < self.terms.len()
            invariant
                0 <= i <= self.terms@.len(),
                out@ == self.terms@.take(i as int),
            decreases self.terms@.len() - i,
        {
            out.push(self.terms[i]);
            i = i + 1;
            assert(out@ =~= self.terms@.take(i as int));
        }
        assert(out@ =~= self.terms@);
        out
    }

    /// An expression of one dice term, with factor 1, and an addend.
    pub fn from_dice(dice: Dice, addend: isize) -> (r: Self)
        ensures
            r@ == (seq![(dice.die, dice.coefficient as int, 1int)], addend as int),
    {
        let mut terms: Vec<FactoredDice> = Vec::new();
        terms.push(FactoredDice { dice, factor: 1 });
        let r = DiceExpression { terms, addend };
        assert(r@.0 =~= seq![(dice.die, dice.coefficient as int, 1int)]);
        r
    }

    /// An expression of one roll of a die.
    pub fn from_die(die: Die) -> (r: Self)
        ensures
            r@ == (seq![(die, 1int, 1int)], 0int),
    {
        DiceExpression::from_dice(Dice { coefficient: 1, die }, 0)
    }

    /// A copy of the expression.
    pub fn copy(&self) -> (r: Self)
        ensures
            r@ == self@,
            model_valid(self@),
    {
        proof {
            use_type_invariant(self);
        }
        DiceExpression { terms: self.copy_terms(), addend: self.addend }
    }

    /// Whether the head term has a negative factor.
    pub fn is_negative(&self) -> (r: bool)
        ensures
            r == (self@.0[0].2 < 0),
            model_valid(self@),
    {
        proof {
            use_type_invariant(self);
        }
        self.terms[0].factor < 0
    }

    /// The constant part.
    pub fn get_addend(&self) -> (r: isize)
        ensures
            r == self@.1,
            model_valid(self@),
    {
        proof {
            use_type_invariant(self);
        }
        self.addend
    }

    /// Adds a number to the addend; `None` where the sum does not fit.
    pub fn add(&self, addend: &isize) -> (r: Option<Self>)
        ensures
            r is Some <==> in_isize(self@.1 + *addend),
            r matches Some(x) ==> x@ == (self@.0, self@.1 + *addend),
    {
        proof {
            use_type_invariant(self);
        }
        match checked_add(self.addend, *addend) {
            Some(a) => Some(DiceExpression { terms: self.copy_terms(), addend: a }),
            None => None,
        }
    }

    /// Subtracts a number from the addend; `None` where the difference does not fit.
    pub fn subtract(&self, addend: &isize) -> (r: Option<Self>)
        ensures
            r is Some <==> in_isize(self@.1 - *addend),
            r matches Some(x) ==> x@ == (self@.0, self@.1 - *addend),
    {
        proof {
            use_type_invariant(self);
        }
        match checked_sub(self.addend, *addend) {
            Some(a) => Some(DiceExpression { terms: self.copy_terms(), addend: a }),
            None => None,
        }
    }

    /// Changes each factor and the addend by `k`, then merges terms that came to match.
    fn scale(&self, k: isize, op: ScaleOp) -> (r: Option<Self>)
        requires
            op != ScaleOp::Multiply ==> k != 0,
        ensures
            r is Some <==> scale_fits(self@, k as int, op),
            r matches Some(x) ==> x@ == scaled_model(self@, k as int, op),
    {
        proof {
            use_type_invariant(self);
        }
        let scaled = match scale_exec(&self.terms, k, op) {
            Some(v) => v,
            None => {
                return None;
            },
        };
        let addend = match scale_factor_exec(self.addend, k, op) {
            Some(a) => a,
            None => {
                return None;
            },
        };
        let empty: Vec<FactoredDice> = Vec::new();
        proof {
            assert(terms_of(empty@) =~= Seq::<Term>::empty());
        }
        match merge_all_exec(empty, &scaled) {
            Some(terms) => {
                proof {
                    lemma_terms_of_nonneg(scaled@);
                    lemma_merge_all_props(Seq::<Term>::empty(), terms_of(scaled@));
                }
                Some(DiceExpression { terms, addend })
            },
            None => None,
        }
    }

    /// Multiplies every factor and the addend by a number; counts are unchanged.
    pub fn multiply(&self, factor: &isize) -> (r: Option<Self>)
        ensures
            r is Some <==> scale_fits(self@, *factor as int, ScaleOp::Multiply),
            r matches Some(x) ==> x@ == scaled_model(self@, *factor as int, ScaleOp::Multiply),
    {
        self.scale(*factor, ScaleOp::Multiply)
    }

    /// Divides every factor and the addend by a number, rounding up.
    pub fn div_ceiling(&self, factor: &isize) -> (r: Option<Self>)
        requires
            *factor != 0,
        ensures
            r is Some <==> scale_fits(self@, *factor as int, ScaleOp::CeilingDivide),
            r matches Some(x) ==> x@ == scaled_model(self@, *factor as int, ScaleOp::CeilingDivide),
    {
        self.scale(*factor, ScaleOp::CeilingDivide)
    }

    /// Divides every factor and the addend by a number, rounding down.
    pub fn div_floor(&self, factor: &isize) -> (r: Option<Self>)
        requires
            *factor != 0,
        ensures
            r is Some <==> scale_fits(self@, *factor as int, ScaleOp::FloorDivide),
            r matches Some(x) ==> x@ == scaled_model(self@, *factor as int, ScaleOp::FloorDivide),
    {
        self.scale(*factor, ScaleOp::FloorDivide)
    }

    /// Adds another expression: its terms are merged into these, in order, and the addends summed.
    pub fn add_dice(&self, dice: &DiceExpression) -> (r: Option<Self>)
        ensures
            r is Some <==> counts_fit(sum_model(self@, dice@).0) && in_isize(sum_model(self@, dice@).1),
            r matches Some(x) ==> x@ == sum_model(self@, dice@),
            r matches Some(x) ==> (distinct_keys(self@.0) ==> distinct_keys(x@.0)),
    {
        proof {
            use_type_invariant(self);
            use_type_invariant(dice);
            lemma_terms_of_nonneg(self.terms@);
            lemma_terms_of_nonneg(dice.terms@);
            lemma_merge_all_props(self@.0, dice@.0);
        }
        let addend = match checked_add(self.addend, dice.addend) {
            Some(a) => a,
            None => {
                return None;
            },
        };
        match merge_all_exec(self.copy_terms(), &dice.terms) {
            Some(terms) => Some(DiceExpression { terms, addend }),
            None => None,
        }
    }

    /// Subtracts another expression: its factors are negated, then its terms merged into these.
    pub fn subtract_dice(&self, dice: &DiceExpression) -> (r: Option<Self>)
        ensures
            r is Some <==> factors_fit(scale_terms(dice@.0, -1, ScaleOp::Multiply)) && counts_fit(
                difference_model(self@, dice@).0,
            ) && in_isize(difference_model(self@, dice@).1),
            r matches Some(x) ==> x@ == difference_model(self@, dice@),
            r matches Some(x) ==> (distinct_keys(self@.0) ==> distinct_keys(x@.0)),
    {
        proof {
            use_type_invariant(self);
            use_type_invariant(dice);
            lemma_terms_of_nonneg(self.terms@);
        }
        let negated = match scale_exec(&dice.terms, -1, ScaleOp::Multiply) {
            Some(v) => v,
            None => {
                return None;
            },
        };
        proof {
            lemma_terms_of_nonneg(negated@);
            lemma_merge_all_props(self@.0, terms_of(negated@));
        }
        let addend = match checked_sub(self.addend, dice.addend) {
            Some(a) => a,
            None => {
                return None;
            },
        };
        match merge_all_exec(self.copy_terms(), &negated) {
            Some(terms) => Some(DiceExpression { terms, addend }),
            None => None,
        }
    }

    /// Adds `count` dice to the head term, keeping its die and factor.
    pub fn coefficient_add(&self, count: u8) -> (r: Option<Self>)
        ensures
            r is Some <==> self@.0[0].1 + count <= 255,
            r matches Some(x) ==> x@ == (
                self@.0.update(0, (self@.0[0].0, self@.0[0].1 + count, self@.0[0].2)),
                self@.1,
            ),
    {
        proof {
            use_type_invariant(self);
        }
        let head = self.terms[0];
        let sum: u16 = head.dice.coefficient as u16 + count as u16;
        if sum > 255 {
            return None;
        }
        let mut terms = self.copy_terms();
        let mut cur = head;
        cur.dice.coefficient = sum as u8;
        terms.set(0, cur);
        proof {
            let old_ts = terms_of(self.terms@);
            let new_ts = terms_of(terms@);
            assert(new_ts =~= old_ts.update(0, (old_ts[0].0, old_ts[0].1 + count, old_ts[0].2)));
            assert forall|i: int, j: int| 0 <= i < j < new_ts.len() implies !same_key(#[trigger] new_ts[i], #[trigger] new_ts[j]) by {
                assert(!same_key(old_ts[i], old_ts[j]));
            }
        }
        let r = DiceExpression { terms, addend: self.addend };
        assert(r@.0 =~= self@.0.update(0, (self@.0[0].0, self@.0[0].1 + count, self@.0[0].2)));
        Some(r)
    }

    /// The expected value, the floor of the sum of the term averages plus the addend; `None`
    /// where a running sum passes 2^100 or the average does not fit.
    pub fn average(&self) -> (r: Option<isize>)
        ensures
            r is Some <==> average_fits(self@),
            r matches Some(a) ==> a == model_average(self@),
    {
        proof {
            use_type_invariant(self);
        }
        let ghost ts = self@.0;
        let mut sum: i128 = 0;
        let mut i: usize = 0;
        assert(ts.take(0) =~= Seq::<Term>::empty());
        assert(in_running(terms_double(ts.take(0))));
        while i < self.terms.len()
            invariant
                0 <= i <= self.terms@.len(),
                ts == self@.0,
                ts.len() == self.terms@.len(),
                sum == terms_double(ts.take(i as int)),
                forall|j: int| 0 <= j <= i ==> in_running(#[trigger] terms_double(ts.take(j))),
            decreases self.terms@.len() - i,
        {
            let fd = self.terms[i];
            let da: u16 = fd.dice.die.doubled_average();
            assert(fd.dice.coefficient * da <= 255 * 256) by (nonlinear_arith)
                requires
                    fd.dice.coefficient <= 255,
                    da <= 256,
            {
            }
            let d: u32 = fd.dice.coefficient as u32 * da as u32;
            assert(-0x1_0000_0000_0000_0000_0000 <= d * fd.factor <= 0x1_0000_0000_0000_0000_0000)
                by (nonlinear_arith)
                requires
                    0 <= d <= 0xffff,
                    -0x8000_0000_0000_0000 <= fd.factor <= 0x7fff_ffff_ffff_ffff,
            {
            }
            let part: i128 = d as i128 * fd.factor as i128;
            let next: i128 = sum + part;
            proof {
                assert(ts.take(i as int + 1).drop_last() =~= ts.take(i as int));
                assert(ts[i as int] == term_of(fd));
                assert(term_double(ts[i as int]) == d * fd.factor);
            }
            if next < -0x10_0000_0000_0000_0000_0000_0000 || next > 0x10_0000_0000_0000_0000_0000_0000 {
                assert(!in_running(terms_double(ts.take(i as int + 1))));
                return None;
            }
            sum = next;
            i = i + 1;
        }
        assert(ts.take(i as int) =~= ts);
        let total: i128 = sum + 2 * (self.addend as i128);
        let half: i128 = if total >= 0 {
            total / 2
        } else {
            -((-total + 1) / 2)
        };
        assert(half == floor_div(total as int, 2)) by {
            if total < 0 {
                let t = total as int;
                assert(floor_div(t, 2) == t / 2);
                assert((-t + 1) / 2 == -(t / 2)) by (nonlinear_arith)
                    requires
                        t < 0,
                {
                }
            }
        }
        if half < isize::MIN as i128 || half > isize::MAX as i128 {
            return None;
        }
        Some(half as isize)
    }

    /// Writes the text form of the expression after `out`.
    pub fn push_text(&self, out: &mut Vec<char>)
        ensures
            final(out)@ == old(out)@ + serialize_spec(self@),
    {
        proof {
            use_type_invariant(self);
        }
        let ghost start = out@;
        let head = self.terms[0];
        push_head_text(&head, out);
        let ghost ts = self@.0;
        assert(out@ =~= start + head_text(ts[0]));
        let mut i: usize = 1;
        while i < self.terms.len()
            invariant
                1 <= i <= self.terms@.len(),
                ts == self@.0,
                ts.len() == self.terms@.len(),
                out@ == start + head_text(ts[0]) + medials_text(ts.subrange(1, i as int)),
            decreases self.terms@.len() - i,
        {
            let ghost before = out@;
            let fd = self.terms[i];
            assert(ts[i as int] == term_of(fd));
            push_medial_text(&fd, out);
            assert(out@ =~= before + medial_text(ts[i as int]));
            assert(ts.subrange(1, i as int + 1).drop_last() =~= ts.subrange(1, i as int));
            i = i + 1;
        }
        assert(ts.subrange(1, ts.len() as int) =~= ts.drop_first());
        let ghost mid = out@;
        if self.addend < 0 {
            out.push(' ');
            out.push('-');
            out.push(' ');
            push_decimal(out, (-(self.addend as i128)) as u64);
        } else if self.addend > 0 {
            out.push(' ');
            out.push('+');
            out.push(' ');
            push_decimal(out, self.addend as u64);
        }
        assert(out@ =~= mid + addend_text(self@.1));
        assert(out@ =~= start + serialize_spec(self@));
    }

    /// The given average, or the expression's own, then the text form in parentheses, such as
    /// `6 (1d8 + 2)`; `None` where the expression's own average is needed and does not fit.
    pub fn display_with_alternate_average(&self, average: Option<isize>) -> (r: Option<String>)
        ensures
            match average {
                Some(a) => r matches Some(t) && t@ == signed_decimal(a as int) + seq![' ', '('] + serialize_spec(
                    self@,
                ) + seq![')'],
                None => (r is Some <==> average_fits(self@)) && (r matches Some(t) ==> t@ == signed_decimal(
                    model_average(self@),
                ) + seq![' ', '('] + serialize_spec(self@) + seq![')']),
            },
    {
        let avg = match average {
            Some(a) => a,
            None => match self.average() {
                Some(a) => a,
                None => {
                    return None;
                },
            },
        };
        let mut out: Vec<char> = Vec::new();
        push_signed_decimal(&mut out, avg);
        out.push(' ');
        out.push('(');
        self.push_text(&mut out);
        out.push(')');
        assert(out@ =~= signed_decimal(avg as int) + seq![' ', '('] + serialize_spec(self@) + seq![')']);
        Some(chars_to_string(&out))
    }

    /// The text form, such as `(2d6 × 2) - 1d4 + 5`.
    /// Reading the text back gives the same expression, term for term, wherever the text form
    /// can carry it.
    pub fn serialize_to_string(&self) -> (r: String)
        ensures
            r@ == serialize_spec(self@),
            model_valid(self@),
            text_faithful(self@) ==> crate::dice_parser::parse_expression_spec(r@) == Ok::<
                DiceModel,
                crate::dice_parser::ParseDiceExpressionError,
            >(self@),
    {
        proof {
            use_type_invariant(self);
            if text_faithful(self@) {
                let m = self@;
                assert forall|i: int| 0 <= i < m.0.len() implies crate::dice_parser::term_writable(#[trigger] m.0[i]) by {
                    assert(0 <= m.0[i].1 <= 255);
                    assert(in_isize(m.0[i].2));
                }
                assert(crate::dice_parser::dice_canonical(m));
                crate::dice_parser::lemma_round_trip(m);
            }
        }
        let mut out: Vec<char> = Vec::new();
        self.push_text(&mut out);
        assert(out@ =~= serialize_spec(self@));
        chars_to_string(&out)
    }
}

} // verus!
