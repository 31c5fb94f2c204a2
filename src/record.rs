//! The seed record: the seed and the draws that a grid was initialized from,
//! as text of the form `seed = 7\nnumbers_added = [3, 12, 5]\n`.
use crate::text::{decimal, digit_byte, push_bytes, push_decimal};
use vstd::prelude::*;

verus! {

/// A seed and the draws, one per cell in row-major order, that were added to it.
#[derive(Debug, Clone)]
pub struct SeedRecord {
    pub seed: usize,
    pub numbers_added: Vec<usize>,
}

/// `seed = `
pub open spec fn seed_label() -> Seq<u8> {
    seq!['s' as u8, 'e' as u8, 'e' as u8, 'd' as u8, ' ' as u8, '=' as u8, ' ' as u8]
}

/// A line break, then `numbers_added = [`.
pub open spec fn numbers_label() -> Seq<u8> {
    seq![
        '\n' as u8, 'n' as u8, 'u' as u8, 'm' as u8, 'b' as u8, 'e' as u8, 'r' as u8, 's' as u8,
        '_' as u8, 'a' as u8, 'd' as u8, 'd' as u8, 'e' as u8, 'd' as u8, ' ' as u8, '=' as u8,
        ' ' as u8, '[' as u8,
    ]
}

/// `, `
pub open spec fn separator() -> Seq<u8> {
    seq![',' as u8, ' ' as u8]
}

/// `]` and a line break.
pub open spec fn closing() -> Seq<u8> {
    seq![']' as u8, '\n' as u8]
}

/// The numbers of `ns` in decimal, separated by `, `.
pub open spec fn list_text(ns: Seq<usize>) -> Seq<u8>
    decreases ns.len(),
{
    if ns.len() == 0 {
        seq![]
    } else if ns.len() == 1 {
        decimal(ns[0] as nat)
    } else {
        list_text(ns.drop_last()) + separator() + decimal(ns.last() as nat)
    }
}

/// The text of the record of `seed` and `numbers`.
pub open spec fn seed_record_text(seed: usize, numbers: Seq<usize>) -> Seq<u8> {
    seed_label() + decimal(seed as nat) + numbers_label() + list_text(numbers) + closing()
}

fn seed_label_bytes() -> (r: Vec<u8>)
    ensures
        r@ == seed_label(),
{
    let r = vec!['s' as u8, 'e' as u8, 'e' as u8, 'd' as u8, ' ' as u8, '=' as u8, ' ' as u8];
    assert(r@ =~= seed_label());
    r
}

fn numbers_label_bytes() -> (r: Vec<u8>)
    ensures
        r@ == numbers_label(),
{
    let r = vec![
        '\n' as u8, 'n' as u8, 'u' as u8, 'm' as u8, 'b' as u8, 'e' as u8, 'r' as u8, 's' as u8,
        '_' as u8, 'a' as u8, 'd' as u8, 'd' as u8, 'e' as u8, 'd' as u8, ' ' as u8, '=' as u8,
        ' ' as u8, '[' as u8,
    ];
    assert(r@ =~= numbers_label());
    r
}

/// The text of the record of `seed` and `numbers`.
pub fn encode_seed_record(seed: usize, numbers: &Vec<usize>) -> (r: Vec<u8>)
    ensures
        r@ == seed_record_text(seed, numbers@),
{
    let mut out: Vec<u8> = Vec::new();
    push_bytes(&mut out, &seed_label_bytes());
    push_decimal(&mut out, seed);
    push_bytes(&mut out, &numbers_label_bytes());
    let ghost head = out@;
    for i in 0..numbers.len()
        invariant
            out@ == head + list_text(numbers@.take(i as int)),
    {
        let ghost before = out@;
        if i > 0 {
            out.push(',' as u8);
            out.push(' ' as u8);
        }
        push_decimal(&mut out, numbers[i]);
        proof {
            let t = numbers@.take(i + 1);
            assert(t.drop_last() =~= numbers@.take(i as int));
            if i > 0 {
                assert(out@ =~= head + (list_text(t.drop_last()) + separator() + decimal(t.last() as nat)));
            } else {
                assert(out@ =~= head + decimal(t[0] as nat));
            }
        }
    }
    assert(numbers@.take(numbers@.len() as int) =~= numbers@);
    out.push(']' as u8);
    out.push('\n' as u8);
    assert(out@ =~= seed_record_text(seed, numbers@));
    out
}

/// `c` is the byte of a decimal digit.
pub open spec fn is_digit(c: u8) -> bool {
    48 <= c <= 57
}

/// The end of the run of digits that starts at `i`.
pub open spec fn digits_end(b: Seq<u8>, i: int) -> int
    decreases b.len() - i,
{
    if 0 <= i < b.len() && is_digit(b[i]) {
        digits_end(b, i + 1)
    } else {
        i
    }
}

/// The number that the digits `ds` spell, most significant first.
pub open spec fn digits_value(ds: Seq<u8>) -> nat
    decreases ds.len(),
{
    if ds.len() == 0 {
        0
    } else {
        digits_value(ds.drop_last()) * 10 + (ds.last() - 48) as nat
    }
}

/// `b` holds `t` from position `i` on.
pub open spec fn has_at(b: Seq<u8>, i: int, t: Seq<u8>) -> bool {
    0 <= i && i + t.len() <= b.len() && b.subrange(i, i + t.len()) == t
}

/// The number written at `i`, if a run of digits starts there and its value
/// fits in a usize, and where the run ends.
pub open spec fn number_at(b: Seq<u8>, i: int) -> Option<(usize, int)> {
    let j = digits_end(b, i);
    if i < j && digits_value(b.subrange(i, j)) <= usize::MAX {
        Some((digits_value(b.subrange(i, j)) as usize, j))
    } else {
        None
    }
}

/// Reads numbers separated by `, ` from `i` on, up to `]` and a line break
/// that end `b`, after those already read in `acc`.
pub open spec fn items_from(b: Seq<u8>, i: int, acc: Seq<usize>) -> Option<Seq<usize>>
    decreases b.len() - i,
{
    match number_at(b, i) {
        None => None,
        Some((v, j)) => if j <= i {
            None
        } else if b.subrange(j, b.len() as int) == closing() {
            Some(acc.push(v))
        } else if has_at(b, j, separator()) {
            items_from(b, j + 2, acc.push(v))
        } else {
            None
        },
    }
}

/// Reads a seed record: the seed and the list of draws.
pub open spec fn read_seed_record(b: Seq<u8>) -> Option<(usize, Seq<usize>)> {
    if has_at(b, 0, seed_label()) {
        match number_at(b, 7) {
            None => None,
            Some((s, j)) => if has_at(b, j, numbers_label()) {
                if b.subrange(j + 18, b.len() as int) == closing() {
                    Some((s, Seq::<usize>::empty()))
                } else {
                    match items_from(b, j + 18, Seq::<usize>::empty()) {
                        Some(ns) => Some((s, ns)),
                        None => None,
                    }
                }
            } else {
                None
            },
        }
    } else {
        None
    }
}

proof fn lemma_decimal(n: nat)
    ensures
        decimal(n).len() >= 1,
        forall|k: int| 0 <= k < decimal(n).len() ==> is_digit(#[trigger] decimal(n)[k]),
        digits_value(decimal(n)) == n,
    decreases n,
{
    let d = digit_byte(n % 10);
    assert(d as int == 48 + n % 10);
    if n >= 10 {
        lemma_decimal(n / 10);
        assert(decimal(n).drop_last() =~= decimal(n / 10));
        assert(decimal(n).last() == d);
        assert((n / 10) * 10 + n % 10 == n);
    } else {
        assert(decimal(n).drop_last() =~= Seq::<u8>::empty());
        assert(digits_value(Seq::<u8>::empty()) == 0);
        assert(decimal(n).last() == d);
    }
}

proof fn lemma_digits_end_run(b: Seq<u8>, i: int, j: int)
    requires
        0 <= i <= j <= b.len(),
        forall|q: int| i <= q < j ==> is_digit(#[trigger] b[q]),
    ensures
        digits_end(b, i) == digits_end(b, j),
    decreases j - i,
{
    if i < j {
        lemma_digits_end_run(b, i + 1, j);
    }
}

proof fn lemma_digits_end_at_least(b: Seq<u8>, i: int)
    requires
        0 <= i,
    ensures
        i <= digits_end(b, i),
        digits_end(b, i) <= b.len() || digits_end(b, i) == i,
        forall|q: int| i <= q < digits_end(b, i) ==> is_digit(#[trigger] b[q]),
    decreases b.len() - i,
{
    if 0 <= i < b.len() && is_digit(b[i]) {
        lemma_digits_end_at_least(b, i + 1);
    }
}

proof fn lemma_digits_value_grows(ds: Seq<u8>, k: int)
    requires
        0 <= k <= ds.len(),
    ensures
        digits_value(ds.take(k)) <= digits_value(ds),
    decreases ds.len() - k,
{
    if k < ds.len() {
        lemma_digits_value_grows(ds, k + 1);
        assert(ds.take(k + 1).drop_last() =~= ds.take(k));
    } else {
        assert(ds.take(k) =~= ds);
    }
}

/// The number whose decimal digits stand at `p`, followed by the end of `b`
/// or by a byte that is no digit, is read back with the position after it.
proof fn lemma_number_at(b: Seq<u8>, p: int, n: usize)
    requires
        0 <= p,
        p + decimal(n as nat).len() <= b.len(),
        b.subrange(p, p + decimal(n as nat).len()) == decimal(n as nat),
        p + decimal(n as nat).len() == b.len() || !is_digit(b[p + decimal(n as nat).len()]),
    ensures
        number_at(b, p) == Some((n, p + decimal(n as nat).len())),
{
    let d = decimal(n as nat);
    let e: int = p + d.len();
    lemma_decimal(n as nat);
    assert forall|q: int| p <= q < e implies is_digit(#[trigger] b[q]) by {
        assert(b[q] == b.subrange(p, e)[q - p]);
    }
    lemma_digits_end_run(b, p, e);
    assert(digits_end(b, e) == e);
}

proof fn lemma_list_text_front(ns: Seq<usize>)
    requires
        ns.len() >= 2,
    ensures
        list_text(ns) == decimal(ns[0] as nat) + separator() + list_text(ns.drop_first()),
    decreases ns.len(),
{
    if ns.len() == 2 {
        assert(ns.drop_last().len() == 1);
        assert(ns.drop_last()[0] == ns[0]);
        assert(list_text(ns.drop_last()) == decimal(ns[0] as nat));
        assert(ns.drop_first().len() == 1);
        assert(ns.drop_first()[0] == ns[1]);
        assert(list_text(ns.drop_first()) == decimal(ns[1] as nat));
        assert(list_text(ns) == list_text(ns.drop_last()) + separator() + decimal(ns[1] as nat));
    } else {
        let a = ns.drop_last();
        let t = ns.drop_first();
        lemma_list_text_front(a);
        assert(a.drop_first() =~= t.drop_last());
        assert(t.last() == ns.last());
        assert(a[0] == ns[0]);
        assert(list_text(t) == list_text(t.drop_last()) + separator() + decimal(t.last() as nat));
        assert(list_text(ns) == list_text(a) + separator() + decimal(ns.last() as nat));
        assert(list_text(ns) =~= decimal(ns[0] as nat) + separator() + list_text(t));
    }
}

proof fn lemma_items_from(b: Seq<u8>, i: int, acc: Seq<usize>, ns: Seq<usize>)
    requires
        0 <= i <= b.len(),
        ns.len() >= 1,
        b.subrange(i, b.len() as int) == list_text(ns) + closing(),
    ensures
        items_from(b, i, acc) == Some(acc + ns),
    decreases ns.len(),
{
    let d = decimal(ns[0] as nat);
    let j: int = i + d.len();
    lemma_decimal(ns[0] as nat);
    let rest = b.subrange(i, b.len() as int);
    if ns.len() == 1 {
        assert(rest =~= d + closing());
        assert(rest.subrange(0, d.len() as int) =~= d);
        assert(b.subrange(i, j) =~= rest.subrange(0, d.len() as int));
        assert(b[j] == rest[d.len() as int]);
        lemma_number_at(b, i, ns[0]);
        assert(b.subrange(j, b.len() as int) =~= rest.subrange(d.len() as int, rest.len() as int));
        assert(rest.subrange(d.len() as int, rest.len() as int) =~= closing());
        assert(acc.push(ns[0]) =~= acc + ns);
    } else {
        lemma_list_text_front(ns);
        let tail = list_text(ns.drop_first()) + closing();
        assert(rest =~= d + (separator() + tail));
        assert(rest.subrange(0, d.len() as int) =~= d);
        assert(b.subrange(i, j) =~= rest.subrange(0, d.len() as int));
        assert(b[j] == rest[d.len() as int]);
        assert(b[j + 1] == rest[d.len() as int + 1]);
        lemma_number_at(b, i, ns[0]);
        assert(b.subrange(j, j + 2) =~= separator());
        assert(b.subrange(j, b.len() as int) =~= rest.subrange(d.len() as int, rest.len() as int));
        assert(rest.subrange(d.len() as int, rest.len() as int) =~= separator() + tail);
        assert(b.subrange(j, b.len() as int) != closing()) by {
            assert(b.subrange(j, b.len() as int)[1] != closing()[1]);
        }
        assert(b.subrange(j + 2, b.len() as int) =~= rest.subrange(d.len() as int + 2, rest.len() as int));
        assert(rest.subrange(d.len() as int + 2, rest.len() as int) =~= tail);
        lemma_items_from(b, j + 2, acc.push(ns[0]), ns.drop_first());
        assert(acc.push(ns[0]) + ns.drop_first() =~= acc + ns);
    }
}

/// Reading back the text of a seed record gives the very seed and draws that
/// were written.
pub proof fn lemma_seed_record_round_trip(seed: usize, numbers: Seq<usize>)
    ensures
        read_seed_record(seed_record_text(seed, numbers)) == Some((seed, numbers)),
{
    let b = seed_record_text(seed, numbers);
    let d = decimal(seed as nat);
    let j: int = 7 + d.len() as int;
    lemma_decimal(seed as nat);
    assert(b.subrange(0, 7) =~= seed_label());
    assert(b.subrange(7, j) =~= d);
    assert(b[j] == '\n' as u8);
    lemma_number_at(b, 7, seed);
    assert(b.subrange(j, j + 18) =~= numbers_label());
    let k: int = j + 18;
    assert(b.subrange(k, b.len() as int) =~= list_text(numbers) + closing());
    if numbers.len() == 0 {
        assert(b.subrange(k, b.len() as int) =~= closing());
        assert(numbers =~= Seq::<usize>::empty());
    } else {
        lemma_decimal(numbers[0] as nat);
        assert(list_text(numbers).len() >= 1) by {
            if numbers.len() >= 2 {
                lemma_list_text_front(numbers);
            }
        }
        assert(b.subrange(k, b.len() as int) != closing());
        lemma_items_from(b, k, Seq::<usize>::empty(), numbers);
        assert(Seq::<usize>::empty() + numbers =~= numbers);
    }
}

fn has_at_exec(b: &Vec<u8>, i: usize, t: &Vec<u8>) -> (r: bool)
    ensures
        r == has_at(b@, i as int, t@),
{
    let n = b.len();
    if t.len() > n || i > n - t.len() {
        return false;
    }
    for k in 0..t.len()
        invariant
            n == b@.len(),
            i + t@.len() <= n,
            forall|q: int| 0 <= q < k ==> b@[i + q] == t@[q],
    {
        if b[i + k] != t[k] {
            assert(b@.subrange(i as int, i + t@.len())[k as int] != t@[k as int]);
            return false;
        }
    }
    assert(b@.subrange(i as int, i + t@.len()) =~= t@);
    true
}

/// `b` ends at `i` with `]` and a line break.
fn closes_at(b: &Vec<u8>, i: usize) -> (r: bool)
    requires
        i <= b@.len(),
    ensures
        r == (b@.subrange(i as int, b@.len() as int) == closing()),
{
    let r = b.len() - i == 2 && b[i] == ']' as u8 && b[i + 1] == '\n' as u8;
    assert(closing().len() == 2 && closing()[0] == ']' as u8 && closing()[1] == '\n' as u8);
    if r {
        assert(b@.subrange(i as int, b@.len() as int) =~= closing());
    } else if b.len() - i == 2 {
        assert(b@.subrange(i as int, b@.len() as int)[0] == b@[i as int]);
        assert(b@.subrange(i as int, b@.len() as int)[1] == b@[i + 1]);
    }
    r
}

/// The number written at `i` and the position after it.
fn parse_number(b: &Vec<u8>, i: usize) -> (r: Option<(usize, usize)>)
    requires
        i <= b@.len(),
    ensures
        r is Some <==> number_at(b@, i as int) is Some,
        r is Some ==> r->Some_0.0 == number_at(b@, i as int)->Some_0.0 && r->Some_0.1
            == number_at(b@, i as int)->Some_0.1,
        r is Some ==> r->Some_0.1 <= b@.len(),
{
    let n = b.len();
    let mut v: usize = 0;
    let mut j: usize = i;
    while j < n
        invariant
            i <= j <= n,
            n == b@.len(),
            forall|q: int| i <= q < j ==> is_digit(#[trigger] b@[q]),
            digits_end(b@, i as int) == digits_end(b@, j as int),
            v == digits_value(b@.subrange(i as int, j as int)),
        ensures
            i <= j <= n,
            j == n || !is_digit(b@[j as int]),
            digits_end(b@, i as int) == digits_end(b@, j as int),
            v == digits_value(b@.subrange(i as int, j as int)),
        decreases n - j,
    {
        let c = b[j];
        if c < 48 || c > 57 {
            break;
        }
        let d = (c - 48) as usize;
        let ghost next = b@.subrange(i as int, j + 1);
        proof {
            assert(next.drop_last() =~= b@.subrange(i as int, j as int));
            assert(digits_end(b@, j as int) == digits_end(b@, j + 1));
        }
        let grown = match v.checked_mul(10) {
            Some(m) => m.checked_add(d),
            None => None,
        };
        match grown {
            Some(w) => {
                v = w;
                j = j + 1;
            },
            None => {
                proof {
                    lemma_digits_end_at_least(b@, j + 1);
                    let e = digits_end(b@, i as int);
                    let all = b@.subrange(i as int, e);
                    assert(all.take(j + 1 - i) =~= next);
                    lemma_digits_value_grows(all, j + 1 - i);
                }
                return None;
            },
        }
    }
    proof {
        assert(digits_end(b@, j as int) == j);
    }
    if j == i {
        None
    } else {
        Some((v, j))
    }
}

/// Reads a seed record from its text. The result is exactly what
/// `read_seed_record` gives; in particular the text that
/// `encode_seed_record` writes is read back to the same values.
pub fn decode_seed_record(bytes: &Vec<u8>) -> (r: Option<SeedRecord>)
    ensures
        r is Some <==> read_seed_record(bytes@) is Some,
        r is Some ==> r->Some_0.seed == read_seed_record(bytes@)->Some_0.0
            && r->Some_0.numbers_added@ == read_seed_record(bytes@)->Some_0.1,
{
    let b = bytes;
    let n = b.len();
    if !has_at_exec(b, 0, &seed_label_bytes()) {
        return None;
    }
    let (seed, j) = match parse_number(b, 7) {
        Some(p) => p,
        None => return None,
    };
    if !has_at_exec(b, j, &numbers_label_bytes()) {
        return None;
    }
    assert(numbers_label().len() == 18);
    assert(j + 18 <= n);
    let k = j + 18;
    if closes_at(b, k) {
        return Some(SeedRecord { seed, numbers_added: Vec::new() });
    }
    let ghost target = items_from(b@, k as int, Seq::<usize>::empty());
    let mut numbers: Vec<usize> = Vec::new();
    let mut i: usize = k;
    loop
        invariant
            b@ == bytes@,
            n == b@.len(),
            i <= n,
            items_from(b@, i as int, numbers@) == target,
            target == items_from(b@, k as int, Seq::<usize>::empty()),
            read_seed_record(b@) == (match target {
                Some(ns) => Some((seed, ns)),
                None => None,
            }),
        decreases b@.len() - i,
    {
        let (v, e) = match parse_number(b, i) {
            Some(p) => p,
            None => {
                assert(items_from(b@, i as int, numbers@) is None);
                return None;
            },
        };
        numbers.push(v);
        if closes_at(b, e) {
            return Some(SeedRecord { seed, numbers_added: numbers });
        }
        if !has_at_exec(b, e, &separator_bytes()) {
            return None;
        }
        assert(separator().len() == 2);
        assert(e + 2 <= n);
        i = e + 2;
    }
}

fn separator_bytes() -> (r: Vec<u8>)
    ensures
        r@ == separator(),
{
    let r = vec![',' as u8, ' ' as u8];
    assert(r@ =~= separator());
    r
}

} // verus!
