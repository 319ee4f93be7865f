//! How the file browser ranks the entries of a directory against the name being typed.
use crate::search::has_prefix;
use crate::text::{ascii_lowercase, chars_of, contains, contains_seq, starts_with, string_of, to_ascii_lowercase};
use vstd::prelude::*;

verus! {

/// The outcome of comparing two entries.
#[derive(Debug, Clone, Copy, PartialEq, Eq, Structural)]
pub enum Order {
    Less,
    Equal,
    Greater,
}

/// How `human_sort::compare` orders `a` and `b`: character by character, with runs of digits
/// compared by their value.
pub uninterp spec fn natural_order(a: Seq<char>, b: Seq<char>) -> Order;

/// `c` is an ASCII digit.
pub open spec fn is_digit(c: char) -> bool {
    '0' <= c <= '9'
}

/// Whether `char::is_numeric` holds of `c`.
pub uninterp spec fn numeric_char(c: char) -> bool;

/// `char::is_numeric`.
///
/// Trusted: the answer is named `numeric_char` of the character.
#[verifier::external_body]
fn char_is_numeric(c: char) -> (b: bool)
    ensures
        b == numeric_char(c),
{
    c.is_numeric()
}

/// Where the run of ASCII digits that starts at `i` in `s` ends.
pub open spec fn digit_run_end(s: Seq<char>, i: int) -> int
    decreases s.len() - i,
{
    if i < 0 || i >= s.len() || !is_digit(s[i]) {
        i
    } else {
        digit_run_end(s, i + 1)
    }
}

/// A run of digits ends at or after its start, and within the text.
pub proof fn lemma_digit_run_end(s: Seq<char>, i: int)
    requires
        0 <= i <= s.len(),
    ensures
        i <= digit_run_end(s, i) <= s.len(),
        forall|k: int| i <= k < digit_run_end(s, i) ==> is_digit(#[trigger] s[k]),
    decreases s.len() - i,
{
    if i < s.len() && is_digit(s[i]) {
        lemma_digit_run_end(s, i + 1);
    }
}

/// The number that `human_sort` reads at position `i` of `s`: the value of the ASCII digits
/// from there on.
pub open spec fn number_at(s: Seq<char>, i: int) -> nat {
    crate::search::digits_value(s.subrange(i, digit_run_end(s, i)))
}

/// `human_sort::compare` on `a` and `b`, read from positions `i` and `j`, reads no number too
/// large for a `u32`. It walks both texts while their characters agree; where they first
/// differ and both characters are numeric it reads the number at each side, compares the two,
/// and when they are equal goes on after one more character; anything else ends the walk.
pub open spec fn compare_fits(a: Seq<char>, b: Seq<char>, i: int, j: int) -> bool
    decreases a.len() - i + b.len() - j,
{
    if i < 0 || j < 0 || i >= a.len() || j >= b.len() {
        true
    } else if a[i] == b[j] {
        compare_fits(a, b, i + 1, j + 1)
    } else if numeric_char(a[i]) && numeric_char(b[j]) {
        let ea = digit_run_end(a, i);
        let eb = digit_run_end(b, j);
        let va = number_at(a, i);
        let vb = number_at(b, j);
        if va > u32::MAX || vb > u32::MAX {
            false
        } else if va != vb || ea >= a.len() || eb >= b.len() {
            true
        } else {
            proof {
                lemma_digit_run_end(a, i);
                lemma_digit_run_end(b, j);
            }
            compare_fits(a, b, ea + 1, eb + 1)
        }
    } else {
        true
    }
}

/// `human_sort::compare` reads no number too large for a `u32` when it compares `a` and `b`:
/// on such a number it overflows.
pub open spec fn natural_fits(a: Seq<char>, b: Seq<char>) -> bool {
    compare_fits(a, b, 0, 0)
}

/// Where the run of ASCII digits at `i` ends, and its value when that fits in a `u32`.
fn run_value(cs: &Vec<char>, i: usize) -> (r: (usize, Option<u32>))
    requires
        i <= cs@.len(),
    ensures
        r.0 == digit_run_end(cs@, i as int),
        match r.1 {
            Some(v) => v == number_at(cs@, i as int),
            None => number_at(cs@, i as int) > u32::MAX,
        },
{
    proof {
        lemma_digit_run_end(cs@, i as int);
    }
    let mut k = i;
    let mut acc: u64 = 0;
    let mut over = false;
    proof {
        assert(cs@.subrange(i as int, i as int) =~= Seq::<char>::empty());
    }
    while k < cs.len() && '0' <= cs[k] && cs[k] <= '9'
        invariant
            i <= k <= cs@.len(),
            digit_run_end(cs@, i as int) == digit_run_end(cs@, k as int),
            !over ==> acc == crate::search::digits_value(cs@.subrange(i as int, k as int)) && acc <= u32::MAX,
            over ==> crate::search::digits_value(cs@.subrange(i as int, k as int)) > u32::MAX,
        decreases cs@.len() - k,
    {
        let c = cs[k];
        let ghost before = crate::search::digits_value(cs@.subrange(i as int, k as int));
        proof {
            assert(cs@.subrange(i as int, k + 1).drop_last() =~= cs@.subrange(i as int, k as int));
            assert(cs@.subrange(i as int, k + 1).last() == c);
        }
        if !over {
            let d = (c as u32 - 48) as u64;
            let v = acc * 10 + d;
            if v > 0xffff_ffff {
                over = true;
            } else {
                acc = v;
            }
        }
        k = k + 1;
    }
    if over {
        (k, None)
    } else {
        (k, Some(acc as u32))
    }
}

/// Whether `human_sort::compare` can compare `a` and `b` without reading a number too large
/// for a `u32`.
pub fn natural_order_fits(a: &str, b: &str) -> (r: bool)
    ensures
        r == natural_fits(a@, b@),
{
    let ac = chars_of(a);
    let bc = chars_of(b);
    let mut i: usize = 0;
    let mut j: usize = 0;
    while i < ac.len() && j < bc.len()
        invariant
            ac@ == a@,
            bc@ == b@,
            i <= ac@.len(),
            j <= bc@.len(),
            natural_fits(a@, b@) == compare_fits(a@, b@, i as int, j as int),
        decreases ac@.len() - i + bc@.len() - j,
    {
        let x = ac[i];
        let y = bc[j];
        if x == y {
            i = i + 1;
            j = j + 1;
        } else if char_is_numeric(x) && char_is_numeric(y) {
            let (ea, va) = run_value(&ac, i);
            let (eb, vb) = run_value(&bc, j);
            proof {
                lemma_digit_run_end(a@, i as int);
                lemma_digit_run_end(b@, j as int);
            }
            match (va, vb) {
                (Some(p), Some(q)) => {
                    if p != q || ea >= ac.len() || eb >= bc.len() {
                        return true;
                    }
                    i = ea + 1;
                    j = eb + 1;
                },
                _ => {
                    return false;
                },
            }
        } else {
            return true;
        }
    }
    true
}

/// `human_sort::compare`, as an `Order`.
///
/// Trusted: the answer is named `natural_order` of the two texts. The crate reads each number
/// where the texts differ into a `u32`; `requires` leaves out the texts where such a number is
/// larger.
#[verifier::external_body]
fn natural_compare(a: &str, b: &str) -> (r: Order)
    requires
        natural_fits(a@, b@),
    ensures
        r == natural_order(a@, b@),
{
    match human_sort::compare(a, b) {
        std::cmp::Ordering::Less => Order::Less,
        std::cmp::Ordering::Equal => Order::Equal,
        std::cmp::Ordering::Greater => Order::Greater,
    }
}

/// How the entry named `a` ranks against the entry named `b` when `base` is typed, both names
/// in lower case: names that contain `base` come first; among names that both contain it or
/// both do not, one that starts with it comes first, and the others go by natural order. When
/// only `b` contains `base` the answer is `Equal`, which makes this no total order.
pub open spec fn entry_order(a: Seq<char>, b: Seq<char>, base: Seq<char>) -> Order {
    let a_contains = contains_seq(a, base);
    let b_contains = contains_seq(b, base);
    if a_contains == b_contains {
        if has_prefix(a, base) {
            Order::Less
        } else if has_prefix(b, base) {
            Order::Greater
        } else {
            natural_order(a, b)
        }
    } else if a_contains {
        Order::Less
    } else if b_contains {
        Order::Equal
    } else {
        Order::Greater
    }
}

/// How the entry named `a` ranks against the entry named `b` when `base` (in lower case) is
/// typed; the names are compared in lower case.
pub fn compare_entries(a: &str, b: &str, base: &str) -> (r: Order)
    requires
        natural_fits(ascii_lowercase(a@), ascii_lowercase(b@)),
    ensures
        r == entry_order(ascii_lowercase(a@), ascii_lowercase(b@), base@),
{
    let a_name = string_of(&to_ascii_lowercase(&chars_of(a)));
    let b_name = string_of(&to_ascii_lowercase(&chars_of(b)));
    let base_cs = chars_of(base);
    let a_contains = contains(&chars_of(a_name.as_str()), &base_cs);
    let b_contains = contains(&chars_of(b_name.as_str()), &base_cs);
    if a_contains == b_contains {
        if starts_with(a_name.as_str(), base) {
            Order::Less
        } else if starts_with(b_name.as_str(), base) {
            Order::Greater
        } else {
            natural_compare(a_name.as_str(), b_name.as_str())
        }
    } else if a_contains {
        Order::Less
    } else if b_contains {
        Order::Equal
    } else {
        Order::Greater
    }
}

} // verus!
