//! Reading the capability pointer width out of a data layout string.
//!
//! A layout is a `-`-separated list of clauses. A pointer clause reads
//! `p[flags][space]:size[:...]`, where `flags` are lowercase letters, `space`
//! is a decimal address space (0 when left out) and `size` the pointer's width
//! in bits. An alloca clause `A<space>` names the address space that holds
//! stack objects, which is the capability address space; without one it is 0.
//! Where a clause occurs twice, the first counts.
use vstd::prelude::*;
use vstd::utf8::encode_utf8;

verus! {

pub open spec fn is_digit(b: u8) -> bool {
    48 <= b <= 57
}

pub open spec fn is_lower(b: u8) -> bool {
    97 <= b <= 122
}

/// The first position at or after `i` that holds no digit.
pub open spec fn digits_end(s: Seq<u8>, i: int) -> int
    decreases s.len() - i,
{
    if i < 0 || i >= s.len() || !is_digit(s[i]) {
        i
    } else {
        digits_end(s, i + 1)
    }
}

/// The first position at or after `i` that holds no lowercase letter.
pub open spec fn letters_end(s: Seq<u8>, i: int) -> int
    decreases s.len() - i,
{
    if i < 0 || i >= s.len() || !is_lower(s[i]) {
        i
    } else {
        letters_end(s, i + 1)
    }
}

/// The decimal number written in `s[i..j]` (0 when the range is empty).
pub open spec fn number(s: Seq<u8>, i: int, j: int) -> nat
    decreases j - i,
{
    if j <= i {
        0
    } else {
        number(s, i, j - 1) * 10 + (s[j - 1] - 48) as nat
    }
}

pub open spec fn fits(n: nat) -> bool {
    n <= u64::MAX
}

/// A clause begins at `i`.
pub open spec fn clause_start(s: Seq<u8>, i: int) -> bool {
    0 <= i < s.len() && (i == 0 || s[i - 1] == 45)
}

/// The width that a pointer clause at `i` gives to address space `space`.
pub open spec fn pointer_clause(s: Seq<u8>, i: int, space: nat) -> Option<nat> {
    let j1 = letters_end(s, i + 1);
    let j2 = digits_end(s, j1);
    let j3 = digits_end(s, j2 + 1);
    if clause_start(s, i) && s[i] == 112 && fits(number(s, j1, j2)) && number(s, j1, j2) == space
        && j2 < s.len() && s[j2] == 58 && j3 > j2 + 1 && fits(number(s, j2 + 1, j3)) {
        Some(number(s, j2 + 1, j3))
    } else {
        None
    }
}

/// The width given to `space` by the first pointer clause at or after `i`.
pub open spec fn pointer_width_from(s: Seq<u8>, i: int, space: nat) -> Option<nat>
    decreases s.len() - i,
{
    if i < 0 || i >= s.len() {
        None
    } else if pointer_clause(s, i, space) is Some {
        pointer_clause(s, i, space)
    } else {
        pointer_width_from(s, i + 1, space)
    }
}

/// The address space that an alloca clause at `i` names.
pub open spec fn alloca_clause(s: Seq<u8>, i: int) -> Option<nat> {
    let j = digits_end(s, i + 1);
    if clause_start(s, i) && s[i] == 65 && j > i + 1 && fits(number(s, i + 1, j)) {
        Some(number(s, i + 1, j))
    } else {
        None
    }
}

/// The address space of the first alloca clause at or after `i`.
pub open spec fn alloca_space_from(s: Seq<u8>, i: int) -> Option<nat>
    decreases s.len() - i,
{
    if i < 0 || i >= s.len() {
        None
    } else if alloca_clause(s, i) is Some {
        alloca_clause(s, i)
    } else {
        alloca_space_from(s, i + 1)
    }
}

/// The capability address space of a layout.
pub open spec fn capability_space(s: Seq<u8>) -> nat {
    match alloca_space_from(s, 0) {
        Some(a) => a,
        None => 0,
    }
}

/// The pointer width that a layout declares for its capability address space.
pub open spec fn capability_width(s: Seq<u8>) -> Option<nat> {
    pointer_width_from(s, 0, capability_space(s))
}

proof fn lemma_digits_end(s: Seq<u8>, i: int)
    requires
        0 <= i <= s.len(),
    ensures
        i <= digits_end(s, i) <= s.len(),
        forall|k: int| i <= k < digits_end(s, i) ==> is_digit(s[k]),
        digits_end(s, i) < s.len() ==> !is_digit(s[digits_end(s, i)]),
    decreases s.len() - i,
{
    if i < s.len() && is_digit(s[i]) {
        lemma_digits_end(s, i + 1);
    }
}

proof fn lemma_letters_end(s: Seq<u8>, i: int)
    requires
        0 <= i <= s.len(),
    ensures
        i <= letters_end(s, i) <= s.len(),
    decreases s.len() - i,
{
    if i < s.len() && is_lower(s[i]) {
        lemma_letters_end(s, i + 1);
    }
}

proof fn lemma_number_grows(s: Seq<u8>, i: int, k: int, j: int)
    requires
        i <= k <= j,
        forall|m: int| i <= m < j ==> is_digit(s[m]),
    ensures
        number(s, i, k) <= number(s, i, j),
    decreases j - k,
{
    if k < j {
        lemma_number_grows(s, i, k, j - 1);
    }
}

/// The end of the digits from `i`.
fn scan_digits(s: &[u8], i: usize) -> (r: usize)
    requires
        i <= s@.len(),
    ensures
        r == digits_end(s@, i as int),
{
    let mut k: usize = i;
    while k < s.len() && s[k] >= 48 && s[k] <= 57
        invariant
            i <= k <= s@.len(),
            digits_end(s@, i as int) == digits_end(s@, k as int),
        decreases s@.len() - k,
    {
        k = k + 1;
    }
    k
}

/// The end of the lowercase letters from `i`.
fn scan_letters(s: &[u8], i: usize) -> (r: usize)
    requires
        i <= s@.len(),
    ensures
        r == letters_end(s@, i as int),
{
    let mut k: usize = i;
    while k < s.len() && s[k] >= 97 && s[k] <= 122
        invariant
            i <= k <= s@.len(),
            letters_end(s@, i as int) == letters_end(s@, k as int),
        decreases s@.len() - k,
    {
        k = k + 1;
    }
    k
}

/// The number written in the digits `s[i..j]`, or `None` when it does not fit.
fn read_number(s: &[u8], i: usize, j: usize) -> (r: Option<u64>)
    requires
        i <= j <= s@.len(),
        forall|m: int| i <= m < j ==> is_digit(s@[m]),
    ensures
        r == (if fits(number(s@, i as int, j as int)) {
            Some(number(s@, i as int, j as int) as u64)
        } else {
            None::<u64>
        }),
{
    let mut v: u64 = 0;
    let mut k: usize = i;
    while k < j
        invariant
            i <= k <= j,
            j <= s@.len(),
            forall|m: int| i <= m < j ==> is_digit(s@[m]),
            v as nat == number(s@, i as int, k as int),
        decreases j - k,
    {
        let d: u64 = (s[k] - 48) as u64;
        match v.checked_mul(10) {
            Some(t) => match t.checked_add(d) {
                Some(n) => {
                    v = n;
                },
                None => {
                    proof {
                        lemma_number_grows(s@, i as int, k + 1, j as int);
                    }
                    return None;
                },
            },
            None => {
                proof {
                    lemma_number_grows(s@, i as int, k + 1, j as int);
                }
                return None;
            },
        }
        k = k + 1;
    }
    Some(v)
}

/// The width that a pointer clause at `i` gives to address space `space`.
fn read_pointer_clause(s: &[u8], i: usize, space: u64) -> (r: Option<u64>)
    requires
        i < s@.len(),
    ensures
        r matches Some(w) ==> pointer_clause(s@, i as int, space as nat) == Some(w as nat),
        r is None ==> pointer_clause(s@, i as int, space as nat) is None,
{
    if !(i == 0 || s[i - 1] == 45) || s[i] != 112 {
        return None;
    }
    let j1 = scan_letters(s, i + 1);
    proof {
        lemma_letters_end(s@, i as int + 1);
    }
    let j2 = scan_digits(s, j1);
    proof {
        lemma_digits_end(s@, j1 as int);
    }
    match read_number(s, j1, j2) {
        Some(a) => {
            if a != space || j2 >= s.len() || s[j2] != 58 {
                return None;
            }
        },
        None => {
            return None;
        },
    }
    let j3 = scan_digits(s, j2 + 1);
    proof {
        lemma_digits_end(s@, j2 as int + 1);
    }
    if j3 <= j2 + 1 {
        return None;
    }
    read_number(s, j2 + 1, j3)
}

/// The address space that an alloca clause at `i` names.
fn read_alloca_clause(s: &[u8], i: usize) -> (r: Option<u64>)
    requires
        i < s@.len(),
    ensures
        r matches Some(a) ==> alloca_clause(s@, i as int) == Some(a as nat),
        r is None ==> alloca_clause(s@, i as int) is None,
{
    if !(i == 0 || s[i - 1] == 45) || s[i] != 65 {
        return None;
    }
    let j = scan_digits(s, i + 1);
    proof {
        lemma_digits_end(s@, i as int + 1);
    }
    if j <= i + 1 {
        return None;
    }
    read_number(s, i + 1, j)
}

/// The width given to `space` by the first pointer clause of `s`.
pub fn pointer_width_in(s: &[u8], space: u64) -> (r: Option<u64>)
    ensures
        r matches Some(w) ==> pointer_width_from(s@, 0, space as nat) == Some(w as nat),
        r is None ==> pointer_width_from(s@, 0, space as nat) is None,
{
    let mut i: usize = 0;
    while i < s.len()
        invariant
            i <= s@.len(),
            pointer_width_from(s@, 0, space as nat) == pointer_width_from(s@, i as int, space as nat),
        decreases s@.len() - i,
    {
        let c = read_pointer_clause(s, i, space);
        if c.is_some() {
            return c;
        }
        i = i + 1;
    }
    None
}

/// The address space of the first alloca clause of `s`.
pub fn alloca_space_in(s: &[u8]) -> (r: Option<u64>)
    ensures
        r matches Some(a) ==> alloca_space_from(s@, 0) == Some(a as nat),
        r is None ==> alloca_space_from(s@, 0) is None,
{
    let mut i: usize = 0;
    while i < s.len()
        invariant
            i <= s@.len(),
            alloca_space_from(s@, 0) == alloca_space_from(s@, i as int),
        decreases s@.len() - i,
    {
        let c = read_alloca_clause(s, i);
        if c.is_some() {
            return c;
        }
        i = i + 1;
    }
    None
}

/// The pointer width that `data_layout` declares for its capability address space.
pub fn capability_pointer_width(data_layout: &str) -> (r: Option<u64>)
    ensures
        r matches Some(w) ==> capability_width(encode_utf8(data_layout@)) == Some(w as nat),
        r is None ==> capability_width(encode_utf8(data_layout@)) is None,
{
    let s = data_layout.as_bytes();
    let space: u64 = match alloca_space_in(s) {
        Some(a) => a,
        None => 0,
    };
    pointer_width_in(s, space)
}

} // verus!
