//! Checks of single input values. Each check hands the value back, in `Ok`
//! when it passes and in `Err` when it does not.
use vstd::prelude::*;
use vstd::string::*;
use crate::binary64::Binary64;

verus! {

impl Binary64 {
    /// Passes finite numbers.
    pub fn validate_finite(self) -> (r: Result<Binary64, Binary64>)
        ensures
            r == (if self.finite() { Ok(self) } else { Err(self) }),
    {
        if self.is_finite() {
            Ok(self)
        } else {
            Err(self)
        }
    }

    /// Passes finite numbers above zero.
    pub fn validate_positive(self) -> (r: Result<Binary64, Binary64>)
        ensures
            r == (if self.positive_finite() { Ok(self) } else { Err(self) }),
    {
        if self.is_finite() && self.gt(&Binary64::zero()) {
            Ok(self)
        } else {
            Err(self)
        }
    }

    /// Passes finite numbers that are zero or above.
    pub fn validate_nonneg(self) -> (r: Result<Binary64, Binary64>)
        ensures
            r == (if self.nonneg_finite() { Ok(self) } else { Err(self) }),
    {
        if self.is_finite() && self.ge(&Binary64::zero()) {
            Ok(self)
        } else {
            Err(self)
        }
    }

    /// Passes finite numbers that are `min` or above.
    pub fn validate_at_least(self, min: Binary64) -> (r: Result<Binary64, Binary64>)
        ensures
            r == (if self.finite() && min.at_most(self) { Ok(self) } else { Err(self) }),
    {
        if self.is_finite() && self.ge(&min) {
            Ok(self)
        } else {
            Err(self)
        }
    }

    /// Passes finite numbers above `value`.
    pub fn validate_larger_than(self, value: Binary64) -> (r: Result<Binary64, Binary64>)
        ensures
            r == (if self.finite() && value.less_than(self) { Ok(self) } else { Err(self) }),
    {
        if self.is_finite() && self.gt(&value) {
            Ok(self)
        } else {
            Err(self)
        }
    }

    /// Passes finite numbers in the closed range from `min` to `max`.
    pub fn validate_range_inclusive(self, min: Binary64, max: Binary64) -> (r: Result<
        Binary64,
        Binary64,
    >)
        ensures
            r == (if self.finite_within(min, max) {
                Ok(self)
            } else {
                Err(self)
            }),
    {
        if self.is_finite() && self.ge(&min) && self.le(&max) {
            Ok(self)
        } else {
            Err(self)
        }
    }

    /// Passes numbers equal to `value`.
    pub fn validate_equals(self, value: Binary64) -> (r: Result<Binary64, Binary64>)
        ensures
            r == (if self.equal_to(value) { Ok(self) } else { Err(self) }),
    {
        if self.equals(&value) {
            Ok(self)
        } else {
            Err(self)
        }
    }
}

/// Passes counts above zero.
/// The first index `k` in `i..end` at which `pred` holds.
pub open spec fn first_index(pred: spec_fn(int) -> bool, i: int, end: int) -> Option<int>
    decreases end - i,
{
    if i >= end {
        None
    } else if pred(i) {
        Some(i)
    } else {
        first_index(pred, i + 1, end)
    }
}

pub proof fn lemma_first_index_none(pred: spec_fn(int) -> bool, i: int, end: int)
    requires
        forall|j: int| i <= j < end ==> !#[trigger] pred(j),
    ensures
        first_index(pred, i, end) == None::<int>,
    decreases end - i,
{
    if i < end {
        lemma_first_index_none(pred, i + 1, end);
    }
}

/// Finding no index means no index in the range satisfies the predicate.
pub proof fn lemma_first_index_none_all(pred: spec_fn(int) -> bool, i: int, end: int)
    requires
        first_index(pred, i, end) == None::<int>,
    ensures
        forall|j: int| i <= j < end ==> !#[trigger] pred(j),
    decreases end - i,
{
    if i < end {
        lemma_first_index_none_all(pred, i + 1, end);
    }
}

pub proof fn lemma_first_index_some(pred: spec_fn(int) -> bool, i: int, k: int, end: int)
    requires
        i <= k < end,
        pred(k),
        forall|j: int| i <= j < k ==> !#[trigger] pred(j),
    ensures
        first_index(pred, i, end) == Some(k),
    decreases k - i,
{
    if i < k {
        lemma_first_index_some(pred, i + 1, k, end);
    }
}

/// The result of the first failing check among `check(0)`, ..., `check(n - 1)`,
/// or `Ok` when all pass.
pub open spec fn first_error<E>(n: int, check: spec_fn(int) -> Result<(), E>) -> Result<(), E> {
    match first_index(|i: int| check(i) is Err, 0, n) {
        Some(i) => check(i),
        None => Ok(()),
    }
}

pub proof fn lemma_first_error_ok<E>(n: int, check: spec_fn(int) -> Result<(), E>)
    requires
        forall|j: int| 0 <= j < n ==> #[trigger] check(j) is Ok,
    ensures
        first_error(n, check) == Ok::<(), E>(()),
{
    lemma_first_index_none(|i: int| check(i) is Err, 0, n);
}

pub proof fn lemma_first_error_at<E>(n: int, check: spec_fn(int) -> Result<(), E>, k: int)
    requires
        0 <= k < n,
        check(k) is Err,
        forall|j: int| 0 <= j < k ==> #[trigger] check(j) is Ok,
    ensures
        first_error(n, check) == check(k),
{
    lemma_first_index_some(|i: int| check(i) is Err, 0, k, n);
}

/// Two predicates that agree from `i` to `end` find the same first index
/// there, and what they find lies in that range.
pub proof fn lemma_first_index_agree(p1: spec_fn(int) -> bool, p2: spec_fn(int) -> bool, i: int, end: int)
    requires
        forall|j: int| i <= j < end ==> #[trigger] p1(j) == p2(j),
    ensures
        first_index(p1, i, end) == first_index(p2, i, end),
        first_index(p1, i, end) matches Some(k) ==> i <= k < end,
    decreases end - i,
{
    if i < end {
        lemma_first_index_agree(p1, p2, i + 1, end);
    }
}

/// Two lists of checks that agree on their first `n` entries give the same
/// first error.
pub proof fn lemma_first_error_agree<E>(
    n: int,
    c1: spec_fn(int) -> Result<(), E>,
    c2: spec_fn(int) -> Result<(), E>,
)
    requires
        forall|j: int| 0 <= j < n ==> #[trigger] c1(j) == c2(j),
    ensures
        first_error(n, c1) == first_error(n, c2),
{
    lemma_first_index_agree(|i: int| c1(i) is Err, |i: int| c2(i) is Err, 0, n);
}

/// An index that is found lies in the range and satisfies the predicate.
pub proof fn lemma_first_index_found(pred: spec_fn(int) -> bool, i: int, end: int)
    ensures
        first_index(pred, i, end) matches Some(k) ==> i <= k < end && pred(k),
    decreases end - i,
{
    if i < end && !pred(i) {
        lemma_first_index_found(pred, i + 1, end);
    }
}

/// A list of checks passes exactly when every check in it passes.
pub proof fn lemma_first_error_ok_all<E>(n: int, check: spec_fn(int) -> Result<(), E>)
    ensures
        first_error(n, check) is Ok <==> forall|j: int| 0 <= j < n ==> #[trigger] check(j) is Ok,
{
    let pred = |i: int| check(i) is Err;
    lemma_first_index_found(pred, 0, n);
    if first_error(n, check) is Ok {
        assert(first_index(pred, 0, n) == None::<int>);
        lemma_first_index_none_all(pred, 0, n);
        assert forall|j: int| 0 <= j < n implies #[trigger] check(j) is Ok by {
            assert(!pred(j));
        }
    }
    if forall|j: int| 0 <= j < n ==> #[trigger] check(j) is Ok {
        lemma_first_error_ok(n, check);
    }
}

/// `first` when it fails, else `second`.
pub open spec fn then<E>(first: Result<(), E>, second: Result<(), E>) -> Result<(), E> {
    if first is Err {
        first
    } else {
        second
    }
}

/// Passes counts above zero.
pub fn validate_count_positive(n: usize) -> (r: Result<usize, usize>)
    ensures
        r == (if n > 0 { Ok(n) } else { Err(n) }),
{
    if n > 0 {
        Ok(n)
    } else {
        Err(n)
    }
}

/// Passes counts that are `min` or above.
pub fn validate_count_at_least(n: usize, min: usize) -> (r: Result<usize, usize>)
    ensures
        r == (if n >= min { Ok(n) } else { Err(n) }),
{
    if n >= min {
        Ok(n)
    } else {
        Err(n)
    }
}

/// A name is valid when it is not empty.
pub open spec fn is_valid_name(s: Seq<char>) -> bool {
    s.len() > 0
}

/// Passes non-empty names.
pub fn validate_name(name: &String) -> (r: Result<(), String>)
    ensures
        r == (if is_valid_name(name@) { Ok::<(), String>(()) } else { Err(*name) }),
{
    if name.as_str().unicode_len() > 0 {
        Ok(())
    } else {
        Err(name.clone())
    }
}

pub open spec fn is_hex_digit(c: char) -> bool {
    ('0' <= c && c <= '9') || ('a' <= c && c <= 'f') || ('A' <= c && c <= 'F')
}

/// A color is `#` followed by six hexadecimal digits.
pub open spec fn is_hex_color(s: Seq<char>) -> bool {
    &&& s.len() == 7
    &&& s[0] == '#'
    &&& forall|i: int| 1 <= i < 7 ==> is_hex_digit(#[trigger] s[i])
}

fn hex_digit(c: char) -> (r: bool)
    ensures
        r == is_hex_digit(c),
{
    ('0' <= c && c <= '9') || ('a' <= c && c <= 'f') || ('A' <= c && c <= 'F')
}

/// Passes colors written as `#RRGGBB`.
pub fn validate_hex_color(color: &String) -> (r: Result<(), String>)
    ensures
        r == (if is_hex_color(color@) { Ok::<(), String>(()) } else { Err(*color) }),
{
    let s = color.as_str();
    let n = s.unicode_len();
    if n != 7 || s.get_char(0) != '#' {
        return Err(color.clone());
    }
    let mut i: usize = 1;
    while i < 7
        invariant
            1 <= i <= 7,
            s@ == color@,
            color@.len() == 7,
            forall|j: int| 1 <= j < i ==> is_hex_digit(#[trigger] color@[j]),
        decreases 7 - i,
    {
        if !hex_digit(s.get_char(i)) {
            return Err(color.clone());
        }
        i = i + 1;
    }
    Ok(())
}

} // verus!
