//! What matchers need to know of the values they inspect: how to render them
//! for messages, and how to compare them.

use crate::matcher::MatcherResult;
use crate::text::{
    debug_list, debug_text, decimal, indent, indent_text, int_decimal, lemma_int_decimal_injective,
    lemma_int_decimal_reads_back, pretty_list, quoted, signed_value,
    render_debug_list,
    render_pretty_list, views,
};
use vstd::prelude::*;

verus! {

/// A value which has a debugging rendering, as `{:?}` and `{:#?}` produce.
pub trait Debuggable {
    /// The compact rendering, as `{:?}` lays it out.
    spec fn spec_debug(&self) -> Seq<char>;

    /// The pretty rendering, as `{:#?}` lays it out.
    spec fn spec_pretty(&self) -> Seq<char>;

    /// Renders [`Debuggable::spec_debug`].
    fn debug(&self) -> (s: String)
        ensures
            s@ == self.spec_debug(),
    ;

    /// Renders [`Debuggable::spec_pretty`].
    fn pretty(&self) -> (s: String)
        ensures
            s@ == self.spec_pretty(),
    ;
}

/// A value which has a display rendering, as `{}` and `{:#}` produce.
pub trait Displayable {
    /// The rendering; `alternate` selects the one of `{:#}`.
    spec fn spec_display(&self, alternate: bool) -> Seq<char>;

    /// Renders [`Displayable::spec_display`].
    fn display(&self, alternate: bool) -> (s: String)
        ensures
            s@ == self.spec_display(alternate),
    ;
}

/// Values which can be compared for equality with values of type `Rhs`, as
/// `==` compares them.
pub trait EqualTo<Rhs> {
    /// Whether `self == other`.
    spec fn spec_equal_to(&self, other: Rhs) -> bool;

    /// Computes `self == other`.
    fn equal_to(&self, other: &Rhs) -> (r: bool)
        ensures
            r == self.spec_equal_to(*other),
    ;
}

/// Values which can be ordered against values of type `Rhs`, as the
/// operators `<`, `<=`, `>` and `>=` order them.
pub trait OrderedWith<Rhs> {
    /// Whether `self < other`.
    spec fn spec_lt(&self, other: Rhs) -> bool;

    /// Whether `self <= other`.
    spec fn spec_le(&self, other: Rhs) -> bool;

    /// Whether `self > other`.
    spec fn spec_gt(&self, other: Rhs) -> bool;

    /// Whether `self >= other`.
    spec fn spec_ge(&self, other: Rhs) -> bool;

    /// Computes `self < other`.
    fn lt_than(&self, other: &Rhs) -> (r: bool)
        ensures
            r == self.spec_lt(*other),
    ;

    /// Computes `self <= other`.
    fn le_than(&self, other: &Rhs) -> (r: bool)
        ensures
            r == self.spec_le(*other),
    ;

    /// Computes `self > other`.
    fn gt_than(&self, other: &Rhs) -> (r: bool)
        ensures
            r == self.spec_gt(*other),
    ;

    /// Computes `self >= other`.
    fn ge_than(&self, other: &Rhs) -> (r: bool)
        ensures
            r == self.spec_ge(*other),
    ;
}

/// Whether the text `a` comes strictly before the text `b` in the
/// lexicographic order of their characters.
pub open spec fn text_lt(a: Seq<char>, b: Seq<char>) -> bool
    decreases a.len(),
{
    if a.len() == 0 {
        b.len() > 0
    } else if b.len() == 0 {
        false
    } else if (a[0] as u32) != (b[0] as u32) {
        (a[0] as u32) < (b[0] as u32)
    } else {
        text_lt(a.drop_first(), b.drop_first())
    }
}

/// Computes [`text_lt`] of `a` and `b`.
pub fn text_less(a: &str, b: &str) -> (r: bool)
    ensures
        r == text_lt(a@, b@),
{
    let na = a.unicode_len();
    let nb = b.unicode_len();
    let mut i: usize = 0;
    assert(a@.skip(0) =~= a@);
    assert(b@.skip(0) =~= b@);
    while i < na && i < nb
        invariant
            na == a@.len(),
            nb == b@.len(),
            i <= na,
            i <= nb,
            text_lt(a@, b@) == text_lt(a@.skip(i as int), b@.skip(i as int)),
        decreases na - i,
    {
        let ca = a.get_char(i);
        let cb = b.get_char(i);
        assert(a@.skip(i as int)[0] == ca);
        assert(b@.skip(i as int)[0] == cb);
        if (ca as u32) != (cb as u32) {
            return (ca as u32) < (cb as u32);
        }
        assert(a@.skip(i as int).drop_first() =~= a@.skip(i + 1));
        assert(b@.skip(i as int).drop_first() =~= b@.skip(i + 1));
        i += 1;
    }
    i == na && i < nb
}

/// No text comes before itself.
pub proof fn lemma_text_lt_irreflexive(a: Seq<char>)
    ensures
        !text_lt(a, a),
    decreases a.len(),
{
    if a.len() > 0 {
        lemma_text_lt_irreflexive(a.drop_first());
    }
}

/// The text order is total and strict: of two different texts exactly one
/// comes before the other, and of equal texts neither does.
pub proof fn lemma_text_lt_trichotomy(a: Seq<char>, b: Seq<char>)
    ensures
        a != b ==> (text_lt(a, b) != text_lt(b, a)),
        a == b ==> !text_lt(a, b) && !text_lt(b, a),
    decreases a.len(),
{
    if a == b {
        lemma_text_lt_irreflexive(a);
    } else if a.len() == 0 {
        assert(b.len() > 0) by {
            if b.len() == 0 {
                assert(a =~= b);
            }
        }
    } else if b.len() == 0 {
    } else if (a[0] as u32) != (b[0] as u32) {
    } else {
        vstd::utf8::char_u32_cast(a[0], a[0] as u32);
        vstd::utf8::char_u32_cast(b[0], b[0] as u32);
        assert(a[0] == b[0]);
        if a.drop_first() == b.drop_first() {
            assert(a =~= seq![a[0]] + a.drop_first());
            assert(b =~= seq![b[0]] + b.drop_first());
        }
        lemma_text_lt_trichotomy(a.drop_first(), b.drop_first());
    }
}

/// A proper prefix comes before the texts it begins.
pub proof fn lemma_text_lt_prefix_first(a: Seq<char>, b: Seq<char>)
    requires
        a.len() < b.len(),
        b.take(a.len() as int) == a,
    ensures
        text_lt(a, b),
    decreases a.len(),
{
    if a.len() > 0 {
        assert(b[0] == b.take(a.len() as int)[0]);
        assert(b.drop_first().take(a.len() - 1) =~= a.drop_first());
        lemma_text_lt_prefix_first(a.drop_first(), b.drop_first());
    }
}

/// Texts are ordered by their first differing character: when `a` and `b`
/// agree on their first `i` characters and differ at the next, `a` comes
/// first exactly when its character there is the smaller.
pub proof fn lemma_text_lt_first_difference(a: Seq<char>, b: Seq<char>, i: int)
    requires
        0 <= i < a.len(),
        i < b.len(),
        a.take(i) == b.take(i),
        a[i] != b[i],
    ensures
        text_lt(a, b) == ((a[i] as u32) < (b[i] as u32)),
    decreases i,
{
    vstd::utf8::char_u32_cast(a[0], a[0] as u32);
    vstd::utf8::char_u32_cast(b[0], b[0] as u32);
    if i > 0 {
        assert(a[0] == a.take(i)[0]);
        assert(b[0] == b.take(i)[0]);
        assert(a.drop_first().take(i - 1) =~= a.take(i).drop_first());
        assert(b.drop_first().take(i - 1) =~= b.take(i).drop_first());
        lemma_text_lt_first_difference(a.drop_first(), b.drop_first(), i - 1);
    }
}

/// The text order is transitive.
pub proof fn lemma_text_lt_transitive(a: Seq<char>, b: Seq<char>, c: Seq<char>)
    requires
        text_lt(a, b),
        text_lt(b, c),
    ensures
        text_lt(a, c),
    decreases a.len(),
{
    if a.len() > 0 && b.len() > 0 && c.len() > 0 {
        if (a[0] as u32) == (b[0] as u32) && (b[0] as u32) == (c[0] as u32) {
            lemma_text_lt_transitive(a.drop_first(), b.drop_first(), c.drop_first());
        }
    }
}

/// Between string slices, `a <= b` holds exactly when the texts are equal
/// or `a` comes first, and `a < b` exactly when `a <= b` and they differ.
pub proof fn lemma_str_le_is_lt_or_equal<'a, 'b>(a: &'a str, b: &'b str)
    ensures
        a.spec_le(b) == (a@ == b@ || text_lt(a@, b@)),
        a.spec_lt(b) == (a.spec_le(b) && a@ != b@),
        a.spec_ge(b) == b.spec_le(a),
        a.spec_gt(b) == b.spec_lt(a),
{
    lemma_text_lt_trichotomy(a@, b@);
}

impl Debuggable for i8 {
    open spec fn spec_debug(&self) -> Seq<char> {
        int_decimal(*self as int)
    }

    open spec fn spec_pretty(&self) -> Seq<char> {
        int_decimal(*self as int)
    }

    fn debug(&self) -> (s: String) {
        decimal(*self as i128)
    }

    fn pretty(&self) -> (s: String) {
        decimal(*self as i128)
    }
}

impl Displayable for i8 {
    open spec fn spec_display(&self, alternate: bool) -> Seq<char> {
        int_decimal(*self as int)
    }

    fn display(&self, alternate: bool) -> (s: String) {
        decimal(*self as i128)
    }
}

impl EqualTo<i8> for i8 {
    open spec fn spec_equal_to(&self, other: i8) -> bool {
        *self == other
    }

    fn equal_to(&self, other: &i8) -> (r: bool) {
        *self == *other
    }
}

impl OrderedWith<i8> for i8 {
    open spec fn spec_lt(&self, other: i8) -> bool {
        *self < other
    }

    open spec fn spec_le(&self, other: i8) -> bool {
        *self <= other
    }

    open spec fn spec_gt(&self, other: i8) -> bool {
        *self > other
    }

    open spec fn spec_ge(&self, other: i8) -> bool {
        *self >= other
    }

    fn lt_than(&self, other: &i8) -> (r: bool) {
        *self < *other
    }

    fn le_than(&self, other: &i8) -> (r: bool) {
        *self <= *other
    }

    fn gt_than(&self, other: &i8) -> (r: bool) {
        *self > *other
    }

    fn ge_than(&self, other: &i8) -> (r: bool) {
        *self >= *other
    }
}
impl Debuggable for i16 {
    open spec fn spec_debug(&self) -> Seq<char> {
        int_decimal(*self as int)
    }

    open spec fn spec_pretty(&self) -> Seq<char> {
        int_decimal(*self as int)
    }

    fn debug(&self) -> (s: String) {
        decimal(*self as i128)
    }

    fn pretty(&self) -> (s: String) {
        decimal(*self as i128)
    }
}

impl Displayable for i16 {
    open spec fn spec_display(&self, alternate: bool) -> Seq<char> {
        int_decimal(*self as int)
    }

    fn display(&self, alternate: bool) -> (s: String) {
        decimal(*self as i128)
    }
}

impl EqualTo<i16> for i16 {
    open spec fn spec_equal_to(&self, other: i16) -> bool {
        *self == other
    }

    fn equal_to(&self, other: &i16) -> (r: bool) {
        *self == *other
    }
}

impl OrderedWith<i16> for i16 {
    open spec fn spec_lt(&self, other: i16) -> bool {
        *self < other
    }

    open spec fn spec_le(&self, other: i16) -> bool {
        *self <= other
    }

    open spec fn spec_gt(&self, other: i16) -> bool {
        *self > other
    }

    open spec fn spec_ge(&self, other: i16) -> bool {
        *self >= other
    }

    fn lt_than(&self, other: &i16) -> (r: bool) {
        *self < *other
    }

    fn le_than(&self, other: &i16) -> (r: bool) {
        *self <= *other
    }

    fn gt_than(&self, other: &i16) -> (r: bool) {
        *self > *other
    }

    fn ge_than(&self, other: &i16) -> (r: bool) {
        *self >= *other
    }
}
impl Debuggable for i32 {
    open spec fn spec_debug(&self) -> Seq<char> {
        int_decimal(*self as int)
    }

    open spec fn spec_pretty(&self) -> Seq<char> {
        int_decimal(*self as int)
    }

    fn debug(&self) -> (s: String) {
        decimal(*self as i128)
    }

    fn pretty(&self) -> (s: String) {
        decimal(*self as i128)
    }
}

impl Displayable for i32 {
    open spec fn spec_display(&self, alternate: bool) -> Seq<char> {
        int_decimal(*self as int)
    }

    fn display(&self, alternate: bool) -> (s: String) {
        decimal(*self as i128)
    }
}

impl EqualTo<i32> for i32 {
    open spec fn spec_equal_to(&self, other: i32) -> bool {
        *self == other
    }

    fn equal_to(&self, other: &i32) -> (r: bool) {
        *self == *other
    }
}

impl OrderedWith<i32> for i32 {
    open spec fn spec_lt(&self, other: i32) -> bool {
        *self < other
    }

    open spec fn spec_le(&self, other: i32) -> bool {
        *self <= other
    }

    open spec fn spec_gt(&self, other: i32) -> bool {
        *self > other
    }

    open spec fn spec_ge(&self, other: i32) -> bool {
        *self >= other
    }

    fn lt_than(&self, other: &i32) -> (r: bool) {
        *self < *other
    }

    fn le_than(&self, other: &i32) -> (r: bool) {
        *self <= *other
    }

    fn gt_than(&self, other: &i32) -> (r: bool) {
        *self > *other
    }

    fn ge_than(&self, other: &i32) -> (r: bool) {
        *self >= *other
    }
}
impl Debuggable for i64 {
    open spec fn spec_debug(&self) -> Seq<char> {
        int_decimal(*self as int)
    }

    open spec fn spec_pretty(&self) -> Seq<char> {
        int_decimal(*self as int)
    }

    fn debug(&self) -> (s: String) {
        decimal(*self as i128)
    }

    fn pretty(&self) -> (s: String) {
        decimal(*self as i128)
    }
}

impl Displayable for i64 {
    open spec fn spec_display(&self, alternate: bool) -> Seq<char> {
        int_decimal(*self as int)
    }

    fn display(&self, alternate: bool) -> (s: String) {
        decimal(*self as i128)
    }
}

impl EqualTo<i64> for i64 {
    open spec fn spec_equal_to(&self, other: i64) -> bool {
        *self == other
    }

    fn equal_to(&self, other: &i64) -> (r: bool) {
        *self == *other
    }
}

impl OrderedWith<i64> for i64 {
    open spec fn spec_lt(&self, other: i64) -> bool {
        *self < other
    }

    open spec fn spec_le(&self, other: i64) -> bool {
        *self <= other
    }

    open spec fn spec_gt(&self, other: i64) -> bool {
        *self > other
    }

    open spec fn spec_ge(&self, other: i64) -> bool {
        *self >= other
    }

    fn lt_than(&self, other: &i64) -> (r: bool) {
        *self < *other
    }

    fn le_than(&self, other: &i64) -> (r: bool) {
        *self <= *other
    }

    fn gt_than(&self, other: &i64) -> (r: bool) {
        *self > *other
    }

    fn ge_than(&self, other: &i64) -> (r: bool) {
        *self >= *other
    }
}
impl Debuggable for isize {
    open spec fn spec_debug(&self) -> Seq<char> {
        int_decimal(*self as int)
    }

    open spec fn spec_pretty(&self) -> Seq<char> {
        int_decimal(*self as int)
    }

    fn debug(&self) -> (s: String) {
        decimal(*self as i128)
    }

    fn pretty(&self) -> (s: String) {
        decimal(*self as i128)
    }
}

impl Displayable for isize {
    open spec fn spec_display(&self, alternate: bool) -> Seq<char> {
        int_decimal(*self as int)
    }

    fn display(&self, alternate: bool) -> (s: String) {
        decimal(*self as i128)
    }
}

impl EqualTo<isize> for isize {
    open spec fn spec_equal_to(&self, other: isize) -> bool {
        *self == other
    }

    fn equal_to(&self, other: &isize) -> (r: bool) {
        *self == *other
    }
}

impl OrderedWith<isize> for isize {
    open spec fn spec_lt(&self, other: isize) -> bool {
        *self < other
    }

    open spec fn spec_le(&self, other: isize) -> bool {
        *self <= other
    }

    open spec fn spec_gt(&self, other: isize) -> bool {
        *self > other
    }

    open spec fn spec_ge(&self, other: isize) -> bool {
        *self >= other
    }

    fn lt_than(&self, other: &isize) -> (r: bool) {
        *self < *other
    }

    fn le_than(&self, other: &isize) -> (r: bool) {
        *self <= *other
    }

    fn gt_than(&self, other: &isize) -> (r: bool) {
        *self > *other
    }

    fn ge_than(&self, other: &isize) -> (r: bool) {
        *self >= *other
    }
}
impl Debuggable for u8 {
    open spec fn spec_debug(&self) -> Seq<char> {
        int_decimal(*self as int)
    }

    open spec fn spec_pretty(&self) -> Seq<char> {
        int_decimal(*self as int)
    }

    fn debug(&self) -> (s: String) {
        decimal(*self as i128)
    }

    fn pretty(&self) -> (s: String) {
        decimal(*self as i128)
    }
}

impl Displayable for u8 {
    open spec fn spec_display(&self, alternate: bool) -> Seq<char> {
        int_decimal(*self as int)
    }

    fn display(&self, alternate: bool) -> (s: String) {
        decimal(*self as i128)
    }
}

impl EqualTo<u8> for u8 {
    open spec fn spec_equal_to(&self, other: u8) -> bool {
        *self == other
    }

    fn equal_to(&self, other: &u8) -> (r: bool) {
        *self == *other
    }
}

impl OrderedWith<u8> for u8 {
    open spec fn spec_lt(&self, other: u8) -> bool {
        *self < other
    }

    open spec fn spec_le(&self, other: u8) -> bool {
        *self <= other
    }

    open spec fn spec_gt(&self, other: u8) -> bool {
        *self > other
    }

    open spec fn spec_ge(&self, other: u8) -> bool {
        *self >= other
    }

    fn lt_than(&self, other: &u8) -> (r: bool) {
        *self < *other
    }

    fn le_than(&self, other: &u8) -> (r: bool) {
        *self <= *other
    }

    fn gt_than(&self, other: &u8) -> (r: bool) {
        *self > *other
    }

    fn ge_than(&self, other: &u8) -> (r: bool) {
        *self >= *other
    }
}
impl Debuggable for u16 {
    open spec fn spec_debug(&self) -> Seq<char> {
        int_decimal(*self as int)
    }

    open spec fn spec_pretty(&self) -> Seq<char> {
        int_decimal(*self as int)
    }

    fn debug(&self) -> (s: String) {
        decimal(*self as i128)
    }

    fn pretty(&self) -> (s: String) {
        decimal(*self as i128)
    }
}

impl Displayable for u16 {
    open spec fn spec_display(&self, alternate: bool) -> Seq<char> {
        int_decimal(*self as int)
    }

    fn display(&self, alternate: bool) -> (s: String) {
        decimal(*self as i128)
    }
}

impl EqualTo<u16> for u16 {
    open spec fn spec_equal_to(&self, other: u16) -> bool {
        *self == other
    }

    fn equal_to(&self, other: &u16) -> (r: bool) {
        *self == *other
    }
}

impl OrderedWith<u16> for u16 {
    open spec fn spec_lt(&self, other: u16) -> bool {
        *self < other
    }

    open spec fn spec_le(&self, other: u16) -> bool {
        *self <= other
    }

    open spec fn spec_gt(&self, other: u16) -> bool {
        *self > other
    }

    open spec fn spec_ge(&self, other: u16) -> bool {
        *self >= other
    }

    fn lt_than(&self, other: &u16) -> (r: bool) {
        *self < *other
    }

    fn le_than(&self, other: &u16) -> (r: bool) {
        *self <= *other
    }

    fn gt_than(&self, other: &u16) -> (r: bool) {
        *self > *other
    }

    fn ge_than(&self, other: &u16) -> (r: bool) {
        *self >= *other
    }
}
impl Debuggable for u32 {
    open spec fn spec_debug(&self) -> Seq<char> {
        int_decimal(*self as int)
    }

    open spec fn spec_pretty(&self) -> Seq<char> {
        int_decimal(*self as int)
    }

    fn debug(&self) -> (s: String) {
        decimal(*self as i128)
    }

    fn pretty(&self) -> (s: String) {
        decimal(*self as i128)
    }
}

impl Displayable for u32 {
    open spec fn spec_display(&self, alternate: bool) -> Seq<char> {
        int_decimal(*self as int)
    }

    fn display(&self, alternate: bool) -> (s: String) {
        decimal(*self as i128)
    }
}

impl EqualTo<u32> for u32 {
    open spec fn spec_equal_to(&self, other: u32) -> bool {
        *self == other
    }

    fn equal_to(&self, other: &u32) -> (r: bool) {
        *self == *other
    }
}

impl OrderedWith<u32> for u32 {
    open spec fn spec_lt(&self, other: u32) -> bool {
        *self < other
    }

    open spec fn spec_le(&self, other: u32) -> bool {
        *self <= other
    }

    open spec fn spec_gt(&self, other: u32) -> bool {
        *self > other
    }

    open spec fn spec_ge(&self, other: u32) -> bool {
        *self >= other
    }

    fn lt_than(&self, other: &u32) -> (r: bool) {
        *self < *other
    }

    fn le_than(&self, other: &u32) -> (r: bool) {
        *self <= *other
    }

    fn gt_than(&self, other: &u32) -> (r: bool) {
        *self > *other
    }

    fn ge_than(&self, other: &u32) -> (r: bool) {
        *self >= *other
    }
}
impl Debuggable for u64 {
    open spec fn spec_debug(&self) -> Seq<char> {
        int_decimal(*self as int)
    }

    open spec fn spec_pretty(&self) -> Seq<char> {
        int_decimal(*self as int)
    }

    fn debug(&self) -> (s: String) {
        decimal(*self as i128)
    }

    fn pretty(&self) -> (s: String) {
        decimal(*self as i128)
    }
}

impl Displayable for u64 {
    open spec fn spec_display(&self, alternate: bool) -> Seq<char> {
        int_decimal(*self as int)
    }

    fn display(&self, alternate: bool) -> (s: String) {
        decimal(*self as i128)
    }
}

impl EqualTo<u64> for u64 {
    open spec fn spec_equal_to(&self, other: u64) -> bool {
        *self == other
    }

    fn equal_to(&self, other: &u64) -> (r: bool) {
        *self == *other
    }
}

impl OrderedWith<u64> for u64 {
    open spec fn spec_lt(&self, other: u64) -> bool {
        *self < other
    }

    open spec fn spec_le(&self, other: u64) -> bool {
        *self <= other
    }

    open spec fn spec_gt(&self, other: u64) -> bool {
        *self > other
    }

    open spec fn spec_ge(&self, other: u64) -> bool {
        *self >= other
    }

    fn lt_than(&self, other: &u64) -> (r: bool) {
        *self < *other
    }

    fn le_than(&self, other: &u64) -> (r: bool) {
        *self <= *other
    }

    fn gt_than(&self, other: &u64) -> (r: bool) {
        *self > *other
    }

    fn ge_than(&self, other: &u64) -> (r: bool) {
        *self >= *other
    }
}
impl Debuggable for usize {
    open spec fn spec_debug(&self) -> Seq<char> {
        int_decimal(*self as int)
    }

    open spec fn spec_pretty(&self) -> Seq<char> {
        int_decimal(*self as int)
    }

    fn debug(&self) -> (s: String) {
        decimal(*self as i128)
    }

    fn pretty(&self) -> (s: String) {
        decimal(*self as i128)
    }
}

impl Displayable for usize {
    open spec fn spec_display(&self, alternate: bool) -> Seq<char> {
        int_decimal(*self as int)
    }

    fn display(&self, alternate: bool) -> (s: String) {
        decimal(*self as i128)
    }
}

impl EqualTo<usize> for usize {
    open spec fn spec_equal_to(&self, other: usize) -> bool {
        *self == other
    }

    fn equal_to(&self, other: &usize) -> (r: bool) {
        *self == *other
    }
}

impl OrderedWith<usize> for usize {
    open spec fn spec_lt(&self, other: usize) -> bool {
        *self < other
    }

    open spec fn spec_le(&self, other: usize) -> bool {
        *self <= other
    }

    open spec fn spec_gt(&self, other: usize) -> bool {
        *self > other
    }

    open spec fn spec_ge(&self, other: usize) -> bool {
        *self >= other
    }

    fn lt_than(&self, other: &usize) -> (r: bool) {
        *self < *other
    }

    fn le_than(&self, other: &usize) -> (r: bool) {
        *self <= *other
    }

    fn gt_than(&self, other: &usize) -> (r: bool) {
        *self > *other
    }

    fn ge_than(&self, other: &usize) -> (r: bool) {
        *self >= *other
    }
}
impl Debuggable for String {
    open spec fn spec_debug(&self) -> Seq<char> {
        debug_text(self@)
    }

    open spec fn spec_pretty(&self) -> Seq<char> {
        debug_text(self@)
    }

    fn debug(&self) -> (s: String) {
        quoted(self.as_str())
    }

    fn pretty(&self) -> (s: String) {
        quoted(self.as_str())
    }
}

impl Displayable for String {
    open spec fn spec_display(&self, alternate: bool) -> Seq<char> {
        self@
    }

    fn display(&self, alternate: bool) -> (s: String) {
        String::from_str(self.as_str())
    }
}
impl<'a> Debuggable for &'a str {
    open spec fn spec_debug(&self) -> Seq<char> {
        debug_text(self@)
    }

    open spec fn spec_pretty(&self) -> Seq<char> {
        debug_text(self@)
    }

    fn debug(&self) -> (s: String) {
        quoted(self)
    }

    fn pretty(&self) -> (s: String) {
        quoted(self)
    }
}

impl<'a> Displayable for &'a str {
    open spec fn spec_display(&self, alternate: bool) -> Seq<char> {
        self@
    }

    fn display(&self, alternate: bool) -> (s: String) {
        String::from_str(self)
    }
}
impl EqualTo<String> for String {
    open spec fn spec_equal_to(&self, other: String) -> bool {
        self@ == other@
    }

    fn equal_to(&self, other: &String) -> (r: bool) {
        equal_texts(self.as_str(), other.as_str())
    }
}

impl OrderedWith<String> for String {
    open spec fn spec_lt(&self, other: String) -> bool {
        text_lt(self@, other@)
    }

    open spec fn spec_le(&self, other: String) -> bool {
        !text_lt(other@, self@)
    }

    open spec fn spec_gt(&self, other: String) -> bool {
        text_lt(other@, self@)
    }

    open spec fn spec_ge(&self, other: String) -> bool {
        !text_lt(self@, other@)
    }

    fn lt_than(&self, other: &String) -> (r: bool) {
        text_less(self.as_str(), other.as_str())
    }

    fn le_than(&self, other: &String) -> (r: bool) {
        !text_less(other.as_str(), self.as_str())
    }

    fn gt_than(&self, other: &String) -> (r: bool) {
        text_less(other.as_str(), self.as_str())
    }

    fn ge_than(&self, other: &String) -> (r: bool) {
        !text_less(self.as_str(), other.as_str())
    }
}
impl<'b> EqualTo<&'b str> for String {
    open spec fn spec_equal_to(&self, other: &'b str) -> bool {
        self@ == other@
    }

    fn equal_to(&self, other: &&'b str) -> (r: bool) {
        equal_texts(self.as_str(), other)
    }
}

impl<'b> OrderedWith<&'b str> for String {
    open spec fn spec_lt(&self, other: &'b str) -> bool {
        text_lt(self@, other@)
    }

    open spec fn spec_le(&self, other: &'b str) -> bool {
        !text_lt(other@, self@)
    }

    open spec fn spec_gt(&self, other: &'b str) -> bool {
        text_lt(other@, self@)
    }

    open spec fn spec_ge(&self, other: &'b str) -> bool {
        !text_lt(self@, other@)
    }

    fn lt_than(&self, other: &&'b str) -> (r: bool) {
        text_less(self.as_str(), other)
    }

    fn le_than(&self, other: &&'b str) -> (r: bool) {
        !text_less(other, self.as_str())
    }

    fn gt_than(&self, other: &&'b str) -> (r: bool) {
        text_less(other, self.as_str())
    }

    fn ge_than(&self, other: &&'b str) -> (r: bool) {
        !text_less(self.as_str(), other)
    }
}
impl<'a> EqualTo<String> for &'a str {
    open spec fn spec_equal_to(&self, other: String) -> bool {
        self@ == other@
    }

    fn equal_to(&self, other: &String) -> (r: bool) {
        equal_texts(self, other.as_str())
    }
}

impl<'a> OrderedWith<String> for &'a str {
    open spec fn spec_lt(&self, other: String) -> bool {
        text_lt(self@, other@)
    }

    open spec fn spec_le(&self, other: String) -> bool {
        !text_lt(other@, self@)
    }

    open spec fn spec_gt(&self, other: String) -> bool {
        text_lt(other@, self@)
    }

    open spec fn spec_ge(&self, other: String) -> bool {
        !text_lt(self@, other@)
    }

    fn lt_than(&self, other: &String) -> (r: bool) {
        text_less(self, other.as_str())
    }

    fn le_than(&self, other: &String) -> (r: bool) {
        !text_less(other.as_str(), self)
    }

    fn gt_than(&self, other: &String) -> (r: bool) {
        text_less(other.as_str(), self)
    }

    fn ge_than(&self, other: &String) -> (r: bool) {
        !text_less(self, other.as_str())
    }
}
impl<'a, 'b> EqualTo<&'b str> for &'a str {
    open spec fn spec_equal_to(&self, other: &'b str) -> bool {
        self@ == other@
    }

    fn equal_to(&self, other: &&'b str) -> (r: bool) {
        equal_texts(self, other)
    }
}

impl<'a, 'b> OrderedWith<&'b str> for &'a str {
    open spec fn spec_lt(&self, other: &'b str) -> bool {
        text_lt(self@, other@)
    }

    open spec fn spec_le(&self, other: &'b str) -> bool {
        !text_lt(other@, self@)
    }

    open spec fn spec_gt(&self, other: &'b str) -> bool {
        text_lt(other@, self@)
    }

    open spec fn spec_ge(&self, other: &'b str) -> bool {
        !text_lt(self@, other@)
    }

    fn lt_than(&self, other: &&'b str) -> (r: bool) {
        text_less(self, other)
    }

    fn le_than(&self, other: &&'b str) -> (r: bool) {
        !text_less(other, self)
    }

    fn gt_than(&self, other: &&'b str) -> (r: bool) {
        text_less(other, self)
    }

    fn ge_than(&self, other: &&'b str) -> (r: bool) {
        !text_less(self, other)
    }
}
/// Whether the texts `a` and `b` are equal.
pub fn equal_texts(a: &str, b: &str) -> (r: bool)
    ensures
        r == (a@ == b@),
{
    let na = a.unicode_len();
    let nb = b.unicode_len();
    if na != nb {
        return false;
    }
    let mut i: usize = 0;
    while i < na
        invariant
            na == a@.len(),
            nb == b@.len(),
            na == nb,
            i <= na,
            forall|j: int| 0 <= j < i ==> a@[j] == b@[j],
        decreases na - i,
    {
        if a.get_char(i) != b.get_char(i) {
            return false;
        }
        i += 1;
    }
    assert(a@ =~= b@);
    true
}

impl Debuggable for bool {
    open spec fn spec_debug(&self) -> Seq<char> {
        if *self {
            "true"@
        } else {
            "false"@
        }
    }

    open spec fn spec_pretty(&self) -> Seq<char> {
        self.spec_debug()
    }

    fn debug(&self) -> (s: String) {
        if *self {
            String::from_str("true")
        } else {
            String::from_str("false")
        }
    }

    fn pretty(&self) -> (s: String) {
        self.debug()
    }
}

impl Displayable for bool {
    open spec fn spec_display(&self, alternate: bool) -> Seq<char> {
        self.spec_debug()
    }

    fn display(&self, alternate: bool) -> (s: String) {
        self.debug()
    }
}

impl EqualTo<bool> for bool {
    open spec fn spec_equal_to(&self, other: bool) -> bool {
        *self == other
    }

    fn equal_to(&self, other: &bool) -> (r: bool) {
        *self == *other
    }
}

impl Debuggable for MatcherResult {
    open spec fn spec_debug(&self) -> Seq<char> {
        match *self {
            MatcherResult::Match => "Match"@,
            MatcherResult::NoMatch => "NoMatch"@,
        }
    }

    open spec fn spec_pretty(&self) -> Seq<char> {
        self.spec_debug()
    }

    fn debug(&self) -> (s: String) {
        match self {
            MatcherResult::Match => String::from_str("Match"),
            MatcherResult::NoMatch => String::from_str("NoMatch"),
        }
    }

    fn pretty(&self) -> (s: String) {
        self.debug()
    }
}

impl EqualTo<MatcherResult> for MatcherResult {
    open spec fn spec_equal_to(&self, other: MatcherResult) -> bool {
        *self == other
    }

    fn equal_to(&self, other: &MatcherResult) -> (r: bool) {
        *self == *other
    }
}

impl<'a, T: Debuggable> Debuggable for &'a T {
    open spec fn spec_debug(&self) -> Seq<char> {
        (**self).spec_debug()
    }

    open spec fn spec_pretty(&self) -> Seq<char> {
        (**self).spec_pretty()
    }

    fn debug(&self) -> (s: String) {
        (**self).debug()
    }

    fn pretty(&self) -> (s: String) {
        (**self).pretty()
    }
}

impl<'a, T: Displayable> Displayable for &'a T {
    open spec fn spec_display(&self, alternate: bool) -> Seq<char> {
        (**self).spec_display(alternate)
    }

    fn display(&self, alternate: bool) -> (s: String) {
        (**self).display(alternate)
    }
}

/// The compact renderings of the items `s`.
pub open spec fn debug_items<T: Debuggable>(s: Seq<T>) -> Seq<Seq<char>> {
    s.map_values(|t: T| t.spec_debug())
}

/// The pretty renderings of the items `s`.
pub open spec fn pretty_items<T: Debuggable>(s: Seq<T>) -> Seq<Seq<char>> {
    s.map_values(|t: T| t.spec_pretty())
}

/// Renders each item of `items`, compactly or, with `pretty`, prettily.
pub fn render_items<T: Debuggable>(items: &[T], pretty: bool) -> (r: Vec<String>)
    ensures
        views(r@) == if pretty {
            pretty_items(items@)
        } else {
            debug_items(items@)
        },
{
    let mut r: Vec<String> = Vec::new();
    let mut i: usize = 0;
    while i < items.len()
        invariant
            i <= items@.len(),
            r@.len() == i,
            forall|j: int|
                0 <= j < i ==> #[trigger] r@[j]@ == if pretty {
                    items@[j].spec_pretty()
                } else {
                    items@[j].spec_debug()
                },
        decreases items@.len() - i,
    {
        let s = if pretty {
            items[i].pretty()
        } else {
            items[i].debug()
        };
        r.push(s);
        i += 1;
    }
    if pretty {
        assert(views(r@) =~= pretty_items(items@));
    } else {
        assert(views(r@) =~= debug_items(items@));
    }
    r
}

impl<T: Debuggable> Debuggable for Vec<T> {
    open spec fn spec_debug(&self) -> Seq<char> {
        debug_list("["@, debug_items(self@), "]"@)
    }

    open spec fn spec_pretty(&self) -> Seq<char> {
        pretty_list("["@, pretty_items(self@), "]"@)
    }

    fn debug(&self) -> (s: String) {
        let items = render_items(self.as_slice(), false);
        render_debug_list("[", &items, "]")
    }

    fn pretty(&self) -> (s: String) {
        let items = render_items(self.as_slice(), true);
        render_pretty_list("[", &items, "]")
    }
}

impl<T: Debuggable, const N: usize> Debuggable for [T; N] {
    open spec fn spec_debug(&self) -> Seq<char> {
        debug_list("["@, debug_items(self@), "]"@)
    }

    open spec fn spec_pretty(&self) -> Seq<char> {
        pretty_list("["@, pretty_items(self@), "]"@)
    }

    fn debug(&self) -> (s: String) {
        let items = render_items(self.as_slice(), false);
        render_debug_list("[", &items, "]")
    }

    fn pretty(&self) -> (s: String) {
        let items = render_items(self.as_slice(), true);
        render_pretty_list("[", &items, "]")
    }
}

impl<'a, T: Debuggable> Debuggable for &'a [T] {
    open spec fn spec_debug(&self) -> Seq<char> {
        debug_list("["@, debug_items(self@), "]"@)
    }

    open spec fn spec_pretty(&self) -> Seq<char> {
        pretty_list("["@, pretty_items(self@), "]"@)
    }

    fn debug(&self) -> (s: String) {
        let items = render_items(*self, false);
        render_debug_list("[", &items, "]")
    }

    fn pretty(&self) -> (s: String) {
        let items = render_items(*self, true);
        render_pretty_list("[", &items, "]")
    }
}

impl<T: Debuggable> Debuggable for Option<T> {
    open spec fn spec_debug(&self) -> Seq<char> {
        match *self {
            Some(v) => debug_list("Some("@, seq![v.spec_debug()], ")"@),
            None => "None"@,
        }
    }

    open spec fn spec_pretty(&self) -> Seq<char> {
        match *self {
            Some(v) => pretty_list("Some("@, seq![v.spec_pretty()], ")"@),
            None => "None"@,
        }
    }

    fn debug(&self) -> (s: String) {
        match self {
            Some(v) => {
                let items = vec![v.debug()];
                assert(views(items@) =~= seq![v.spec_debug()]);
                render_debug_list("Some(", &items, ")")
            },
            None => String::from_str("None"),
        }
    }

    fn pretty(&self) -> (s: String) {
        match self {
            Some(v) => {
                let items = vec![v.pretty()];
                assert(views(items@) =~= seq![v.spec_pretty()]);
                render_pretty_list("Some(", &items, ")")
            },
            None => String::from_str("None"),
        }
    }
}

impl<A: Debuggable> Debuggable for (A,) {
    open spec fn spec_debug(&self) -> Seq<char> {
        "("@ + self.0.spec_debug() + ",)"@
    }

    open spec fn spec_pretty(&self) -> Seq<char> {
        "(\n"@ + indent(self.0.spec_pretty(), "    "@) + ",\n)"@
    }

    fn debug(&self) -> (s: String) {
        let mut s = String::from_str("(");
        let a = self.0.debug();
        s.append(a.as_str());
        s.append(",)");
        s
    }

    fn pretty(&self) -> (s: String) {
        let mut s = String::from_str("(\n");
        let a = self.0.pretty();
        let block = indent_text(a.as_str(), "    ");
        s.append(block.as_str());
        s.append(",\n)");
        s
    }
}

impl<A: Debuggable, B: Debuggable> Debuggable for (A, B) {
    open spec fn spec_debug(&self) -> Seq<char> {
        debug_list("("@, seq![self.0.spec_debug(), self.1.spec_debug()], ")"@)
    }

    open spec fn spec_pretty(&self) -> Seq<char> {
        pretty_list("("@, seq![self.0.spec_pretty(), self.1.spec_pretty()], ")"@)
    }

    fn debug(&self) -> (s: String) {
        let items = vec![self.0.debug(), self.1.debug()];
        assert(views(items@) =~= seq![self.0.spec_debug(), self.1.spec_debug()]);
        render_debug_list("(", &items, ")")
    }

    fn pretty(&self) -> (s: String) {
        let items = vec![self.0.pretty(), self.1.pretty()];
        assert(views(items@) =~= seq![self.0.spec_pretty(), self.1.spec_pretty()]);
        render_pretty_list("(", &items, ")")
    }
}

impl Debuggable for () {
    open spec fn spec_debug(&self) -> Seq<char> {
        "()"@
    }

    open spec fn spec_pretty(&self) -> Seq<char> {
        "()"@
    }

    fn debug(&self) -> (s: String) {
        String::from_str("()")
    }

    fn pretty(&self) -> (s: String) {
        String::from_str("()")
    }
}

impl<T: Debuggable, E: Debuggable> Debuggable for Result<T, E> {
    open spec fn spec_debug(&self) -> Seq<char> {
        match *self {
            Ok(v) => debug_list("Ok("@, seq![v.spec_debug()], ")"@),
            Err(e) => debug_list("Err("@, seq![e.spec_debug()], ")"@),
        }
    }

    open spec fn spec_pretty(&self) -> Seq<char> {
        match *self {
            Ok(v) => pretty_list("Ok("@, seq![v.spec_pretty()], ")"@),
            Err(e) => pretty_list("Err("@, seq![e.spec_pretty()], ")"@),
        }
    }

    fn debug(&self) -> (s: String) {
        match self {
            Ok(v) => {
                let items = vec![v.debug()];
                assert(views(items@) =~= seq![v.spec_debug()]);
                render_debug_list("Ok(", &items, ")")
            },
            Err(e) => {
                let items = vec![e.debug()];
                assert(views(items@) =~= seq![e.spec_debug()]);
                render_debug_list("Err(", &items, ")")
            },
        }
    }

    fn pretty(&self) -> (s: String) {
        match self {
            Ok(v) => {
                let items = vec![v.pretty()];
                assert(views(items@) =~= seq![v.spec_pretty()]);
                render_pretty_list("Ok(", &items, ")")
            },
            Err(e) => {
                let items = vec![e.pretty()];
                assert(views(items@) =~= seq![e.spec_pretty()]);
                render_pretty_list("Err(", &items, ")")
            },
        }
    }
}

impl<T: EqualTo<U>, U> EqualTo<Option<U>> for Option<T> {
    open spec fn spec_equal_to(&self, other: Option<U>) -> bool {
        match (*self, other) {
            (Some(a), Some(b)) => a.spec_equal_to(b),
            (None, None) => true,
            _ => false,
        }
    }

    fn equal_to(&self, other: &Option<U>) -> (r: bool) {
        match (self, other) {
            (Some(a), Some(b)) => a.equal_to(b),
            (None, None) => true,
            _ => false,
        }
    }
}

impl<A: EqualTo<C>, B: EqualTo<D>, C, D> EqualTo<(C, D)> for (A, B) {
    open spec fn spec_equal_to(&self, other: (C, D)) -> bool {
        self.0.spec_equal_to(other.0) && self.1.spec_equal_to(other.1)
    }

    fn equal_to(&self, other: &(C, D)) -> (r: bool) {
        self.0.equal_to(&other.0) && self.1.equal_to(&other.1)
    }
}

/// Every rendering of an `i8` (`{}`, `{:#}`, `{:?}`, `{:#?}`) is its signed
/// decimal numeral: it reads back as the number, starts with `-` exactly
/// when the number is negative, and distinct numbers render differently.
pub proof fn lemma_i8_renders_as_its_value(x: i8, y: i8, alternate: bool)
    ensures
        signed_value(x.spec_display(alternate)) == x as int,
        x.spec_display(alternate).len() > 0,
        (x.spec_display(alternate)[0] == '-') == (x < 0),
        (x.spec_display(alternate) == y.spec_display(alternate)) == (x == y),
        signed_value(x.spec_debug()) == x as int,
        (x.spec_debug() == y.spec_debug()) == (x == y),
        signed_value(x.spec_pretty()) == x as int,
{
    lemma_int_decimal_reads_back(x as int);
    lemma_int_decimal_injective(x as int, y as int);
}

/// `i8` values compare as the numbers they are: equality is identity and
/// the orderings are those of the integers.
pub proof fn lemma_i8_compares_as_numbers(x: i8, y: i8)
    ensures
        x.spec_equal_to(y) == (x == y),
        x.spec_lt(y) == ((x as int) < (y as int)),
        x.spec_le(y) == ((x as int) <= (y as int)),
        x.spec_gt(y) == ((x as int) > (y as int)),
        x.spec_ge(y) == ((x as int) >= (y as int)),
{
}

/// Every rendering of an `i16` (`{}`, `{:#}`, `{:?}`, `{:#?}`) is its signed
/// decimal numeral: it reads back as the number, starts with `-` exactly
/// when the number is negative, and distinct numbers render differently.
pub proof fn lemma_i16_renders_as_its_value(x: i16, y: i16, alternate: bool)
    ensures
        signed_value(x.spec_display(alternate)) == x as int,
        x.spec_display(alternate).len() > 0,
        (x.spec_display(alternate)[0] == '-') == (x < 0),
        (x.spec_display(alternate) == y.spec_display(alternate)) == (x == y),
        signed_value(x.spec_debug()) == x as int,
        (x.spec_debug() == y.spec_debug()) == (x == y),
        signed_value(x.spec_pretty()) == x as int,
{
    lemma_int_decimal_reads_back(x as int);
    lemma_int_decimal_injective(x as int, y as int);
}

/// `i16` values compare as the numbers they are: equality is identity and
/// the orderings are those of the integers.
pub proof fn lemma_i16_compares_as_numbers(x: i16, y: i16)
    ensures
        x.spec_equal_to(y) == (x == y),
        x.spec_lt(y) == ((x as int) < (y as int)),
        x.spec_le(y) == ((x as int) <= (y as int)),
        x.spec_gt(y) == ((x as int) > (y as int)),
        x.spec_ge(y) == ((x as int) >= (y as int)),
{
}

/// Every rendering of an `i32` (`{}`, `{:#}`, `{:?}`, `{:#?}`) is its signed
/// decimal numeral: it reads back as the number, starts with `-` exactly
/// when the number is negative, and distinct numbers render differently.
pub proof fn lemma_i32_renders_as_its_value(x: i32, y: i32, alternate: bool)
    ensures
        signed_value(x.spec_display(alternate)) == x as int,
        x.spec_display(alternate).len() > 0,
        (x.spec_display(alternate)[0] == '-') == (x < 0),
        (x.spec_display(alternate) == y.spec_display(alternate)) == (x == y),
        signed_value(x.spec_debug()) == x as int,
        (x.spec_debug() == y.spec_debug()) == (x == y),
        signed_value(x.spec_pretty()) == x as int,
{
    lemma_int_decimal_reads_back(x as int);
    lemma_int_decimal_injective(x as int, y as int);
}

/// `i32` values compare as the numbers they are: equality is identity and
/// the orderings are those of the integers.
pub proof fn lemma_i32_compares_as_numbers(x: i32, y: i32)
    ensures
        x.spec_equal_to(y) == (x == y),
        x.spec_lt(y) == ((x as int) < (y as int)),
        x.spec_le(y) == ((x as int) <= (y as int)),
        x.spec_gt(y) == ((x as int) > (y as int)),
        x.spec_ge(y) == ((x as int) >= (y as int)),
{
}

/// Every rendering of an `i64` (`{}`, `{:#}`, `{:?}`, `{:#?}`) is its signed
/// decimal numeral: it reads back as the number, starts with `-` exactly
/// when the number is negative, and distinct numbers render differently.
pub proof fn lemma_i64_renders_as_its_value(x: i64, y: i64, alternate: bool)
    ensures
        signed_value(x.spec_display(alternate)) == x as int,
        x.spec_display(alternate).len() > 0,
        (x.spec_display(alternate)[0] == '-') == (x < 0),
        (x.spec_display(alternate) == y.spec_display(alternate)) == (x == y),
        signed_value(x.spec_debug()) == x as int,
        (x.spec_debug() == y.spec_debug()) == (x == y),
        signed_value(x.spec_pretty()) == x as int,
{
    lemma_int_decimal_reads_back(x as int);
    lemma_int_decimal_injective(x as int, y as int);
}

/// `i64` values compare as the numbers they are: equality is identity and
/// the orderings are those of the integers.
pub proof fn lemma_i64_compares_as_numbers(x: i64, y: i64)
    ensures
        x.spec_equal_to(y) == (x == y),
        x.spec_lt(y) == ((x as int) < (y as int)),
        x.spec_le(y) == ((x as int) <= (y as int)),
        x.spec_gt(y) == ((x as int) > (y as int)),
        x.spec_ge(y) == ((x as int) >= (y as int)),
{
}

/// Every rendering of an `isize` (`{}`, `{:#}`, `{:?}`, `{:#?}`) is its signed
/// decimal numeral: it reads back as the number, starts with `-` exactly
/// when the number is negative, and distinct numbers render differently.
pub proof fn lemma_isize_renders_as_its_value(x: isize, y: isize, alternate: bool)
    ensures
        signed_value(x.spec_display(alternate)) == x as int,
        x.spec_display(alternate).len() > 0,
        (x.spec_display(alternate)[0] == '-') == (x < 0),
        (x.spec_display(alternate) == y.spec_display(alternate)) == (x == y),
        signed_value(x.spec_debug()) == x as int,
        (x.spec_debug() == y.spec_debug()) == (x == y),
        signed_value(x.spec_pretty()) == x as int,
{
    lemma_int_decimal_reads_back(x as int);
    lemma_int_decimal_injective(x as int, y as int);
}

/// `isize` values compare as the numbers they are: equality is identity and
/// the orderings are those of the integers.
pub proof fn lemma_isize_compares_as_numbers(x: isize, y: isize)
    ensures
        x.spec_equal_to(y) == (x == y),
        x.spec_lt(y) == ((x as int) < (y as int)),
        x.spec_le(y) == ((x as int) <= (y as int)),
        x.spec_gt(y) == ((x as int) > (y as int)),
        x.spec_ge(y) == ((x as int) >= (y as int)),
{
}

/// Every rendering of an `u8` (`{}`, `{:#}`, `{:?}`, `{:#?}`) is its signed
/// decimal numeral: it reads back as the number, starts with `-` exactly
/// when the number is negative, and distinct numbers render differently.
pub proof fn lemma_u8_renders_as_its_value(x: u8, y: u8, alternate: bool)
    ensures
        signed_value(x.spec_display(alternate)) == x as int,
        x.spec_display(alternate).len() > 0,
        (x.spec_display(alternate)[0] == '-') == (x < 0),
        (x.spec_display(alternate) == y.spec_display(alternate)) == (x == y),
        signed_value(x.spec_debug()) == x as int,
        (x.spec_debug() == y.spec_debug()) == (x == y),
        signed_value(x.spec_pretty()) == x as int,
{
    lemma_int_decimal_reads_back(x as int);
    lemma_int_decimal_injective(x as int, y as int);
}

/// `u8` values compare as the numbers they are: equality is identity and
/// the orderings are those of the integers.
pub proof fn lemma_u8_compares_as_numbers(x: u8, y: u8)
    ensures
        x.spec_equal_to(y) == (x == y),
        x.spec_lt(y) == ((x as int) < (y as int)),
        x.spec_le(y) == ((x as int) <= (y as int)),
        x.spec_gt(y) == ((x as int) > (y as int)),
        x.spec_ge(y) == ((x as int) >= (y as int)),
{
}

/// Every rendering of an `u16` (`{}`, `{:#}`, `{:?}`, `{:#?}`) is its signed
/// decimal numeral: it reads back as the number, starts with `-` exactly
/// when the number is negative, and distinct numbers render differently.
pub proof fn lemma_u16_renders_as_its_value(x: u16, y: u16, alternate: bool)
    ensures
        signed_value(x.spec_display(alternate)) == x as int,
        x.spec_display(alternate).len() > 0,
        (x.spec_display(alternate)[0] == '-') == (x < 0),
        (x.spec_display(alternate) == y.spec_display(alternate)) == (x == y),
        signed_value(x.spec_debug()) == x as int,
        (x.spec_debug() == y.spec_debug()) == (x == y),
        signed_value(x.spec_pretty()) == x as int,
{
    lemma_int_decimal_reads_back(x as int);
    lemma_int_decimal_injective(x as int, y as int);
}

/// `u16` values compare as the numbers they are: equality is identity and
/// the orderings are those of the integers.
pub proof fn lemma_u16_compares_as_numbers(x: u16, y: u16)
    ensures
        x.spec_equal_to(y) == (x == y),
        x.spec_lt(y) == ((x as int) < (y as int)),
        x.spec_le(y) == ((x as int) <= (y as int)),
        x.spec_gt(y) == ((x as int) > (y as int)),
        x.spec_ge(y) == ((x as int) >= (y as int)),
{
}

/// Every rendering of an `u32` (`{}`, `{:#}`, `{:?}`, `{:#?}`) is its signed
/// decimal numeral: it reads back as the number, starts with `-` exactly
/// when the number is negative, and distinct numbers render differently.
pub proof fn lemma_u32_renders_as_its_value(x: u32, y: u32, alternate: bool)
    ensures
        signed_value(x.spec_display(alternate)) == x as int,
        x.spec_display(alternate).len() > 0,
        (x.spec_display(alternate)[0] == '-') == (x < 0),
        (x.spec_display(alternate) == y.spec_display(alternate)) == (x == y),
        signed_value(x.spec_debug()) == x as int,
        (x.spec_debug() == y.spec_debug()) == (x == y),
        signed_value(x.spec_pretty()) == x as int,
{
    lemma_int_decimal_reads_back(x as int);
    lemma_int_decimal_injective(x as int, y as int);
}

/// `u32` values compare as the numbers they are: equality is identity and
/// the orderings are those of the integers.
pub proof fn lemma_u32_compares_as_numbers(x: u32, y: u32)
    ensures
        x.spec_equal_to(y) == (x == y),
        x.spec_lt(y) == ((x as int) < (y as int)),
        x.spec_le(y) == ((x as int) <= (y as int)),
        x.spec_gt(y) == ((x as int) > (y as int)),
        x.spec_ge(y) == ((x as int) >= (y as int)),
{
}

/// Every rendering of an `u64` (`{}`, `{:#}`, `{:?}`, `{:#?}`) is its signed
/// decimal numeral: it reads back as the number, starts with `-` exactly
/// when the number is negative, and distinct numbers render differently.
pub proof fn lemma_u64_renders_as_its_value(x: u64, y: u64, alternate: bool)
    ensures
        signed_value(x.spec_display(alternate)) == x as int,
        x.spec_display(alternate).len() > 0,
        (x.spec_display(alternate)[0] == '-') == (x < 0),
        (x.spec_display(alternate) == y.spec_display(alternate)) == (x == y),
        signed_value(x.spec_debug()) == x as int,
        (x.spec_debug() == y.spec_debug()) == (x == y),
        signed_value(x.spec_pretty()) == x as int,
{
    lemma_int_decimal_reads_back(x as int);
    lemma_int_decimal_injective(x as int, y as int);
}

/// `u64` values compare as the numbers they are: equality is identity and
/// the orderings are those of the integers.
pub proof fn lemma_u64_compares_as_numbers(x: u64, y: u64)
    ensures
        x.spec_equal_to(y) == (x == y),
        x.spec_lt(y) == ((x as int) < (y as int)),
        x.spec_le(y) == ((x as int) <= (y as int)),
        x.spec_gt(y) == ((x as int) > (y as int)),
        x.spec_ge(y) == ((x as int) >= (y as int)),
{
}

/// Every rendering of an `usize` (`{}`, `{:#}`, `{:?}`, `{:#?}`) is its signed
/// decimal numeral: it reads back as the number, starts with `-` exactly
/// when the number is negative, and distinct numbers render differently.
pub proof fn lemma_usize_renders_as_its_value(x: usize, y: usize, alternate: bool)
    ensures
        signed_value(x.spec_display(alternate)) == x as int,
        x.spec_display(alternate).len() > 0,
        (x.spec_display(alternate)[0] == '-') == (x < 0),
        (x.spec_display(alternate) == y.spec_display(alternate)) == (x == y),
        signed_value(x.spec_debug()) == x as int,
        (x.spec_debug() == y.spec_debug()) == (x == y),
        signed_value(x.spec_pretty()) == x as int,
{
    lemma_int_decimal_reads_back(x as int);
    lemma_int_decimal_injective(x as int, y as int);
}

/// `usize` values compare as the numbers they are: equality is identity and
/// the orderings are those of the integers.
pub proof fn lemma_usize_compares_as_numbers(x: usize, y: usize)
    ensures
        x.spec_equal_to(y) == (x == y),
        x.spec_lt(y) == ((x as int) < (y as int)),
        x.spec_le(y) == ((x as int) <= (y as int)),
        x.spec_gt(y) == ((x as int) > (y as int)),
        x.spec_ge(y) == ((x as int) >= (y as int)),
{
}

/// Pairs are equal exactly when both their components are.
pub proof fn lemma_pair_equal_componentwise<A: EqualTo<C>, B: EqualTo<D>, C, D>(
    p: (A, B),
    q: (C, D),
)
    ensures
        p.spec_equal_to(q) == (p.0.spec_equal_to(q.0) && p.1.spec_equal_to(q.1)),
{
}

/// Where equality on each component is identity, so is equality of pairs.
pub proof fn lemma_pair_equal_is_identity<A: EqualTo<A>, B: EqualTo<B>>(p: (A, B), q: (A, B))
    requires
        forall|x: A, y: A| #[trigger] x.spec_equal_to(y) == (x == y),
        forall|x: B, y: B| #[trigger] x.spec_equal_to(y) == (x == y),
    ensures
        p.spec_equal_to(q) == (p == q),
{
    assert(p.0.spec_equal_to(q.0) == (p.0 == q.0));
    assert(p.1.spec_equal_to(q.1) == (p.1 == q.1));
}

/// Where equality on the contents is identity, so is equality of options:
/// two options are equal when both are absent or both hold equal values.
pub proof fn lemma_option_equal_is_identity<T: EqualTo<T>>(p: Option<T>, q: Option<T>)
    requires
        forall|x: T, y: T| #[trigger] x.spec_equal_to(y) == (x == y),
    ensures
        p.spec_equal_to(q) == (p == q),
{
    match (p, q) {
        (Some(x), Some(y)) => {
            assert(x.spec_equal_to(y) == (x == y));
        },
        _ => {},
    }
}

/// Between strings, `a <= b` holds exactly when the texts are equal or `a`
/// comes first, and `a < b` exactly when `a <= b` and they differ.
pub proof fn lemma_string_le_is_lt_or_equal(a: String, b: String)
    ensures
        a.spec_le(b) == (a@ == b@ || text_lt(a@, b@)),
        a.spec_lt(b) == (a.spec_le(b) && a@ != b@),
        a.spec_ge(b) == b.spec_le(a),
        a.spec_gt(b) == b.spec_lt(a),
{
    lemma_text_lt_trichotomy(a@, b@);
}

/// Pairs of `i32` are equal exactly when they are the same pair.
pub proof fn lemma_i32_pair_equal_is_identity(p: (i32, i32), q: (i32, i32))
    ensures
        p.spec_equal_to(q) == (p == q),
{
}

/// A value which is text: a `String` or a string slice.
pub trait Text {
    /// The characters of the text.
    spec fn spec_text(&self) -> Seq<char>;

    /// The text as a string slice.
    fn as_text(&self) -> (r: &str)
        ensures
            r@ == self.spec_text(),
    ;
}

impl Text for String {
    open spec fn spec_text(&self) -> Seq<char> {
        self@
    }

    fn as_text(&self) -> (r: &str) {
        self.as_str()
    }
}

impl<'a> Text for &'a str {
    open spec fn spec_text(&self) -> Seq<char> {
        self@
    }

    fn as_text(&self) -> (r: &str) {
        *self
    }
}

} // verus!
