//! Text rendering: decimal numbers, quoted strings, and the layout of
//! multi-line descriptions (indentation, bullet lists, numbered lists).

use vstd::prelude::*;

verus! {

/// The decimal digit character for `d < 10`.
pub open spec fn digit_char(d: nat) -> char {
    seq!['0', '1', '2', '3', '4', '5', '6', '7', '8', '9'][d as int]
}

/// The decimal rendering of the natural number `n`, without leading zeros.
pub open spec fn nat_decimal(n: nat) -> Seq<char>
    decreases n,
{
    if n < 10 {
        seq![digit_char(n)]
    } else {
        nat_decimal(n / 10).push(digit_char(n % 10))
    }
}

/// The decimal rendering of the integer `i`, with a leading `-` when negative.
pub open spec fn int_decimal(i: int) -> Seq<char> {
    if i < 0 {
        seq!['-'] + nat_decimal((-i) as nat)
    } else {
        nat_decimal(i as nat)
    }
}

/// The value of the decimal digit character `c`: its distance from `'0'`.
pub open spec fn digit_value(c: char) -> int {
    (c as u32) as int - ('0' as u32) as int
}

/// The number which the decimal digits `s` spell, read from left to right.
pub open spec fn digits_value(s: Seq<char>) -> int
    decreases s.len(),
{
    if s.len() == 0 {
        0
    } else {
        digits_value(s.drop_last()) * 10 + digit_value(s.last())
    }
}

/// The integer which the text `s` spells: a decimal numeral, negated when
/// it starts with `-`.
pub open spec fn signed_value(s: Seq<char>) -> int {
    if s.len() > 0 && s[0] == '-' {
        -digits_value(s.drop_first())
    } else {
        digits_value(s)
    }
}

/// Each digit character has the value it names.
pub proof fn lemma_digit_value(d: nat)
    requires
        d < 10,
    ensures
        digit_value(digit_char(d)) == d,
        digit_char(d) != '-',
{
    let digits = seq!['0', '1', '2', '3', '4', '5', '6', '7', '8', '9'];
    assert(digit_char(d) == digits[d as int]);
    if d == 0 {
        assert(digits[0] == '0');
    } else if d == 1 {
        assert(digits[1] == '1');
    } else if d == 2 {
        assert(digits[2] == '2');
    } else if d == 3 {
        assert(digits[3] == '3');
    } else if d == 4 {
        assert(digits[4] == '4');
    } else if d == 5 {
        assert(digits[5] == '5');
    } else if d == 6 {
        assert(digits[6] == '6');
    } else if d == 7 {
        assert(digits[7] == '7');
    } else if d == 8 {
        assert(digits[8] == '8');
    } else {
        assert(digits[9] == '9');
    }
}

/// Reading the decimal rendering of `n` back gives `n`; the rendering is
/// never empty and does not start with `-`.
pub proof fn lemma_nat_decimal_reads_back(n: nat)
    ensures
        digits_value(nat_decimal(n)) == n,
        nat_decimal(n).len() > 0,
        nat_decimal(n)[0] != '-',
    decreases n,
{
    if n < 10 {
        lemma_digit_value(n);
        let s = seq![digit_char(n)];
        assert(s.drop_last() =~= seq![]);
        assert(digits_value(s.drop_last()) == 0);
        assert(s.last() == digit_char(n));
    } else {
        lemma_nat_decimal_reads_back(n / 10);
        lemma_digit_value(n % 10);
        let s = nat_decimal(n / 10).push(digit_char(n % 10));
        assert(s.drop_last() =~= nat_decimal(n / 10));
        assert(s.last() == digit_char(n % 10));
        assert(s[0] == nat_decimal(n / 10)[0]);
        assert(digits_value(s) == (n / 10) as int * 10 + (n % 10) as int);
        assert((n / 10) as int * 10 + (n % 10) as int == n) by (nonlinear_arith);
    }
}

/// The signed decimal rendering of `i` reads back as `i`, and starts with
/// `-` exactly when `i` is negative.
pub proof fn lemma_int_decimal_reads_back(i: int)
    ensures
        signed_value(int_decimal(i)) == i,
        int_decimal(i).len() > 0,
        (int_decimal(i)[0] == '-') == (i < 0),
{
    if i < 0 {
        lemma_nat_decimal_reads_back((-i) as nat);
        let s = seq!['-'] + nat_decimal((-i) as nat);
        assert(s.drop_first() =~= nat_decimal((-i) as nat));
        assert(s[0] == '-');
    } else {
        lemma_nat_decimal_reads_back(i as nat);
    }
}

/// Distinct integers have distinct decimal renderings.
pub proof fn lemma_int_decimal_injective(i: int, j: int)
    ensures
        (int_decimal(i) == int_decimal(j)) == (i == j),
{
    lemma_int_decimal_reads_back(i);
    lemma_int_decimal_reads_back(j);
}

/// What formatting a string slice with `{:?}` produces for the text `text`:
/// the text in double quotes, with special characters escaped.
pub uninterp spec fn debug_text(text: Seq<char>) -> Seq<char>;

/// The decimal digit character for `d`.
fn digit(d: u128) -> (c: char)
    requires
        d < 10,
    ensures
        c == digit_char(d as nat),
{
    match d {
        0 => '0',
        1 => '1',
        2 => '2',
        3 => '3',
        4 => '4',
        5 => '5',
        6 => '6',
        7 => '7',
        8 => '8',
        _ => '9',
    }
}

/// Appends the decimal rendering of `n` to `s`.
fn append_decimal(n: u128, s: &mut String)
    ensures
        final(s)@ == old(s)@ + nat_decimal(n as nat),
    decreases n,
{
    if n >= 10 {
        append_decimal(n / 10, s);
    }
    push_char(s, digit(n % 10));
    proof {
        if n < 10 {
            assert(n % 10 == n);
        }
    }
}

/// Renders `x` in decimal: its digits without leading zeros, after a `-`
/// when it is negative.
pub fn decimal(x: i128) -> (s: String)
    ensures
        s@ == int_decimal(x as int),
{
    let mut s = String::new();
    if x < 0 {
        push_char(&mut s, '-');
        let magnitude: u128 = ((-(x + 1)) as u128) + 1;
        append_decimal(magnitude, &mut s);
    } else {
        append_decimal(x as u128, &mut s);
    }
    s
}

/// Renders `text` as `{:?}` on a string slice does: quoted and escaped.
///
/// Calls `format!("{:?}", text)`. The result is named `debug_text` of the
/// characters of `text`; the escaping rules of std are not restated.
#[verifier::external_body]
pub fn quoted(text: &str) -> (s: String)
    ensures
        s@ == debug_text(text@),
{
    format!("{:?}", text)
}

/// Appends the character `c` to `s`.
///
/// Calls `String::push`, which appends one character at the end.
#[verifier::external_body]
pub fn push_char(s: &mut String, c: char)
    ensures
        final(s)@ == old(s)@.push(c),
{
    s.push(c)
}

/// `n` space characters.
pub open spec fn spaces(n: nat) -> Seq<char> {
    Seq::new(n, |_i: int| ' ')
}

/// `text` with `pad` inserted after every line break.
pub open spec fn continue_lines(text: Seq<char>, pad: Seq<char>) -> Seq<char>
    decreases text.len(),
{
    if text.len() == 0 {
        seq![]
    } else if text.last() == '\n' {
        continue_lines(text.drop_last(), pad) + seq!['\n'] + pad
    } else {
        continue_lines(text.drop_last(), pad).push(text.last())
    }
}

/// `text` with every line, the first included, prefixed by `pad`.
pub open spec fn indent(text: Seq<char>, pad: Seq<char>) -> Seq<char> {
    pad + continue_lines(text, pad)
}

/// The item `text` of a bullet list: `"* "` in front of the first line and
/// two spaces in front of every following line.
pub open spec fn bullet(text: Seq<char>) -> Seq<char> {
    "* "@ + continue_lines(text, spaces(2))
}

/// The item `text` at position `i` of a numbered list: `"i. "` in front of
/// the first line, and as many spaces in front of every following line.
pub open spec fn numbered(i: nat, text: Seq<char>) -> Seq<char> {
    let label = nat_decimal(i) + ". "@;
    label + continue_lines(text, spaces(label.len()))
}

/// The texts `items` joined by `sep`.
pub open spec fn join(items: Seq<Seq<char>>, sep: Seq<char>) -> Seq<char>
    decreases items.len(),
{
    if items.len() == 0 {
        seq![]
    } else if items.len() == 1 {
        items[0]
    } else {
        join(items.drop_last(), sep) + sep + items.last()
    }
}

/// The bullet list of `items`, one per line.
pub open spec fn bullet_list(items: Seq<Seq<char>>) -> Seq<char> {
    join(items.map_values(|t: Seq<char>| bullet(t)), "\n"@)
}

/// The numbered list of `items`, one per line, counting from 0.
pub open spec fn numbered_list(items: Seq<Seq<char>>) -> Seq<char> {
    join(items.map(|i: int, t: Seq<char>| numbered(i as nat, t)), "\n"@)
}

/// Renders the natural number `n` in decimal.
pub fn decimal_usize(n: usize) -> (s: String)
    ensures
        s@ == nat_decimal(n as nat),
{
    decimal(n as i128)
}

/// `n` spaces.
pub fn make_spaces(n: usize) -> (s: String)
    ensures
        s@ == spaces(n as nat),
{
    let mut s = String::new();
    let mut i: usize = 0;
    while i < n
        invariant
            i <= n,
            s@ == spaces(i as nat),
        decreases n - i,
    {
        push_char(&mut s, ' ');
        i += 1;
        assert(s@ =~= spaces(i as nat));
    }
    s
}

/// Renders [`continue_lines`] of `text` and `pad`.
pub fn continue_lines_of(text: &str, pad: &str) -> (s: String)
    ensures
        s@ == continue_lines(text@, pad@),
{
    let n = text.unicode_len();
    let mut s = String::new();
    let mut i: usize = 0;
    assert(text@.take(0) =~= seq![]);
    while i < n
        invariant
            i <= n,
            n == text@.len(),
            s@ == continue_lines(text@.take(i as int), pad@),
        decreases n - i,
    {
        let c = text.get_char(i);
        assert(text@.take(i + 1).drop_last() =~= text@.take(i as int));
        if c == '\n' {
            push_char(&mut s, '\n');
            s.append(pad);
        } else {
            push_char(&mut s, c);
        }
        i += 1;
    }
    assert(text@.take(n as int) =~= text@);
    s
}

/// Renders [`indent`] of `text` and `pad`.
pub fn indent_text(text: &str, pad: &str) -> (s: String)
    ensures
        s@ == indent(text@, pad@),
{
    let mut s = String::from_str(pad);
    let rest = continue_lines_of(text, pad);
    s.append(rest.as_str());
    s
}

/// Renders [`bullet`] of `text`.
pub fn bullet_item(text: &str) -> (s: String)
    ensures
        s@ == bullet(text@),
{
    let mut s = String::from_str("* ");
    let rest = continue_lines_of(text, "  ");
    proof {
        reveal_strlit("  ");
    }
    assert("  "@ =~= spaces(2));
    s.append(rest.as_str());
    s
}

/// Renders [`numbered`] of `i` and `text`.
pub fn numbered_item(i: usize, text: &str) -> (s: String)
    ensures
        s@ == numbered(i as nat, text@),
{
    let mut label = decimal_usize(i);
    label.append(". ");
    let pad = make_spaces(label.unicode_len());
    let rest = continue_lines_of(text, pad.as_str());
    label.append(rest.as_str());
    label
}

/// Renders the texts `items` joined by `sep`.
pub fn join_texts(items: &Vec<String>, sep: &str) -> (s: String)
    ensures
        s@ == join(items@.map_values(|t: String| t@), sep@),
{
    let ghost views = items@.map_values(|t: String| t@);
    let mut s = String::new();
    let mut i: usize = 0;
    assert(views.take(0) =~= seq![]);
    while i < items.len()
        invariant
            i <= items@.len(),
            views == items@.map_values(|t: String| t@),
            s@ == join(views.take(i as int), sep@),
        decreases items@.len() - i,
    {
        assert(views.take(i + 1).drop_last() =~= views.take(i as int));
        assert(views.take(i + 1).last() == items@[i as int]@);
        if i > 0 {
            s.append(sep);
        }
        s.append(items[i].as_str());
        i += 1;
    }
    assert(views.take(items@.len() as int) =~= views);
    s
}


/// The block of lines of a pretty-printed list: each item indented by four
/// spaces and followed by a comma and a line break.
pub open spec fn pretty_block(items: Seq<Seq<char>>) -> Seq<char>
    decreases items.len(),
{
    if items.len() == 0 {
        seq![]
    } else {
        pretty_block(items.drop_last()) + indent(items.last(), spaces(4)) + ",\n"@
    }
}

/// The rendering of a list of item renderings between `open` and `close`, as
/// `{:?}` lays it out: items separated by a comma and a space.
pub open spec fn debug_list(open: Seq<char>, items: Seq<Seq<char>>, close: Seq<char>) -> Seq<char> {
    open + join(items, ", "@) + close
}

/// The rendering of a list of item renderings between `open` and `close`, as
/// `{:#?}` lays it out: one indented item per line, each followed by a comma.
pub open spec fn pretty_list(open: Seq<char>, items: Seq<Seq<char>>, close: Seq<char>) -> Seq<char> {
    if items.len() == 0 {
        open + close
    } else {
        open + "\n"@ + pretty_block(items) + close
    }
}

/// The views of the strings `v`.
pub open spec fn views(v: Seq<String>) -> Seq<Seq<char>> {
    v.map_values(|t: String| t@)
}

/// Renders [`debug_list`].
pub fn render_debug_list(open: &str, items: &Vec<String>, close: &str) -> (s: String)
    ensures
        s@ == debug_list(open@, views(items@), close@),
{
    let mut s = String::from_str(open);
    let body = join_texts(items, ", ");
    s.append(body.as_str());
    s.append(close);
    s
}

/// Renders [`pretty_list`].
pub fn render_pretty_list(open: &str, items: &Vec<String>, close: &str) -> (s: String)
    ensures
        s@ == pretty_list(open@, views(items@), close@),
{
    let ghost vs = views(items@);
    let mut s = String::from_str(open);
    if items.len() == 0 {
        s.append(close);
        return s;
    }
    s.append("\n");
    let ghost start = s@;
    let mut i: usize = 0;
    assert(vs.take(0) =~= seq![]);
    while i < items.len()
        invariant
            i <= items@.len(),
            vs == views(items@),
            s@ == start + pretty_block(vs.take(i as int)),
        decreases items@.len() - i,
    {
        assert(vs.take(i + 1).drop_last() =~= vs.take(i as int));
        let line = indent_text(items[i].as_str(), "    ");
        proof {
            reveal_strlit("    ");
        }
        assert("    "@ =~= spaces(4));
        s.append(line.as_str());
        s.append(",\n");
        i += 1;
    }
    assert(vs.take(items@.len() as int) =~= vs);
    s.append(close);
    s
}


/// Renders [`bullet_list`] of the texts `items`.
pub fn render_bullet_list(items: &Vec<String>) -> (s: String)
    ensures
        s@ == bullet_list(views(items@)),
{
    let mut lines: Vec<String> = Vec::new();
    let mut i: usize = 0;
    while i < items.len()
        invariant
            i <= items@.len(),
            lines@.len() == i,
            forall|k: int| 0 <= k < i ==> #[trigger] lines@[k]@ == bullet(items@[k]@),
        decreases items@.len() - i,
    {
        let line = bullet_item(items[i].as_str());
        lines.push(line);
        i += 1;
    }
    assert(views(lines@) =~= views(items@).map_values(|t: Seq<char>| bullet(t)));
    join_texts(&lines, "\n")
}

/// Renders [`numbered_list`] of the texts `items`.
pub fn render_numbered_list(items: &Vec<String>) -> (s: String)
    ensures
        s@ == numbered_list(views(items@)),
{
    let mut lines: Vec<String> = Vec::new();
    let mut i: usize = 0;
    while i < items.len()
        invariant
            i <= items@.len(),
            lines@.len() == i,
            forall|k: int| 0 <= k < i ==> #[trigger] lines@[k]@ == numbered(k as nat, items@[k]@),
        decreases items@.len() - i,
    {
        let line = numbered_item(i, items[i].as_str());
        lines.push(line);
        i += 1;
    }
    assert(views(lines@) =~= views(items@).map(|k: int, t: Seq<char>| numbered(k as nat, t)));
    join_texts(&lines, "\n")
}

} // verus!
