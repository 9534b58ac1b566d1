//! Text as sequences of characters: what the reports and URLs are put together from.

use vstd::prelude::*;
use vstd::utf8::{encode_utf8, is_ascii_chars};

verus! {

/// The characters of `s`, one by one.
pub fn chars_of(s: &str) -> (r: Vec<char>)
    ensures
        r@ == s@,
{
    let mut out: Vec<char> = Vec::new();
    for c in it: s.chars()
        invariant
            it.seq() == s@,
            out@ == s@.take(it.index()),
    {
        out.push(c);
    }
    assert(s@.take(s@.len() as int) == s@);
    out
}

/// Whether two texts hold the same characters.
pub fn same_text(a: &str, b: &str) -> (r: bool)
    ensures
        r == (a@ == b@),
{
    let x = a.as_bytes();
    let y = b.as_bytes();
    proof {
        vstd::utf8::encode_utf8_decode_utf8(a@);
        vstd::utf8::encode_utf8_decode_utf8(b@);
    }
    if x.len() != y.len() {
        return false;
    }
    let mut i: usize = 0;
    while i < x.len()
        invariant
            x@.len() == y@.len(),
            i <= x@.len(),
            x@ == encode_utf8(a@),
            y@ == encode_utf8(b@),
            forall|j: int| 0 <= j < i ==> x@[j] == y@[j],
        decreases x@.len() - i,
    {
        if x[i] != y[i] {
            return false;
        }
        i += 1;
    }
    assert(x@ == y@);
    true
}

/// The decimal digits of `n`, without leading zeros.
pub open spec fn decimal(n: nat) -> Seq<char>
    decreases n,
{
    if n < 10 {
        digit(n)
    } else {
        decimal(n / 10) + digit(n % 10)
    }
}

/// The text of one decimal digit.
pub open spec fn digit(n: nat) -> Seq<char> {
    seq![((n + 48) as u32) as char]
}

fn digit_text(n: u64) -> (r: &'static str)
    requires
        n < 10,
    ensures
        r@ == digit(n as nat),
{
    proof {
        reveal_strlit("0");
        reveal_strlit("1");
        reveal_strlit("2");
        reveal_strlit("3");
        reveal_strlit("4");
        reveal_strlit("5");
        reveal_strlit("6");
        reveal_strlit("7");
        reveal_strlit("8");
        reveal_strlit("9");
    }
    match n {
        0 => "0",
        1 => "1",
        2 => "2",
        3 => "3",
        4 => "4",
        5 => "5",
        6 => "6",
        7 => "7",
        8 => "8",
        _ => "9",
    }
}

/// `n` written in decimal.
pub fn format_u64(n: u64) -> (r: String)
    ensures
        r@ == decimal(n as nat),
    decreases n,
{
    if n < 10 {
        digit_text(n).to_string()
    } else {
        let mut out = format_u64(n / 10);
        out.append(digit_text(n % 10));
        out
    }
}

/// `n` written in decimal, with a minus sign in front of a negative number.
pub open spec fn signed_decimal(n: int) -> Seq<char> {
    if n < 0 {
        "-"@ + decimal((-n) as nat)
    } else {
        decimal(n as nat)
    }
}

/// `n` written in decimal, with a minus sign in front of a negative number.
pub fn format_i32(n: i32) -> (r: String)
    ensures
        r@ == signed_decimal(n as int),
{
    let wide: i64 = n as i64;
    if wide < 0 {
        let mut out = "-".to_string();
        out.append(format_u64((-wide) as u64).as_str());
        out
    } else {
        format_u64(wide as u64)
    }
}

/// The character `c`, `n` times over.
pub open spec fn repeated(c: char, n: nat) -> Seq<char> {
    Seq::new(n, |i: int| c)
}

/// The one-character text `piece`, `n` times over.
pub fn repeat(piece: &str, n: usize) -> (r: String)
    requires
        piece@.len() == 1,
    ensures
        r@ == repeated(piece@[0], n as nat),
{
    let mut out = String::new();
    let mut i: usize = 0;
    while i < n
        invariant
            i <= n,
            piece@.len() == 1,
            out@ == repeated(piece@[0], i as nat),
        decreases n - i,
    {
        out.append(piece);
        i += 1;
        assert(out@ == repeated(piece@[0], i as nat));
    }
    out
}

/// `s` filled up with spaces on the right to `width` characters; longer texts stay as they are.
pub open spec fn pad_right(s: Seq<char>, width: nat) -> Seq<char> {
    if s.len() < width {
        s + repeated(' ', (width - s.len()) as nat)
    } else {
        s
    }
}

/// `s` filled up with spaces on the left to `width` characters; longer texts stay as they are.
pub open spec fn pad_left(s: Seq<char>, width: nat) -> Seq<char> {
    if s.len() < width {
        repeated(' ', (width - s.len()) as nat) + s
    } else {
        s
    }
}

/// Left-aligned in a column of `width` characters.
pub fn left(s: &str, width: usize) -> (r: String)
    ensures
        r@ == pad_right(s@, width as nat),
{
    let len: usize = s.unicode_len();
    let mut out = s.to_string();
    if len < width {
        proof {
            reveal_strlit(" ");
        }
        out.append(repeat(" ", width - len).as_str());
    }
    out
}

/// Right-aligned in a column of `width` characters.
pub fn right(s: &str, width: usize) -> (r: String)
    ensures
        r@ == pad_left(s@, width as nat),
{
    let len: usize = s.unicode_len();
    if len < width {
        proof {
            reveal_strlit(" ");
        }
        let mut out = repeat(" ", width - len);
        out.append(s);
        out
    } else {
        s.to_string()
    }
}

/// The first `max` characters of `s` and an ellipsis, or all of `s` if it has no more than that.
pub open spec fn clipped(s: Seq<char>, max: nat) -> Seq<char> {
    if s.len() > max {
        s.take(max as int) + "..."@
    } else {
        s
    }
}

/// Cuts `s` down to its first `max` characters, and marks the cut with `...`.
pub fn truncate(s: &str, max: usize) -> (r: String)
    ensures
        r@ == clipped(s@, max as nat),
{
    if s.unicode_len() > max {
        let mut out = s.substring_char(0, max).to_string();
        out.append("...");
        out
    } else {
        s.to_string()
    }
}

/// The text of an optional string.
pub open spec fn opt_text(s: Option<String>) -> Option<Seq<char>> {
    match s {
        Some(s) => Some(s@),
        None => None,
    }
}

/// The text of an optional string slice.
pub open spec fn opt_slice_text(s: Option<&str>) -> Option<Seq<char>> {
    match s {
        Some(s) => Some(s@),
        None => None,
    }
}

/// The texts of a list of strings.
pub open spec fn texts(list: Seq<String>) -> Seq<Seq<char>> {
    Seq::new(list.len(), |i: int| list[i]@)
}

/// The texts of a list of string slices.
pub open spec fn slice_texts(list: Seq<&str>) -> Seq<Seq<char>> {
    Seq::new(list.len(), |i: int| list[i]@)
}

/// The texts of `parts` one after another, with `sep` between neighbours.
pub open spec fn joined(parts: Seq<Seq<char>>, sep: Seq<char>) -> Seq<char>
    decreases parts.len(),
{
    if parts.len() == 0 {
        seq![]
    } else if parts.len() == 1 {
        parts[0]
    } else {
        joined(parts.drop_last(), sep) + sep + parts.last()
    }
}

/// The strings of `parts` one after another, with `sep` between neighbours.
pub fn join(parts: &[String], sep: &str) -> (r: String)
    ensures
        r@ == joined(texts(parts@), sep@),
{
    let mut out = String::new();
    let mut i: usize = 0;
    assert(out@ == joined(texts(parts@).take(0), sep@));
    while i < parts.len()
        invariant
            i <= parts@.len(),
            out@ == joined(texts(parts@).take(i as int), sep@),
        decreases parts@.len() - i,
    {
        if i > 0 {
            out.append(sep);
        }
        out.append(parts[i].as_str());
        proof {
            let next = texts(parts@).take(i + 1);
            assert(next.drop_last() == texts(parts@).take(i as int));
            assert(next.last() == parts@[i as int]@);
            assert(out@ == joined(next, sep@));
        }
        i += 1;
    }
    assert(texts(parts@).take(parts@.len() as int) == texts(parts@));
    out
}

/// The slices of `parts` one after another, with `sep` between neighbours.
pub fn join_slices(parts: &[&str], sep: &str) -> (r: String)
    ensures
        r@ == joined(slice_texts(parts@), sep@),
{
    let mut out = String::new();
    let mut i: usize = 0;
    assert(out@ == joined(slice_texts(parts@).take(0), sep@));
    while i < parts.len()
        invariant
            i <= parts@.len(),
            out@ == joined(slice_texts(parts@).take(i as int), sep@),
        decreases parts@.len() - i,
    {
        if i > 0 {
            out.append(sep);
        }
        out.append(parts[i]);
        proof {
            let next = slice_texts(parts@).take(i + 1);
            assert(next.drop_last() == slice_texts(parts@).take(i as int));
            assert(next.last() == parts@[i as int]@);
            assert(out@ == joined(next, sep@));
        }
        i += 1;
    }
    assert(slice_texts(parts@).take(parts@.len() as int) == slice_texts(parts@));
    out
}

/// Whether `needle` stands in `s` from position `at` on.
pub open spec fn occurs_at(s: Seq<char>, needle: Seq<char>, at: int) -> bool {
    0 <= at && at + needle.len() <= s.len() && s.subrange(at, at + needle.len()) == needle
}

/// Whether `needle` stands anywhere in `s`.
pub open spec fn occurs(s: Seq<char>, needle: Seq<char>) -> bool {
    exists|at: int| occurs_at(s, needle, at)
}

/// Compares `needle` with what stands in `s` from position `at` on.
fn matches_at(s: &Vec<char>, needle: &Vec<char>, at: usize) -> (r: bool)
    requires
        at <= s@.len(),
    ensures
        r == occurs_at(s@, needle@, at as int),
{
    let total: usize = s.len();
    if needle.len() > total - at {
        return false;
    }
    let mut i: usize = 0;
    while i < needle.len()
        invariant
            i <= needle@.len(),
            total == s@.len(),
            at + needle@.len() <= total,
            forall|j: int| 0 <= j < i ==> s@[at + j] == needle@[j],
        decreases needle@.len() - i,
    {
        if s[at + i] != needle[i] {
            assert(s@.subrange(at as int, at + needle@.len())[i as int] != needle@[i as int]);
            return false;
        }
        i += 1;
    }
    assert(s@.subrange(at as int, at + needle@.len()) == needle@);
    true
}

/// Whether `needle` stands anywhere in `s`.
pub fn contains(s: &str, needle: &str) -> (r: bool)
    ensures
        r == occurs(s@, needle@),
{
    let text = chars_of(s);
    let wanted = chars_of(needle);
    let mut at: usize = 0;
    while at < text.len()
        invariant
            at <= text@.len(),
            text@ == s@,
            wanted@ == needle@,
            forall|j: int| 0 <= j < at ==> !occurs_at(s@, needle@, j),
        decreases text@.len() - at,
    {
        if matches_at(&text, &wanted, at) {
            return true;
        }
        at += 1;
    }
    matches_at(&text, &wanted, at)
}

/// `s` with each occurrence of `from`, taken from the left and without overlaps, replaced by `to`.
pub open spec fn replaced(s: Seq<char>, from: Seq<char>, to: Seq<char>) -> Seq<char>
    recommends
        from.len() > 0,
    decreases s.len(),
{
    if from.len() == 0 || s.len() < from.len() {
        s
    } else if occurs_at(s, from, 0) {
        to + replaced(s.skip(from.len() as int), from, to)
    } else {
        seq![s[0]] + replaced(s.skip(1), from, to)
    }
}

/// Replaces each occurrence of `from` in `s`, taken from the left, by `to`.
pub fn replace(s: &str, from: &str, to: &str) -> (r: String)
    requires
        from@.len() > 0,
    ensures
        r@ == replaced(s@, from@, to@),
{
    let text = chars_of(s);
    let wanted = chars_of(from);
    let mut out = String::new();
    let mut at: usize = 0;
    assert(s@.skip(0) == s@);
    while text.len() - at >= wanted.len()
        invariant
            at <= text@.len(),
            text@ == s@,
            wanted@ == from@,
            from@.len() > 0,
            out@ + replaced(s@.skip(at as int), from@, to@) == replaced(s@, from@, to@),
        decreases text@.len() - at,
    {
        let ghost rest = s@.skip(at as int);
        let ghost before = out@;
        let found = matches_at(&text, &wanted, at);
        assert(occurs_at(rest, from@, 0) == found) by {
            assert(rest.subrange(0, from@.len() as int) == s@.subrange(at as int, at + from@.len()));
        }
        if found {
            out.append(to);
            at += wanted.len();
            assert(rest.skip(from@.len() as int) == s@.skip(at as int));
            assert(before + (to@ + replaced(s@.skip(at as int), from@, to@)) == out@ + replaced(
                s@.skip(at as int),
                from@,
                to@,
            ));
        } else {
            out.append(s.substring_char(at, at + 1));
            at += 1;
            assert(rest.skip(1) == s@.skip(at as int));
            assert(s@.subrange(at - 1, at as int) == seq![rest[0]]);
            assert(before + (seq![rest[0]] + replaced(s@.skip(at as int), from@, to@)) == out@
                + replaced(s@.skip(at as int), from@, to@));
        }
    }
    out.append(s.substring_char(at, text.len()));
    assert(s@.subrange(at as int, s@.len() as int) == s@.skip(at as int));
    out
}

/// Whether `a` comes strictly before `b` in the order of their first differing characters,
/// where a text comes before all its proper extensions.
pub open spec fn text_before(a: Seq<char>, b: Seq<char>) -> bool
    decreases a.len(),
{
    if b.len() == 0 {
        false
    } else if a.len() == 0 {
        true
    } else if a[0] != b[0] {
        a[0] < b[0]
    } else {
        text_before(a.drop_first(), b.drop_first())
    }
}

/// No text comes before itself.
pub proof fn text_before_irreflexive(a: Seq<char>)
    ensures
        !text_before(a, a),
    decreases a.len(),
{
    if a.len() > 0 {
        text_before_irreflexive(a.drop_first());
    }
}

/// The order of texts is transitive.
pub proof fn text_before_transitive(a: Seq<char>, b: Seq<char>, c: Seq<char>)
    requires
        text_before(a, b),
        text_before(b, c),
    ensures
        text_before(a, c),
    decreases a.len(),
{
    if a.len() > 0 && a[0] == b[0] && b[0] == c[0] {
        text_before_transitive(a.drop_first(), b.drop_first(), c.drop_first());
    }
}

/// Of two different texts, one comes before the other.
pub proof fn text_before_total(a: Seq<char>, b: Seq<char>)
    ensures
        a == b || text_before(a, b) || text_before(b, a),
    decreases a.len(),
{
    if a.len() == 0 || b.len() == 0 {
        if a.len() == 0 && b.len() == 0 {
            assert(a == b);
        }
    } else if a[0] == b[0] {
        text_before_total(a.drop_first(), b.drop_first());
        if a.drop_first() == b.drop_first() {
            assert(a == seq![a[0]] + a.drop_first());
            assert(b == seq![b[0]] + b.drop_first());
        }
    }
}

/// Whether `a` comes strictly before `b`.
pub fn is_before(a: &str, b: &str) -> (r: bool)
    ensures
        r == text_before(a@, b@),
{
    let x = chars_of(a);
    let y = chars_of(b);
    let mut i: usize = 0;
    assert(a@.skip(0) == a@);
    assert(b@.skip(0) == b@);
    while i < x.len() && i < y.len()
        invariant
            x@ == a@,
            y@ == b@,
            i <= x@.len(),
            i <= y@.len(),
            text_before(a@, b@) == text_before(a@.skip(i as int), b@.skip(i as int)),
        decreases x@.len() - i,
    {
        if x[i] != y[i] {
            return x[i] < y[i];
        }
        assert(a@.skip(i as int).drop_first() == a@.skip(i + 1));
        assert(b@.skip(i as int).drop_first() == b@.skip(i + 1));
        i += 1;
    }
    i < y.len()
}

/// The lowercase form of a text, by the character tables of the Unicode standard.
pub uninterp spec fn unicode_lowercase(s: Seq<char>) -> Seq<char>;

/// `c`, or the small letter for one of the letters `A` to `Z`.
pub open spec fn ascii_small(c: char) -> char {
    if 'A' <= c && c <= 'Z' {
        ((c as u32 + 32) as u32) as char
    } else {
        c
    }
}

/// `s` with the letters `A` to `Z` made small.
pub open spec fn ascii_lowercase(s: Seq<char>) -> Seq<char> {
    Seq::new(s.len(), |i: int| ascii_small(s[i]))
}

/// Calls `str::to_lowercase` of the standard library. Taken on trust: the result depends on the
/// characters of `s` alone, and of a text in ASCII it is that text with the letters `A` to `Z`
/// made small.
#[verifier::external_body]
pub(crate) fn to_lowercase(s: &str) -> (r: String)
    ensures
        r@ == unicode_lowercase(s@),
        is_ascii_chars(s@) ==> r@ == ascii_lowercase(s@),
{
    s.to_lowercase()
}

/// A truncated text is never longer than the limit and the ellipsis, starts as the text starts,
/// and is the text itself where that is within the limit.
pub proof fn clipped_keeps_the_start(s: Seq<char>, max: nat)
    ensures
        s.len() <= max ==> clipped(s, max) == s,
        s.len() > max ==> clipped(s, max).len() == max + 3 && s.take(max as int).is_prefix_of(
            clipped(s, max),
        ),
        s.len() > max ==> forall|i: int| max <= i < max + 3 ==> clipped(s, max)[i] == '.',
{
    reveal_strlit("...");
}

/// A text in a column is as wide as the column, or as itself where it is wider, loses nothing,
/// and gains nothing but spaces.
pub proof fn padding_fills_the_column(s: Seq<char>, width: nat)
    ensures
        pad_right(s, width).len() == if s.len() < width {
            width
        } else {
            s.len()
        },
        pad_left(s, width).len() == pad_right(s, width).len(),
        s.is_prefix_of(pad_right(s, width)),
        s.is_suffix_of(pad_left(s, width)),
        forall|i: int| s.len() <= i < width ==> #[trigger] pad_right(s, width)[i] == ' ',
        forall|i: int| 0 <= i < width - s.len() ==> #[trigger] pad_left(s, width)[i] == ' ',
{
}

proof fn lemma_replaced_skips(s: Seq<char>, from: Seq<char>, to: Seq<char>, n: int)
    requires
        from.len() > 0,
        0 <= n <= s.len(),
        forall|at: int| 0 <= at < n ==> !occurs_at(s, from, at),
    ensures
        replaced(s, from, to) == s.take(n) + replaced(s.skip(n), from, to),
    decreases n,
{
    if n == 0 {
        assert(s.skip(0) =~= s);
        assert(s.take(0) + replaced(s, from, to) =~= replaced(s, from, to));
    } else if s.len() < from.len() {
        assert(s.take(n) + s.skip(n) =~= s);
    } else {
        let rest = s.skip(1);
        assert(!occurs_at(s, from, 0));
        assert forall|at: int| 0 <= at < n - 1 implies !occurs_at(rest, from, at) by {
            assert(!occurs_at(s, from, at + 1));
            if at + from.len() <= rest.len() {
                assert(rest.subrange(at, at + from.len()) =~= s.subrange(
                    at + 1,
                    at + 1 + from.len(),
                ));
            }
        }
        lemma_replaced_skips(rest, from, to, n - 1);
        assert(rest.skip(n - 1) =~= s.skip(n));
        assert(seq![s[0]] + (rest.take(n - 1) + replaced(s.skip(n), from, to)) =~= s.take(n)
            + replaced(s.skip(n), from, to));
    }
}

/// Where there is nothing to replace, nothing changes.
pub proof fn replaced_keeps_other_texts(s: Seq<char>, from: Seq<char>, to: Seq<char>)
    requires
        from.len() > 0,
        !occurs(s, from),
    ensures
        replaced(s, from, to) == s,
{
    lemma_replaced_skips(s, from, to, s.len() as int);
    assert(s.skip(s.len() as int) =~= seq![]);
    assert(s.take(s.len() as int) + seq![] =~= s);
}

/// A text that ends in its only occurrence of `from` ends in `to` instead.
pub proof fn replaced_at_the_end(s: Seq<char>, from: Seq<char>, to: Seq<char>)
    requires
        from.len() > 0,
        forall|at: int| 0 <= at < s.len() ==> !occurs_at(s + from, from, at),
    ensures
        replaced(s + from, from, to) == s + to,
{
    let whole = s + from;
    lemma_replaced_skips(whole, from, to, s.len() as int);
    assert(whole.skip(s.len() as int) =~= from);
    assert(whole.take(s.len() as int) =~= s);
    assert(from.subrange(0, from.len() as int) =~= from);
    assert(occurs_at(from, from, 0));
    assert(from.skip(from.len() as int) =~= seq![]);
    assert(to + replaced(seq![], from, to) =~= to);
}

/// The number that a text of decimal digits stands for.
pub open spec fn number_of(text: Seq<char>) -> nat
    decreases text.len(),
{
    if text.len() == 0 {
        0
    } else {
        number_of(text.drop_last()) * 10 + (text.last() as u32 - '0' as u32) as nat
    }
}

/// A number in decimal reads back as the number, and is written with digits only and without
/// leading zeros.
pub proof fn decimal_reads_back(n: nat)
    ensures
        number_of(decimal(n)) == n,
        decimal(n).len() > 0,
        forall|i: int| 0 <= i < decimal(n).len() ==> '0' <= #[trigger] decimal(n)[i] <= '9',
        n > 0 ==> decimal(n)[0] != '0',
        n < 10 ==> decimal(n).len() == 1,
    decreases n,
{
    let text = decimal(n);
    if n < 10 {
        assert(text.drop_last() =~= seq![]);
        assert(number_of(text.drop_last()) == 0);
    } else {
        decimal_reads_back(n / 10);
        assert(text.drop_last() =~= decimal(n / 10));
        assert(text.last() == digit(n % 10)[0]);
        assert(text[0] == decimal(n / 10)[0]);
        assert forall|i: int| 0 <= i < text.len() implies '0' <= #[trigger] text[i] <= '9' by {
            if i < text.len() - 1 {
                assert(text[i] == decimal(n / 10)[i]);
            }
        }
    }
}

/// A signed number in decimal reads back as the number: a negative one has a minus sign in front
/// of its digits, and any other has digits only.
pub proof fn signed_decimal_reads_back(n: int)
    ensures
        n >= 0 ==> number_of(signed_decimal(n)) == n && signed_decimal(n) == decimal(n as nat),
        n < 0 ==> signed_decimal(n)[0] == '-' && number_of(signed_decimal(n).skip(1)) == -n
            && signed_decimal(n).skip(1) == decimal((-n) as nat),
{
    reveal_strlit("-");
    if n >= 0 {
        decimal_reads_back(n as nat);
    } else {
        decimal_reads_back((-n) as nat);
        assert(signed_decimal(n).skip(1) =~= decimal((-n) as nat));
    }
}

/// A repeated character is there as often as it should be, and nothing else is.
pub proof fn repeated_is_uniform(c: char, n: nat)
    ensures
        repeated(c, n).len() == n,
        forall|i: int| 0 <= i < n ==> #[trigger] repeated(c, n)[i] == c,
{
}

/// Each text of a list stands in its place, and a text that may be missing is what it is.
pub proof fn texts_are_what_they_are(list: Seq<String>, slices: Seq<&str>, s: String, slice: &str)
    ensures
        texts(list).len() == list.len(),
        forall|i: int| 0 <= i < list.len() ==> #[trigger] texts(list)[i] == list[i]@,
        slice_texts(slices).len() == slices.len(),
        forall|i: int| 0 <= i < slices.len() ==> #[trigger] slice_texts(slices)[i] == slices[i]@,
        opt_text(Some(s)) == Some(s@),
        opt_text(None) is None,
        opt_slice_text(Some(slice)) == Some(slice@),
        opt_slice_text(None) is None,
{
}

/// Joining a list is joining its front and its back with the separator between them; one text
/// alone is joined to itself.
pub proof fn joining_joins_front_and_back(a: Seq<Seq<char>>, b: Seq<Seq<char>>, sep: Seq<char>)
    ensures
        a.len() == 0 ==> joined(a, sep).len() == 0,
        a.len() == 1 ==> joined(a, sep) == a[0],
        a.len() > 0 && b.len() > 0 ==> joined(a + b, sep) == joined(a, sep) + sep + joined(b, sep),
    decreases b.len(),
{
    if a.len() > 0 && b.len() > 0 {
        let front = b.drop_last();
        assert((a + b).drop_last() =~= a + front);
        assert((a + b).last() == b.last());
        if front.len() == 0 {
            assert(a + front =~= a);
        } else {
            joining_joins_front_and_back(a, front, sep);
            assert(joined(a, sep) + sep + joined(front, sep) + sep + b.last() =~= joined(a, sep)
                + sep + (joined(front, sep) + sep + b.last()));
        }
    }
}

/// A text occurs in what is put around it.
pub proof fn texts_occur_where_they_are_put(a: Seq<char>, needle: Seq<char>, b: Seq<char>)
    ensures
        occurs(a + needle + b, needle),
{
    let whole = a + needle + b;
    assert(whole.subrange(a.len() as int, (a.len() + needle.len()) as int) =~= needle);
    assert(occurs_at(whole, needle, a.len() as int));
}

/// A text that occurs in another splits it in two.
pub proof fn occurring_texts_split(s: Seq<char>, needle: Seq<char>) -> (r: (Seq<char>, Seq<char>))
    requires
        occurs(s, needle),
    ensures
        s == r.0 + needle + r.1,
{
    let at = choose|at: int| occurs_at(s, needle, at);
    let r = (s.take(at), s.skip(at + needle.len()));
    assert(s =~= r.0 + s.subrange(at, at + needle.len()) + r.1);
    r
}

/// What stands before the first occurrence of `from` stays, that occurrence becomes `to`, and
/// replacing goes on behind it.
pub proof fn replacing_goes_on_behind_a_match(
    s: Seq<char>,
    from: Seq<char>,
    to: Seq<char>,
    rest: Seq<char>,
)
    requires
        from.len() > 0,
        forall|at: int| 0 <= at < s.len() ==> !occurs_at(s + from + rest, from, at),
    ensures
        replaced(s + from + rest, from, to) == s + to + replaced(rest, from, to),
{
    let whole = s + from + rest;
    lemma_replaced_skips(whole, from, to, s.len() as int);
    let tail = whole.skip(s.len() as int);
    assert(tail =~= from + rest);
    assert(whole.take(s.len() as int) =~= s);
    assert(tail.subrange(0, from.len() as int) =~= from);
    assert(occurs_at(tail, from, 0));
    assert(tail.skip(from.len() as int) =~= rest);
    assert(s + (to + replaced(rest, from, to)) =~= s + to + replaced(rest, from, to));
}

/// The order of two texts is that of the first characters in which they differ, and a text comes
/// before what it is only the start of.
pub proof fn the_first_difference_decides(
    start: Seq<char>,
    a: char,
    b: char,
    x: Seq<char>,
    y: Seq<char>,
)
    ensures
        a < b ==> text_before(start + seq![a] + x, start + seq![b] + y),
        a < b ==> !text_before(start + seq![b] + y, start + seq![a] + x),
        text_before(start, start + seq![a] + x),
        !text_before(start + seq![a] + x, start),
    decreases start.len(),
{
    let s = start + seq![a] + x;
    let t = start + seq![b] + y;
    if start.len() > 0 {
        let rest = start.drop_first();
        the_first_difference_decides(rest, a, b, x, y);
        assert(s.drop_first() =~= rest + seq![a] + x);
        assert(t.drop_first() =~= rest + seq![b] + y);
        assert(s[0] == start[0] && t[0] == start[0]);
    } else {
        assert(s[0] == a && t[0] == b);
    }
}

/// Making the letters `A` to `Z` small keeps every other character, and gives each of these
/// letters the small one that stands as far behind `a` as it stands behind `A`.
pub proof fn small_letters_keep_their_place(s: Seq<char>)
    ensures
        ascii_lowercase(s).len() == s.len(),
        forall|i: int|
            0 <= i < s.len() && 'A' <= s[i] <= 'Z' ==> (#[trigger] ascii_lowercase(s)[i]) as u32
                - 'a' as u32 == s[i] as u32 - 'A' as u32,
        forall|i: int|
            0 <= i < s.len() && !('A' <= s[i] <= 'Z') ==> #[trigger] ascii_lowercase(s)[i] == s[i],
{
}

} // verus!
