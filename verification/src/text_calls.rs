//! What callers can count on when text is built and taken apart.
//!
//! `call_ensures(f, args, r)` says that `f`, called with `args`, returned `r`.
use crate::text;
use vstd::prelude::*;

verus! {

/// The number that a row of decimal digits reads as.
pub open spec fn read_as(s: Seq<char>) -> int
    decreases s.len(),
{
    if s.len() == 0 {
        0
    } else {
        10 * read_as(s.drop_last()) + (s.last() as u32 - '0' as u32)
    }
}

/// Whether a text is a plain numeral: digits only, one at least, and no zero in front of others.
pub open spec fn is_numeral(s: Seq<char>) -> bool {
    &&& s.len() > 0
    &&& forall|i: int| 0 <= i < s.len() ==> '0' <= #[trigger] s[i] <= '9'
    &&& s[0] == '0' ==> s.len() == 1
}

/// The decimal numeral of a number reads as that number.
pub proof fn lemma_decimal_reads_back(n: nat)
    ensures
        is_numeral(text::decimal(n)),
        read_as(text::decimal(n)) == n,
        text::decimal(n)[0] == '0' ==> n == 0,
    decreases n,
{
    let s = text::decimal(n);
    if n < 10 {
        assert(s.drop_last() =~= Seq::empty());
        assert(read_as(s.drop_last()) == 0);
        assert(s.last() == text::digit_char(n as int));
    } else {
        lemma_decimal_reads_back(n / 10);
        assert(s.drop_last() =~= text::decimal(n / 10));
        assert(s.last() == text::digit_char((n % 10) as int));
        assert(s[0] == text::decimal(n / 10)[0]);
    }
}

/// A number that is written in decimal reads as that number.
pub proof fn law_decimal_reads_back(n: u128, r: String)
    requires
        call_ensures(text::decimal_u128, (n,), r),
    ensures
        is_numeral(r@),
        read_as(r@) == n,
{
    lemma_decimal_reads_back(n as nat);
}

/// A number that is written in decimal reads as that number.
pub proof fn law_decimal_u64_reads_back(n: u64, r: String)
    requires
        call_ensures(text::decimal_u64, (n,), r),
    ensures
        is_numeral(r@),
        read_as(r@) == n,
{
    lemma_decimal_reads_back(n as nat);
}

/// A number that is written in decimal reads as that number.
pub proof fn law_decimal_usize_reads_back(n: usize, r: String)
    requires
        call_ensures(text::decimal_usize, (n,), r),
    ensures
        is_numeral(r@),
        read_as(r@) == n,
{
    lemma_decimal_reads_back(n as nat);
}

/// A number that is written in decimal reads as that number; a minus sign stands in front of the
/// negative ones and of no others.
pub proof fn law_signed_decimal_reads_back(i: i64, r: String)
    requires
        call_ensures(text::decimal_i64, (i,), r),
    ensures
        i >= 0 ==> is_numeral(r@) && read_as(r@) == i,
        i < 0 ==> r@.len() > 0 && r@[0] == '-' && is_numeral(r@.skip(1)) && read_as(r@.skip(1))
            == -i,
{
    if i >= 0 {
        lemma_decimal_reads_back(i as nat);
    } else {
        lemma_decimal_reads_back((-i) as nat);
        assert(r@.skip(1) =~= text::decimal((-i) as nat));
    }
}

/// A number in hexadecimal has as many digits as asked for. The last digit tells the number up to
/// multiples of sixteen, and those before it are those of a sixteenth of the number.
pub proof fn law_hexadecimal_is_written_digit_by_digit(
    n: u32,
    width: u32,
    r: String,
    before: String,
)
    requires
        width > 0,
        call_ensures(text::hex_u32, (n, width), r),
        call_ensures(text::hex_u32, ((n / 16) as u32, (width - 1) as u32), before),
    ensures
        r@.len() == width,
        r@.take(width - 1) == before@,
        n % 16 < 10 ==> r@.last() as u32 == '0' as u32 + n % 16,
        n % 16 >= 10 ==> r@.last() as u32 == 'a' as u32 + (n % 16 - 10),
{
    lemma_hex_len(n as nat, width as nat);
    lemma_hex_len((n / 16) as nat, (width - 1) as nat);
    assert(r@.take(width - 1) =~= before@);
}

proof fn lemma_hex_len(n: nat, width: nat)
    ensures
        text::hex(n, width).len() == width,
    decreases width,
{
    if width > 0 {
        lemma_hex_len(n / 16, (width - 1) as nat);
    }
}

/// A text starts with another where something can be appended to that other to get it.
pub proof fn law_prefixes_are_found(s: &str, prefix: &str, r: bool)
    requires
        call_ensures(text::starts_with, (s, prefix), r),
    ensures
        r <==> exists|rest: Seq<char>| s@ == #[trigger] (prefix@ + rest),
{
    let n = prefix@.len() as int;
    if r {
        assert(s@ =~= prefix@ + s@.skip(n));
    } else if exists|rest: Seq<char>| s@ == #[trigger] (prefix@ + rest) {
        let rest = choose|rest: Seq<char>| s@ == #[trigger] (prefix@ + rest);
        assert(s@.subrange(0, n) =~= prefix@);
    }
}

/// Whether a character is blank: a tab, a line break, a space or one of its kind.
pub open spec fn white(c: char) -> bool {
    let u = c as int;
    ||| 9 <= u <= 13
    ||| u == 32
    ||| u == 133
    ||| u == 160
    ||| u == 5760
    ||| 8192 <= u <= 8202
    ||| u == 8232
    ||| u == 8233
    ||| u == 8239
    ||| u == 8287
    ||| u == 12288
}

proof fn lemma_white(c: char)
    ensures
        white(c) <==> text::is_white_space(c),
{
    let u = c as u32;
    assert(u == c as int);
}

/// A text that is blank holds blank characters only.
pub proof fn lemma_blank(s: Seq<char>)
    ensures
        text::is_blank(s) <==> forall|i: int| 0 <= i < s.len() ==> white(#[trigger] s[i]),
{
    assert forall|i: int| 0 <= i < s.len() implies white(#[trigger] s[i])
        == text::is_white_space(s[i]) by {
        lemma_white(s[i]);
    }
    if !text::is_blank(s) {
        let i = choose|i: int| 0 <= i < s.len() && !text::is_white_space(#[trigger] s[i]);
        assert(!white(s[i]));
    }
}

/// A text is blank where all of its characters are.
pub proof fn law_blank_texts_hold_blanks_only(s: &str, r: bool)
    requires
        call_ensures(text::blank, (s,), r),
    ensures
        r <==> forall|i: int| 0 <= i < s@.len() ==> white(#[trigger] s@[i]),
{
    lemma_blank(s@);
}

/// Whether `t` is `s` without the blanks around it: blanks before and after `t` make `s`, and `t`
/// neither starts nor ends with one.
pub open spec fn is_core(s: Seq<char>, t: Seq<char>) -> bool {
    &&& exists|from: int|
        0 <= from && from + t.len() <= s.len() && t == #[trigger] s.subrange(
            from,
            from + t.len(),
        ) && (forall|i: int| 0 <= i < from ==> white(#[trigger] s[i])) && (forall|i: int|
            from + t.len() <= i < s.len() ==> white(#[trigger] s[i]))
    &&& t.len() > 0 ==> !white(t[0]) && !white(t.last())
}

proof fn lemma_start(s: Seq<char>) -> (from: int)
    ensures
        0 <= from <= s.len(),
        text::trimmed_start(s) == s.subrange(from, s.len() as int),
        forall|i: int| 0 <= i < from ==> white(#[trigger] s[i]),
        from < s.len() ==> !white(s[from]),
    decreases s.len(),
{
    if s.len() > 0 {
        lemma_white(s[0]);
    }
    if s.len() > 0 && text::is_white_space(s[0]) {
        let rest = s.drop_first();
        let from = lemma_start(rest);
        assert forall|i: int| 0 <= i < from + 1 implies white(#[trigger] s[i]) by {
            if i > 0 {
                assert(white(rest[i - 1]));
            }
        }
        if from < rest.len() {
            assert(rest[from] == s[from + 1]);
        }
        assert(rest.subrange(from, rest.len() as int) =~= s.subrange(from + 1, s.len() as int));
        from + 1
    } else {
        assert(s.subrange(0, s.len() as int) =~= s);
        0
    }
}

proof fn lemma_end(s: Seq<char>) -> (to: int)
    ensures
        0 <= to <= s.len(),
        text::trimmed_end(s) == s.subrange(0, to),
        forall|i: int| to <= i < s.len() ==> white(#[trigger] s[i]),
        to > 0 ==> !white(s[to - 1]),
    decreases s.len(),
{
    if s.len() > 0 {
        lemma_white(s.last());
    }
    if s.len() > 0 && text::is_white_space(s.last()) {
        let rest = s.drop_last();
        let to = lemma_end(rest);
        assert forall|i: int| to <= i < s.len() implies white(#[trigger] s[i]) by {
            if i < rest.len() {
                assert(white(rest[i]));
            }
        }
        if to > 0 {
            assert(rest[to - 1] == s[to - 1]);
        }
        assert(rest.subrange(0, to) =~= s.subrange(0, to));
        to
    } else {
        assert(s.subrange(0, s.len() as int) =~= s);
        s.len() as int
    }
}

/// What is left of a text once it is trimmed is the text without the blanks around it.
pub proof fn lemma_trimmed_is_core(s: Seq<char>)
    ensures
        is_core(s, text::trimmed(s)),
{
    let from = lemma_start(s);
    let rest = s.subrange(from, s.len() as int);
    let to = lemma_end(rest);
    let t = text::trimmed(s);
    assert(t =~= s.subrange(from, from + t.len()));
    assert forall|i: int| from + t.len() <= i < s.len() implies white(#[trigger] s[i]) by {
        assert(white(rest[i - from]));
    }
    if t.len() > 0 {
        assert(t[0] == s[from]);
        assert(t.last() == rest[to - 1]);
    }
}

/// Trimming takes the blanks around a text away, and nothing else.
pub proof fn law_trimming_takes_blanks_away(s: &str, r: String)
    requires
        call_ensures(text::trim, (s,), r),
    ensures
        is_core(s@, r@),
{
    lemma_trimmed_is_core(s@);
}

/// Nothing else is left of a text once the blanks around it are taken away.
pub proof fn lemma_core_is_unique(s: Seq<char>, a: Seq<char>, b: Seq<char>)
    requires
        is_core(s, a),
        is_core(s, b),
    ensures
        a == b,
{
    let f = choose|from: int|
        0 <= from && from + a.len() <= s.len() && a == #[trigger] s.subrange(
            from,
            from + a.len(),
        ) && (forall|i: int| 0 <= i < from ==> white(#[trigger] s[i])) && (forall|i: int|
            from + a.len() <= i < s.len() ==> white(#[trigger] s[i]));
    let g = choose|from: int|
        0 <= from && from + b.len() <= s.len() && b == #[trigger] s.subrange(
            from,
            from + b.len(),
        ) && (forall|i: int| 0 <= i < from ==> white(#[trigger] s[i])) && (forall|i: int|
            from + b.len() <= i < s.len() ==> white(#[trigger] s[i]));
    if a.len() > 0 {
        assert(s[f] == a[0]);
        assert(s[f + a.len() - 1] == a.last());
    }
    if b.len() > 0 {
        assert(s[g] == b[0]);
        assert(s[g + b.len() - 1] == b.last());
    }
    if a.len() == 0 && b.len() == 0 {
        assert(a =~= b);
    }
}

} // verus!
