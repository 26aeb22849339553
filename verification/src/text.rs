//! Text: blankness, decimal numbers, letter case, and the lines of a log.

use vstd::prelude::*;
use vstd::string::*;

verus! {

/// The text of an optional string.
pub open spec fn text_of(s: Option<String>) -> Option<Seq<char>> {
    match s {
        Some(s) => Some(s@),
        None => None,
    }
}

/// Whether Unicode counts `c` as white space.
pub open spec fn white_space(c: char) -> bool {
    ||| '\u{9}' <= c <= '\u{D}'
    ||| c == '\u{20}'
    ||| c == '\u{85}'
    ||| c == '\u{A0}'
    ||| c == '\u{1680}'
    ||| '\u{2000}' <= c <= '\u{200A}'
    ||| c == '\u{2028}'
    ||| c == '\u{2029}'
    ||| c == '\u{202F}'
    ||| c == '\u{205F}'
    ||| c == '\u{3000}'
}

/// Whether nothing but white space is in `s`.
pub open spec fn blank(s: Seq<char>) -> bool {
    forall|i: int| 0 <= i < s.len() ==> white_space(#[trigger] s[i])
}

/// Whether Unicode counts `c` as white space.
pub fn is_white_space(c: char) -> (res: bool)
    ensures
        res == white_space(c),
{
    ('\u{9}' <= c && c <= '\u{D}') || c == '\u{20}' || c == '\u{85}' || c == '\u{A0}' || c
        == '\u{1680}' || ('\u{2000}' <= c && c <= '\u{200A}') || c == '\u{2028}' || c == '\u{2029}'
        || c == '\u{202F}' || c == '\u{205F}' || c == '\u{3000}'
}

/// Whether nothing but white space is in `s`.
pub fn is_blank(s: &str) -> (res: bool)
    ensures
        res == blank(s@),
{
    let chars = s.chars();
    for c in it: chars
        invariant
            it.seq() == s@,
            forall|i: int| 0 <= i < it.index() ==> white_space(#[trigger] s@[i]),
    {
        if !is_white_space(c) {
            return false;
        }
    }
    true
}

/// Whether `c` is one of the digits 0 to 9.
pub open spec fn digit(c: char) -> bool {
    '0' <= c <= '9'
}

/// The number that the digits of `s` write in base ten.
pub open spec fn decimal_value(s: Seq<char>) -> int
    decreases s.len(),
{
    if s.len() == 0 {
        0
    } else {
        decimal_value(s.drop_last()) * 10 + (s.last() as int - '0' as int)
    }
}

/// Whether `s` is a non-empty run of digits.
pub open spec fn digits(s: Seq<char>) -> bool {
    s.len() > 0 && forall|i: int| 0 <= i < s.len() ==> digit(#[trigger] s[i])
}

/// The number that `s` writes: digits, with at most one sign before them.
pub open spec fn signed_decimal(s: Seq<char>) -> Option<int> {
    if digits(s) {
        Some(decimal_value(s))
    } else if s.len() > 0 && s[0] == '+' && digits(s.skip(1)) {
        Some(decimal_value(s.skip(1)))
    } else if s.len() > 0 && s[0] == '-' && digits(s.skip(1)) {
        Some(-decimal_value(s.skip(1)))
    } else {
        None
    }
}

/// The number that `s` writes, where an `i64` can hold it.
pub open spec fn decimal_i64(s: Seq<char>) -> Option<i64> {
    match signed_decimal(s) {
        Some(n) => if i64::MIN <= n <= i64::MAX {
            Some(n as i64)
        } else {
            None
        },
        None => None,
    }
}

/// The character of a digit from 0 to 9.
pub open spec fn digit_char(d: int) -> char {
    ('0' as int + d) as char
}

/// The digits that write `n` in base ten, without leading zeros.
pub open spec fn decimal_digits(n: int) -> Seq<char>
    decreases n,
{
    if n < 10 {
        seq![digit_char(n)]
    } else {
        decimal_digits(n / 10).push(digit_char(n % 10))
    }
}

/// How `n` is written in base ten: its digits, and before them a minus sign if it is negative.
pub open spec fn rendered(n: int) -> Seq<char> {
    if n < 0 {
        seq!['-'] + decimal_digits(-n)
    } else {
        decimal_digits(n)
    }
}

/// Digits that write a number are read as that number.
proof fn lemma_decimal_digits(n: int)
    requires
        0 <= n,
    ensures
        digits(decimal_digits(n)),
        decimal_value(decimal_digits(n)) == n,
    decreases n,
{
    let s = decimal_digits(n);
    if n < 10 {
        assert(s.drop_last() =~= Seq::empty());
        assert(decimal_value(s.drop_last()) == 0);
    } else {
        lemma_decimal_digits(n / 10);
        assert(s.drop_last() =~= decimal_digits(n / 10));
    }
}

/// Every `i64` is read back from how it is written.
pub proof fn law_rendered_number_is_read_back(n: i64)
    ensures
        decimal_i64(rendered(n as int)) == Some(n),
{
    let s = rendered(n as int);
    if n < 0 {
        lemma_decimal_digits(-n);
        assert(s.skip(1) =~= decimal_digits(-n));
        assert(!digit(s[0]));
    } else {
        lemma_decimal_digits(n as int);
    }
}

/// The number that the digits of `s` write, if there is nothing but digits and it is at most
/// `limit`.
fn digits_up_to(s: &str, limit: u64) -> (res: Option<u64>)
    ensures
        res is Some <==> digits(s@) && decimal_value(s@) <= limit,
        res matches Some(n) ==> n == decimal_value(s@),
{
    let mut total: u64 = 0;
    let mut overflow: bool = false;
    let chars = s.chars();
    for c in it: chars
        invariant
            it.seq() == s@,
            forall|i: int| 0 <= i < it.index() ==> digit(#[trigger] s@[i]),
            !overflow ==> total <= limit && total == decimal_value(s@.take(it.index() as int)),
            overflow ==> decimal_value(s@.take(it.index() as int)) > limit,
    {
        if c < '0' || '9' < c {
            return None;
        }
        let value: u64 = c as u64 - '0' as u64;
        assert(s@.take(it.index() + 1).drop_last() =~= s@.take(it.index() as int));
        if !overflow {
            let next: u128 = total as u128 * 10 + value as u128;
            if next > limit as u128 {
                overflow = true;
            } else {
                total = next as u64;
            }
        }
    }
    assert(s@.take(s@.len() as int) =~= s@);
    if overflow || s.is_empty() {
        None
    } else {
        Some(total)
    }
}

/// The number that `s` writes, where an `i64` can hold it: a run of digits with at most one sign
/// before it, and nothing else.
pub fn parse_i64(s: &str) -> (res: Option<i64>)
    ensures
        res == decimal_i64(s@),
{
    if s.is_empty() {
        return None;
    }
    let first: char = s.get_char(0);
    assert(!digit('+') && !digit('-'));
    if first == '-' {
        let rest = s.substring_char(1, s.unicode_len());
        assert(rest@ =~= s@.skip(1));
        match digits_up_to(rest, 0x8000_0000_0000_0000) {
            Some(n) => Some((-(n as i128)) as i64),
            None => None,
        }
    } else if first == '+' {
        let rest = s.substring_char(1, s.unicode_len());
        assert(rest@ =~= s@.skip(1));
        match digits_up_to(rest, 0x7FFF_FFFF_FFFF_FFFF) {
            Some(n) => Some(n as i64),
            None => None,
        }
    } else {
        match digits_up_to(s, 0x7FFF_FFFF_FFFF_FFFF) {
            Some(n) => Some(n as i64),
            None => None,
        }
    }
}

/// `s` in lower case, as Unicode maps it.
pub uninterp spec fn lowercased(s: Seq<char>) -> Seq<char>;

/// `c` in upper case, as Unicode maps it: one or more characters.
pub uninterp spec fn uppercased(c: char) -> Seq<char>;

/// Calls `str::to_lowercase`. Taken on trust: the result depends on the characters alone.
#[verifier::external_body]
pub(crate) fn lowercase(s: &str) -> (res: String)
    ensures
        res@ == lowercased(s@),
{
    s.to_lowercase()
}

/// Calls `char::to_uppercase`. Taken on trust: the result depends on the character alone.
#[verifier::external_body]
pub(crate) fn uppercase(c: char) -> (res: String)
    ensures
        res@ == uppercased(c),
{
    c.to_uppercase().to_string()
}

/// Specifies `String::push`: the character goes to the end.
pub assume_specification[ String::push ](s: &mut String, c: char)
    ensures
        final(s)@ == old(s)@.push(c),
;

/// `s` with its first character in upper case.
pub open spec fn capitalized(s: Seq<char>) -> Seq<char> {
    if s.len() == 0 {
        s
    } else {
        uppercased(s[0]) + s.skip(1)
    }
}

/// `s` with its first character in upper case.
pub fn capitalize(s: &str) -> (res: String)
    ensures
        res@ == capitalized(s@),
{
    if s.is_empty() {
        return String::new();
    }
    let mut res = uppercase(s.get_char(0));
    let rest = s.substring_char(1, s.unicode_len());
    assert(rest@ =~= s@.skip(1));
    res.append(rest);
    res
}

/// Capitalizing a second time changes nothing exactly where the first character of what the first
/// one became is its own upper case.
pub proof fn law_capitalizing_settles(s: Seq<char>)
    requires
        s.len() > 0 ==> uppercased(s[0]).len() > 0,
    ensures
        capitalized(capitalized(s)) == capitalized(s) <==> (s.len() > 0 ==> uppercased(
            uppercased(s[0])[0],
        ) == seq![uppercased(s[0])[0]]),
{
    if s.len() > 0 {
        let once = capitalized(s);
        let twice = capitalized(once);
        let first = uppercased(s[0])[0];
        assert(once[0] == first);
        if uppercased(first) == seq![first] {
            assert(twice =~= once);
        }
        if twice == once {
            assert(twice.len() == uppercased(first).len() + once.len() - 1);
            assert(uppercased(first).len() == 1);
            assert(twice[0] == uppercased(first)[0]);
            assert(uppercased(first) =~= seq![first]);
        }
    }
}

/// `a` followed by `b`.
pub(crate) fn concat(a: &str, b: &str) -> (res: String)
    ensures
        res@ == a@ + b@,
{
    let mut res = a.to_owned();
    res.append(b);
    res
}

/// Where the first line of `s` ends: the index of the first newline, or the length.
pub open spec fn line_end(s: Seq<char>) -> int
    decreases s.len(),
{
    if s.len() == 0 || s[0] == '\n' {
        0
    } else {
        1 + line_end(s.skip(1))
    }
}

/// A line without the carriage return that a newline may have before it.
pub open spec fn without_return(line: Seq<char>) -> Seq<char> {
    if line.len() > 0 && line.last() == '\r' {
        line.drop_last()
    } else {
        line
    }
}

/// The lines of `s`. A newline ends a line, and a carriage return before it belongs to the line
/// ending; the last line needs none.
pub open spec fn lines(s: Seq<char>) -> Seq<Seq<char>>
    decreases s.len(),
    via lines_decreases
{
    if s.len() == 0 {
        Seq::empty()
    } else if line_end(s) >= s.len() {
        seq![s]
    } else {
        seq![without_return(s.take(line_end(s)))] + lines(s.skip(line_end(s) + 1))
    }
}

#[via_fn]
proof fn lines_decreases(s: Seq<char>) {
    lemma_line_end(s);
}

/// `line_end` is where the first newline is.
proof fn lemma_line_end(s: Seq<char>)
    ensures
        0 <= line_end(s) <= s.len(),
        forall|i: int| 0 <= i < line_end(s) ==> s[i] != '\n',
        line_end(s) < s.len() ==> s[line_end(s)] == '\n',
    decreases s.len(),
{
    if s.len() > 0 && s[0] != '\n' {
        lemma_line_end(s.skip(1));
        assert forall|i: int| 0 <= i < line_end(s) implies s[i] != '\n' by {
            if i > 0 {
                assert(s.skip(1)[i - 1] == s[i]);
            }
        }
    }
}

/// There is only one place where the first newline can be.
proof fn lemma_line_end_is(s: Seq<char>, k: int)
    requires
        0 <= k <= s.len(),
        forall|i: int| 0 <= i < k ==> s[i] != '\n',
        k < s.len() ==> s[k] == '\n',
    ensures
        line_end(s) == k,
{
    lemma_line_end(s);
}

/// The views of a list of strings.
pub open spec fn views(list: Seq<String>) -> Seq<Seq<char>> {
    list.map_values(|s: String| s@)
}

/// The lines of `s`.
pub fn split_lines(s: &str) -> (res: Vec<String>)
    ensures
        views(res@) == lines(s@),
{
    let mut done: Vec<String> = Vec::new();
    let mut line = String::new();
    let ghost text = s@;
    assert(views(done@) =~= Seq::<Seq<char>>::empty());
    assert(line@ + text.skip(0) =~= text);
    let chars = s.chars();
    for c in it: chars
        invariant
            it.seq() == text,
            text == s@,
            forall|i: int| 0 <= i < line@.len() ==> line@[i] != '\n',
            lines(text) =~= views(done@) + lines(line@ + text.skip(it.index() as int)),
    {
        let ghost before = line@;
        let ghost rest = text.skip(it.index() as int);
        let ghost tail = text.skip(it.index() + 1);
        assert(rest.len() > 0 && rest[0] == c);
        if c == '\n' {
            proof {
                let whole = before + rest;
                lemma_line_end_is(whole, before.len() as int);
                assert(whole.take(before.len() as int) =~= before);
                assert(whole.skip(before.len() as int + 1) =~= tail);
                assert(Seq::<char>::empty() + tail =~= tail);
            }
            let ended = strip_return(line);
            let ghost old_done = done@;
            done.push(ended);
            assert(views(done@) =~= views(old_done).push(ended@));
            line = String::new();
        } else {
            line.push(c);
            assert(line@ + tail =~= before + rest);
        }
    }
    assert(line@ + text.skip(text.len() as int) =~= line@);
    if !line.as_str().is_empty() {
        proof {
            lemma_line_end_is(line@, line@.len() as int);
        }
        let ghost old_done = done@;
        done.push(line);
        assert(views(done@) =~= views(old_done).push(line@));
    }
    done
}

/// A line without the carriage return at its end, if there is one.
fn strip_return(line: String) -> (res: String)
    ensures
        res@ == without_return(line@),
{
    let len: usize = line.as_str().unicode_len();
    if len > 0 && line.as_str().get_char(len - 1) == '\r' {
        let kept = line.as_str().substring_char(0, len - 1);
        assert(kept@ =~= line@.drop_last());
        kept.to_owned()
    } else {
        line
    }
}

/// What is written to a log for one record: the record and a newline.
pub open spec fn framed(record: Seq<char>) -> Seq<char> {
    record.push('\n')
}

/// What is written to a log for one record: the record and a newline.
pub fn frame_record(record: &str) -> (res: String)
    ensures
        res@ == framed(record@),
{
    let mut res = record.to_owned();
    res.push('\n');
    res
}

/// Whether `record` fits on one line of a log: it holds no newline and does not end in a carriage
/// return.
pub open spec fn one_line(record: Seq<char>) -> bool {
    &&& forall|i: int| 0 <= i < record.len() ==> record[i] != '\n'
    &&& record.len() > 0 ==> record.last() != '\r'
}

/// Whether every line of a log is ended, so that the next record starts a line of its own.
pub open spec fn all_ended(log: Seq<char>) -> bool {
    log.len() == 0 || log.last() == '\n'
}

/// Text after a log whose lines are all ended adds its lines to those of the log.
pub proof fn law_lines_of_sum(log: Seq<char>, more: Seq<char>)
    requires
        all_ended(log),
    ensures
        lines(log + more) == lines(log) + lines(more),
    decreases log.len(),
{
    if log.len() == 0 {
        assert(log + more =~= more);
        assert(lines(log) + lines(more) =~= lines(more));
    } else {
        lemma_line_end(log);
        let k = line_end(log);
        assert(k < log.len()) by {
            if k == log.len() {
                assert(log[log.len() - 1] == '\n');
            }
        }
        lemma_line_end_is(log + more, k);
        assert((log + more).take(k) =~= log.take(k));
        let rest = log.skip(k + 1);
        assert((log + more).skip(k + 1) =~= rest + more);
        law_lines_of_sum(rest, more);
        let first = seq![without_return(log.take(k))];
        assert((first + lines(rest)) + lines(more) =~= first + (lines(rest) + lines(more)));
    }
}

/// Reading a log gives back, after what it held before, the record that was appended to it; and
/// the log is then ready for the next record.
pub proof fn law_appended_record_is_read_back(log: Seq<char>, record: Seq<char>)
    requires
        all_ended(log),
        one_line(record),
    ensures
        lines(log + framed(record)) == lines(log).push(record),
        all_ended(log + framed(record)),
{
    law_lines_of_sum(log, framed(record));
    let line = framed(record);
    lemma_line_end_is(line, record.len() as int);
    assert(line.take(record.len() as int) =~= record);
    assert(line.skip(record.len() as int + 1) =~= Seq::<char>::empty());
    assert(lines(Seq::<char>::empty()) =~= Seq::<Seq<char>>::empty());
    assert(lines(line) =~= seq![record]);
    assert(lines(log) + seq![record] =~= lines(log).push(record));
}

/// What a log holds after the records were appended to an empty one, in their order.
pub open spec fn log_of(records: Seq<Seq<char>>) -> Seq<char>
    decreases records.len(),
{
    if records.len() == 0 {
        Seq::empty()
    } else {
        log_of(records.drop_last()) + framed(records.last())
    }
}

/// Reading a log gives back the records that were written to it, in their order.
pub proof fn law_written_log_is_read_back(records: Seq<Seq<char>>)
    requires
        forall|i: int| 0 <= i < records.len() ==> one_line(#[trigger] records[i]),
    ensures
        lines(log_of(records)) == records,
        all_ended(log_of(records)),
    decreases records.len(),
{
    if records.len() > 0 {
        let before = records.drop_last();
        assert forall|i: int| 0 <= i < before.len() implies one_line(#[trigger] before[i]) by {
            assert(before[i] == records[i]);
        }
        law_written_log_is_read_back(before);
        assert(one_line(records[records.len() - 1]));
        law_appended_record_is_read_back(log_of(before), records.last());
        assert(records =~= before.push(records.last()));
    } else {
        assert(lines(Seq::<char>::empty()) =~= records);
    }
}

/// No line that is read holds a newline.
pub proof fn law_lines_hold_no_newline(s: Seq<char>, i: int, j: int)
    requires
        0 <= i < lines(s).len(),
        0 <= j < lines(s)[i].len(),
    ensures
        lines(s)[i][j] != '\n',
    decreases s.len(),
{
    lemma_line_end(s);
    if s.len() > 0 && line_end(s) < s.len() && i > 0 {
        let rest = s.skip(line_end(s) + 1);
        assert(lines(s)[i] == lines(rest)[i - 1]);
        law_lines_hold_no_newline(rest, i - 1, j);
    }
}

/// An optional text is its characters, and none is none.
pub proof fn law_text_of_string(s: String)
    ensures
        text_of(Some(s)) == Some(s@),
        text_of(None) is None,
{
}

/// One character that is no white space keeps a text from being blank, wherever it is; and a text
/// is blank exactly if both of its parts are, wherever it is parted.
pub proof fn law_blank_by_parts(a: Seq<char>, c: char, b: Seq<char>)
    ensures
        blank(Seq::empty()),
        blank(a.push(c) + b) <==> blank(a) && white_space(c) && blank(b),
{
    let all = a.push(c) + b;
    assert(all[a.len() as int] == c);
    assert(forall|i: int| 0 <= i < a.len() ==> all[i] == a[i]);
    assert(forall|i: int| 0 <= i < b.len() ==> all[a.len() + 1 + i] == b[i]);
    if blank(all) {
        assert forall|i: int| 0 <= i < b.len() implies white_space(#[trigger] b[i]) by {
            assert(all[a.len() + 1 + i] == b[i]);
        }
    }
}

/// White space is what separates words, lines and columns: the space, the controls from tab to
/// carriage return, next line, and the separators of Unicode. Nothing that ASCII prints is.
pub proof fn law_white_space_by_code(c: char)
    ensures
        '!' <= c <= '~' ==> !white_space(c),
        white_space(c) <==> {
            let n = c as int;
            ||| 9 <= n <= 13
            ||| n == 32
            ||| n == 0x85
            ||| n == 0xA0
            ||| n == 0x1680
            ||| 0x2000 <= n <= 0x200A
            ||| n == 0x2028
            ||| n == 0x2029
            ||| n == 0x202F
            ||| n == 0x205F
            ||| n == 0x3000
        },
{
}

/// A sign before digits makes the number positive or negative, and any other character among them
/// makes it no number.
pub proof fn law_signs_of_numbers(s: Seq<char>, i: int)
    requires
        digits(s),
    ensures
        signed_decimal(s) == Some(decimal_value(s)),
        signed_decimal(seq!['+'] + s) == Some(decimal_value(s)),
        signed_decimal(seq!['-'] + s) == Some(-decimal_value(s)),
        forall|c: char|
            0 <= i < s.len() && !digit(c) && (i > 0 || s.len() == 1 || (c != '+' && c != '-'))
                ==> #[trigger] signed_decimal(s.update(i, c)) is None,
        signed_decimal(Seq::empty()) is None,
{
    let (plus, minus) = (seq!['+'] + s, seq!['-'] + s);
    assert(plus.skip(1) =~= s && minus.skip(1) =~= s);
    assert(plus[0] == '+' && minus[0] == '-');
    assert forall|c: char|
        0 <= i < s.len() && !digit(c) && (i > 0 || s.len() == 1 || (c != '+' && c != '-'))
        implies #[trigger] signed_decimal(s.update(i, c)) is None by {
        let t = s.update(i, c);
        assert(t[i] == c);
        if i > 0 {
            assert(t.skip(1)[i - 1] == c);
        }
    }
}

/// One more digit makes a number ten times as great, and the digit is added.
pub proof fn law_digits_are_places(s: Seq<char>, d: int)
    requires
        0 <= d <= 9,
    ensures
        decimal_value(s.push(digit_char(d))) == 10 * decimal_value(s) + d,
        decimal_value(Seq::empty()) == 0,
        digit(digit_char(d)),
        forall|c: char| digit(c) <==> 48 <= c as int <= 57,
{
    assert(s.push(digit_char(d)).drop_last() =~= s);
}

/// A number that is written is one of an `i64` exactly if it lies in its range.
pub proof fn law_numbers_have_a_range(s: Seq<char>)
    ensures
        decimal_i64(s) is Some <==> signed_decimal(s) is Some && -0x8000_0000_0000_0000
            <= signed_decimal(s)->0 <= 0x7FFF_FFFF_FFFF_FFFF,
        decimal_i64(s) matches Some(n) ==> signed_decimal(s) == Some(n as int),
{
}

/// Capitalizing takes the first character to its upper case and leaves every other as it is.
pub proof fn law_capitalizing_by_parts(c: char, rest: Seq<char>)
    ensures
        capitalized(seq![c] + rest) == uppercased(c) + rest,
        capitalized(Seq::empty()) == Seq::<char>::empty(),
{
    assert((seq![c] + rest).skip(1) =~= rest);
}

/// The first line of a text ends at its first newline, whatever comes after; a carriage return
/// before that newline is not part of the line, one only; and what has no newline after it is a
/// line as it is.
pub proof fn law_lines_by_parts(line: Seq<char>, rest: Seq<char>)
    requires
        forall|i: int| 0 <= i < line.len() ==> line[i] != '\n',
    ensures
        line.len() == 0 || line.last() != '\r' ==> lines(line.push('\n') + rest) == seq![line]
            + lines(rest),
        lines(line.push('\r').push('\n') + rest) == seq![line] + lines(rest),
        line.len() > 0 ==> lines(line) == seq![line],
        lines(Seq::empty()) == Seq::<Seq<char>>::empty(),
{
    let (bare, back) = (line.push('\n') + rest, line.push('\r').push('\n') + rest);
    let n = line.len() as int;
    lemma_line_end_is(bare, n);
    assert(bare.take(n) =~= line);
    assert(bare.skip(n + 1) =~= rest);
    assert(forall|i: int| 0 <= i < n ==> back[i] == line[i]);
    lemma_line_end_is(back, n + 1);
    assert(back.take(n + 1) =~= line.push('\r'));
    assert(line.push('\r').drop_last() =~= line);
    assert(back.skip(n + 2) =~= rest);
    lemma_line_end_is(line, n);
}

/// Lines that were split off are those of the text, each in its place.
pub proof fn law_split_lines_are_in_place(list: Seq<String>, s: Seq<char>)
    requires
        views(list) == lines(s),
    ensures
        list.len() == lines(s).len(),
        forall|i: int| 0 <= i < list.len() ==> (#[trigger] list[i])@ == lines(s)[i],
{
    assert forall|i: int| 0 <= i < list.len() implies (#[trigger] list[i])@ == lines(s)[i] by {
        assert(views(list)[i] == list[i]@);
    }
}

/// What is written for a record is the record and one more character, a newline.
pub proof fn law_framing_adds_a_newline(record: Seq<char>)
    ensures
        framed(record).len() == record.len() + 1,
        framed(record).take(record.len() as int) == record,
        framed(record).last() == '\n',
{
    assert(framed(record).take(record.len() as int) =~= record);
}

} // verus!
