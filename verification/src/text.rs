//! Text produced for display: decimal numbers, track durations, joined names
//! and comma-separated tag values.

use vstd::prelude::*;
use vstd::string::*;

verus! {

/// The decimal digit character for `d` (`d < 10`).
pub open spec fn digit_char(d: nat) -> char {
    if d == 0 { '0' }
    else if d == 1 { '1' }
    else if d == 2 { '2' }
    else if d == 3 { '3' }
    else if d == 4 { '4' }
    else if d == 5 { '5' }
    else if d == 6 { '6' }
    else if d == 7 { '7' }
    else if d == 8 { '8' }
    else { '9' }
}

/// The decimal representation of `n`, without leading zeros ("0" for zero).
pub open spec fn decimal(n: nat) -> Seq<char>
    decreases n,
{
    if n < 10 {
        seq![digit_char(n)]
    } else {
        decimal(n / 10).push(digit_char(n % 10))
    }
}

fn digit_str(d: u64) -> (s: &'static str)
    requires
        d < 10,
    ensures
        s@ == seq![digit_char(d as nat)],
{
    if d == 0 {
        proof { reveal_strlit("0"); }
        "0"
    } else if d == 1 {
        proof { reveal_strlit("1"); }
        "1"
    } else if d == 2 {
        proof { reveal_strlit("2"); }
        "2"
    } else if d == 3 {
        proof { reveal_strlit("3"); }
        "3"
    } else if d == 4 {
        proof { reveal_strlit("4"); }
        "4"
    } else if d == 5 {
        proof { reveal_strlit("5"); }
        "5"
    } else if d == 6 {
        proof { reveal_strlit("6"); }
        "6"
    } else if d == 7 {
        proof { reveal_strlit("7"); }
        "7"
    } else if d == 8 {
        proof { reveal_strlit("8"); }
        "8"
    } else {
        proof { reveal_strlit("9"); }
        "9"
    }
}

fn push_decimal(out: &mut String, n: u64)
    ensures
        final(out)@ == old(out)@ + decimal(n as nat),
    decreases n,
{
    if n >= 10 {
        push_decimal(out, n / 10);
    }
    out.append(digit_str(n % 10));
    proof {
        if n >= 10 {
            assert(out@ =~= old(out)@ + decimal(n as nat));
        }
    }
}

/// Writes `n` in decimal.
pub fn u64_to_string(n: u64) -> (s: String)
    ensures
        s@ == decimal(n as nat),
{
    let mut s = String::new();
    push_decimal(&mut s, n);
    proof { assert(s@ =~= decimal(n as nat)); }
    s
}


/// A number below one hundred with at least two digits, as `{:02}` writes it.
pub open spec fn two_digits(n: nat) -> Seq<char> {
    if n < 10 { seq!['0'] + decimal(n) } else { decimal(n) }
}

/// A playing time as the song list shows it: `h:mm:ss` from an hour on,
/// `m:ss` below.
pub open spec fn duration_text(secs: nat) -> Seq<char> {
    if secs >= 3600 {
        decimal(secs / 3600) + seq![':'] + two_digits(secs % 3600 / 60) + seq![':'] + two_digits(
            secs % 60,
        )
    } else {
        decimal(secs / 60) + seq![':'] + two_digits(secs % 60)
    }
}

fn push_two_digits(out: &mut String, n: u64)
    requires
        n < 100,
    ensures
        final(out)@ == old(out)@ + two_digits(n as nat),
{
    if n < 10 {
        proof { reveal_strlit("0"); }
        out.append("0");
    }
    push_decimal(out, n);
    proof {
        assert(out@ =~= old(out)@ + two_digits(n as nat));
    }
}

/// Writes a playing time given in milliseconds as the song list shows it;
/// the milliseconds below a whole second are dropped.
pub fn format_duration(length_ms: u64) -> (s: String)
    ensures
        s@ == duration_text((length_ms / 1000) as nat),
{
    let secs: u64 = length_ms / 1000;
    let mut s = String::new();
    proof { reveal_strlit(":"); }
    if secs >= 3600 {
        push_decimal(&mut s, secs / 3600);
        s.append(":");
        push_two_digits(&mut s, secs % 3600 / 60);
        s.append(":");
        push_two_digits(&mut s, secs % 60);
    } else {
        push_decimal(&mut s, secs / 60);
        s.append(":");
        push_two_digits(&mut s, secs % 60);
    }
    proof {
        assert(s@ =~= duration_text(secs as nat));
    }
    s
}

/// An integer in decimal, with a minus sign when negative.
pub open spec fn int_text(n: int) -> Seq<char> {
    if n < 0 { seq!['-'] + decimal((-n) as nat) } else { decimal(n as nat) }
}

/// Writes a signed number in decimal.
pub fn i32_to_string(n: i32) -> (s: String)
    ensures
        s@ == int_text(n as int),
{
    let mut s = String::new();
    if n < 0 {
        proof { reveal_strlit("-"); }
        s.append("-");
        let m: i64 = n as i64;
        push_decimal(&mut s, (-m) as u64);
    } else {
        push_decimal(&mut s, n as u64);
    }
    proof {
        assert(s@ =~= int_text(n as int));
    }
    s
}

/// The parts joined with the separator between each two of them.
pub open spec fn join_texts(parts: Seq<Seq<char>>, sep: Seq<char>) -> Seq<char>
    decreases parts.len(),
{
    if parts.len() == 0 {
        Seq::empty()
    } else if parts.len() == 1 {
        parts[0]
    } else {
        join_texts(parts.drop_last(), sep) + sep + parts.last()
    }
}

/// Joins texts with a separator, as `[String]::join` does.
pub fn join_strings(parts: &Vec<String>, sep: &str) -> (s: String)
    ensures
        s@ == join_texts(parts@.map_values(|p: String| p@), sep@),
{
    let ghost views = parts@.map_values(|p: String| p@);
    let mut s = String::new();
    let mut i: usize = 0;
    proof {
        assert(views.take(0) =~= Seq::<Seq<char>>::empty());
    }
    while i < parts.len()
        invariant
            i <= parts@.len(),
            views == parts@.map_values(|p: String| p@),
            s@ == join_texts(views.take(i as int), sep@),
        decreases parts@.len() - i,
    {
        if i > 0 {
            s.append(sep);
        }
        s.append(parts[i].as_str());
        proof {
            assert(views.take(i + 1).drop_last() =~= views.take(i as int));
            if i == 0 {
                assert(s@ =~= views.take(1)[0]);
            } else {
                assert(s@ =~= join_texts(views.take(i as int), sep@) + sep@ + views[i as int]);
            }
        }
        i = i + 1;
    }
    proof {
        assert(views.take(i as int) =~= views);
    }
    s
}

/// The pieces of a text between its commas, as `str::split(',')` yields them:
/// one piece more than there are commas, empty pieces kept.
pub open spec fn split_commas(s: Seq<char>) -> Seq<Seq<char>>
    decreases s.len(),
{
    if s.len() == 0 {
        seq![Seq::empty()]
    } else {
        let rest = split_commas(s.drop_last());
        if s.last() == ',' {
            rest.push(Seq::empty())
        } else {
            rest.update(rest.len() - 1, rest.last().push(s.last()))
        }
    }
}

/// A text has at least one piece between its commas.
pub proof fn lemma_split_commas_nonempty(s: Seq<char>)
    ensures
        split_commas(s).len() >= 1,
    decreases s.len(),
{
    if s.len() > 0 {
        lemma_split_commas_nonempty(s.drop_last());
    }
}

/// Splits a text at its commas.
pub fn split_at_commas(s: &str) -> (parts: Vec<String>)
    ensures
        parts@.map_values(|p: String| p@) == split_commas(s@),
{
    let n: usize = s.unicode_len();
    let mut parts: Vec<String> = Vec::new();
    let mut start: usize = 0;
    let mut i: usize = 0;
    proof {
        assert(s@.take(0) =~= Seq::<char>::empty());
        assert(split_commas(Seq::<char>::empty()) =~= parts@.map_values(|p: String| p@).push(s@.subrange(0, 0)));
    }
    while i < n
        invariant
            n == s@.len(),
            start <= i <= n,
            split_commas(s@.take(i as int)) =~= parts@.map_values(|p: String| p@).push(s@.subrange(start as int, i as int)),
        decreases n - i,
    {
        let c = s.get_char(i);
        let ghost prev = s@.take(i as int);
        proof {
            assert(s@.take(i + 1).drop_last() =~= prev);
            assert(s@.take(i + 1).last() == c);
        }
        if c == ',' {
            let piece = s.substring_char(start, i);
            parts.push(piece.to_owned());
            start = i + 1;
        }
        i = i + 1;
        proof {
            assert(s@.subrange(start as int, i as int) =~= if c == ',' {
                Seq::empty()
            } else {
                s@.subrange(start as int, i - 1).push(c)
            });
        }
    }
    let piece = s.substring_char(start, n);
    parts.push(piece.to_owned());
    proof {
        assert(s@.take(n as int) =~= s@);
    }
    parts
}

/// Joining the pieces of a text between its commas with commas gives the
/// text back.
pub proof fn lemma_split_join(s: Seq<char>)
    ensures
        join_texts(split_commas(s), seq![',']) == s,
    decreases s.len(),
{
    if s.len() > 0 {
        let t = s.drop_last();
        let rest = split_commas(t);
        lemma_split_join(t);
        lemma_split_commas_nonempty(t);
        if s.last() == ',' {
            assert(rest.push(Seq::empty()).drop_last() =~= rest);
            assert(s =~= t + seq![','] + Seq::<char>::empty());
        } else {
            let upd = rest.update(rest.len() - 1, rest.last().push(s.last()));
            assert(upd.drop_last() =~= rest.drop_last());
            if rest.len() == 1 {
                assert(s =~= rest[0].push(s.last()));
            } else {
                assert(join_texts(rest, seq![',']) == join_texts(rest.drop_last(), seq![',']) + seq![','] + rest.last());
                assert(s =~= t.push(s.last()));
                assert(join_texts(upd, seq![',']) == join_texts(upd.drop_last(), seq![',']) + seq![','] + upd.last());
                assert(s =~= join_texts(rest.drop_last(), seq![',']) + seq![','] + rest.last().push(s.last()));
            }
        }
    } else {
        assert(split_commas(s) =~= seq![Seq::<char>::empty()]);
    }
}

/// No piece between commas holds a comma.
pub proof fn lemma_split_pieces_have_no_comma(s: Seq<char>)
    ensures
        forall|k: int| 0 <= k < split_commas(s).len() ==> !(#[trigger] split_commas(s)[k]).contains(','),
    decreases s.len(),
{
    if s.len() > 0 {
        let t = s.drop_last();
        lemma_split_pieces_have_no_comma(t);
        lemma_split_commas_nonempty(t);
        let rest = split_commas(t);
        if s.last() != ',' {
            let last = rest.last();
            assert forall|k: int| 0 <= k < split_commas(s).len() implies !(#[trigger] split_commas(s)[k]).contains(',') by {
                if k == rest.len() - 1 {
                    assert(!last.contains(','));
                    if last.push(s.last()).contains(',') {
                        let w: int = choose|w: int| 0 <= w < last.push(s.last()).len() && last.push(s.last())[w] == ',';
                        if w < last.len() {
                            assert(last[w] == ',');
                        }
                    }
                }
            }
        } else {
            assert forall|k: int| 0 <= k < split_commas(s).len() implies !(#[trigger] split_commas(s)[k]).contains(',') by {
                if k == rest.len() {
                    assert(split_commas(s)[k] =~= Seq::<char>::empty());
                }
            }
        }
    }
}

/// Every character is a decimal digit.
pub open spec fn all_digits(s: Seq<char>) -> bool {
    forall|i: int| 0 <= i < s.len() ==> '0' <= #[trigger] s[i] <= '9'
}

/// The number that a string of decimal digits reads as.
pub open spec fn digits_value(s: Seq<char>) -> int
    decreases s.len(),
{
    if s.len() == 0 {
        0
    } else {
        digits_value(s.drop_last()) * 10 + (s.last() as int - '0' as int)
    }
}

proof fn lemma_digit_char(d: nat)
    requires
        d < 10,
    ensures
        '0' <= digit_char(d) <= '9',
        digit_char(d) as int - '0' as int == d,
{
}

/// A number's decimal text is digits that read back as the number.
pub proof fn lemma_decimal_reads_back(n: nat)
    ensures
        decimal(n).len() >= 1,
        all_digits(decimal(n)),
        digits_value(decimal(n)) == n,
    decreases n,
{
    let t = decimal(n);
    if n < 10 {
        lemma_digit_char(n);
        assert(t.drop_last() =~= Seq::<char>::empty());
        assert(digits_value(Seq::<char>::empty()) == 0);
        assert(digits_value(t) == digits_value(t.drop_last()) * 10 + (t.last() as int - '0' as int));
    } else {
        lemma_decimal_reads_back(n / 10);
        lemma_digit_char(n % 10);
        assert(t.drop_last() =~= decimal(n / 10));
        assert(t.last() == digit_char(n % 10));
        assert(digits_value(t) == digits_value(t.drop_last()) * 10 + (t.last() as int - '0' as int));
        assert((n / 10) * 10 + n % 10 == n);
    }
}

proof fn lemma_two_digits_read_back(n: nat)
    requires
        n < 100,
    ensures
        two_digits(n).len() == 2,
        all_digits(two_digits(n)),
        digits_value(two_digits(n)) == n,
{
    lemma_decimal_reads_back(n);
    if n < 10 {
        let t = two_digits(n);
        assert(t.drop_last() =~= seq!['0']);
        assert(seq!['0'].drop_last() =~= Seq::<char>::empty());
        assert(digits_value(Seq::<char>::empty()) == 0);
        assert(digits_value(seq!['0']) == 0);
        assert(t.last() == decimal(n).last());
        assert(decimal(n).drop_last() =~= Seq::<char>::empty());
        assert(digits_value(decimal(n)) == decimal(n).last() as int - '0' as int);
        assert(digits_value(t) == digits_value(t.drop_last()) * 10 + (t.last() as int - '0' as int));
    } else {
        lemma_decimal_reads_back(n / 10);
        assert(decimal(n / 10).len() == 1);
    }
}

/// A playing time's text reads back as the time: from an hour on it is
/// hours, two-digit minutes and two-digit seconds between colons, below an
/// hour minutes and two-digit seconds; minutes and seconds are below 60 and
/// the parts add up to the number of seconds.
pub proof fn lemma_duration_reads_back(secs: nat)
    ensures
        ({
            let t = duration_text(secs);
            let n = t.len() as int;
            if secs >= 3600 {
                &&& n >= 7
                &&& t[n - 6] == ':' && t[n - 3] == ':'
                &&& all_digits(t.subrange(0, n - 6))
                &&& all_digits(t.subrange(n - 5, n - 3))
                &&& all_digits(t.subrange(n - 2, n))
                &&& digits_value(t.subrange(n - 5, n - 3)) < 60
                &&& digits_value(t.subrange(n - 2, n)) < 60
                &&& digits_value(t.subrange(0, n - 6)) * 3600 + digits_value(t.subrange(n - 5, n - 3)) * 60
                    + digits_value(t.subrange(n - 2, n)) == secs
            } else {
                &&& n >= 4
                &&& t[n - 3] == ':'
                &&& all_digits(t.subrange(0, n - 3))
                &&& all_digits(t.subrange(n - 2, n))
                &&& digits_value(t.subrange(n - 2, n)) < 60
                &&& digits_value(t.subrange(0, n - 3)) * 60 + digits_value(t.subrange(n - 2, n)) == secs
            }
        }),
{
    let t = duration_text(secs);
    let n = t.len() as int;
    let sec = secs % 60;
    lemma_two_digits_read_back(sec);
    if secs >= 3600 {
        let h = decimal(secs / 3600);
        let m = two_digits(secs % 3600 / 60);
        let s = two_digits(sec);
        lemma_decimal_reads_back(secs / 3600);
        lemma_two_digits_read_back(secs % 3600 / 60);
        assert(t =~= h + seq![':'] + m + seq![':'] + s);
        assert(t.subrange(0, n - 6) =~= h);
        assert(t.subrange(n - 5, n - 3) =~= m);
        assert(t.subrange(n - 2, n) =~= s);
        assert((secs / 3600) * 3600 + (secs % 3600 / 60) * 60 + secs % 60 == secs) by (nonlinear_arith);
    } else {
        let m = decimal(secs / 60);
        let s = two_digits(sec);
        lemma_decimal_reads_back(secs / 60);
        assert(t =~= m + seq![':'] + s);
        assert(t.subrange(0, n - 3) =~= m);
        assert(t.subrange(n - 2, n) =~= s);
        assert((secs / 60) * 60 + secs % 60 == secs) by (nonlinear_arith);
    }
}

/// Joining two non-empty lists of parts is joining each and putting the
/// separator between.
pub proof fn lemma_join_append(a: Seq<Seq<char>>, b: Seq<Seq<char>>, sep: Seq<char>)
    requires
        a.len() > 0,
        b.len() > 0,
    ensures
        join_texts(a + b, sep) == join_texts(a, sep) + sep + join_texts(b, sep),
    decreases b.len(),
{
    if b.len() == 1 {
        assert((a + b).drop_last() =~= a);
        assert((a + b).last() == b[0]);
    } else {
        lemma_join_append(a, b.drop_last(), sep);
        assert((a + b).drop_last() =~= a + b.drop_last());
        assert((a + b).last() == b.last());
        assert(join_texts(a + b, sep) == join_texts(a + b.drop_last(), sep) + sep + b.last());
        assert(join_texts(a, sep) + sep + join_texts(b, sep) =~= join_texts(a, sep) + sep + join_texts(b.drop_last(), sep) + sep + b.last());
    }
}

/// A signed number's text reads back as the number: digits for a number
/// from zero on, a minus sign and the digits of its magnitude below zero.
pub proof fn lemma_int_text_reads_back(n: int)
    ensures
        n >= 0 ==> all_digits(int_text(n)) && int_text(n).len() >= 1 && digits_value(int_text(n)) == n,
        n < 0 ==> int_text(n).len() >= 2 && int_text(n)[0] == '-' && all_digits(int_text(n).skip(1))
            && digits_value(int_text(n).skip(1)) == -n,
{
    if n >= 0 {
        lemma_decimal_reads_back(n as nat);
    } else {
        lemma_decimal_reads_back((-n) as nat);
        assert(int_text(n).skip(1) =~= decimal((-n) as nat));
    }
}

} // verus!
