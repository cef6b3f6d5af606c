//! Plain-text building blocks of the line protocol: whitespace tokens,
//! decimal integers and fixed-point decimal numbers.
use vstd::prelude::*;
use vstd::string::*;

verus! {

/// The characters that separate tokens on a line: the Unicode `White_Space`
/// characters.
pub open spec fn is_space(c: char) -> bool {
    ('\t' <= c && c <= '\r') || c == ' ' || c == '\u{85}' || c == '\u{A0}' || c == '\u{1680}' || (
    '\u{2000}' <= c && c <= '\u{200A}') || c == '\u{2028}' || c == '\u{2029}' || c == '\u{202F}'
        || c == '\u{205F}' || c == '\u{3000}'
}

/// Whether `c` separates tokens.
pub fn is_space_char(c: char) -> (r: bool)
    ensures
        r == is_space(c),
{
    ('\t' <= c && c <= '\r') || c == ' ' || c == '\u{85}' || c == '\u{A0}' || c == '\u{1680}' || (
    '\u{2000}' <= c && c <= '\u{200A}') || c == '\u{2028}' || c == '\u{2029}' || c == '\u{202F}'
        || c == '\u{205F}' || c == '\u{3000}'
}

/// A token: non-empty, with no separator character in it.
pub open spec fn is_token(t: Seq<char>) -> bool {
    t.len() > 0 && forall|i: int| 0 <= i < t.len() ==> !is_space(#[trigger] t[i])
}

/// Text with no separator character in it (possibly empty).
pub open spec fn no_space(t: Seq<char>) -> bool {
    forall|i: int| 0 <= i < t.len() ==> !is_space(#[trigger] t[i])
}

/// Splits `s` into tokens, where `cur` is the token read so far.
pub open spec fn split_from(s: Seq<char>, cur: Seq<char>) -> Seq<Seq<char>>
    decreases s.len(),
{
    if s.len() == 0 {
        if cur.len() == 0 {
            seq![]
        } else {
            seq![cur]
        }
    } else if is_space(s[0]) {
        if cur.len() == 0 {
            split_from(s.drop_first(), cur)
        } else {
            seq![cur] + split_from(s.drop_first(), seq![])
        }
    } else {
        split_from(s.drop_first(), cur.push(s[0]))
    }
}

/// The whitespace-separated tokens of `s`, in order.
pub open spec fn tokens(s: Seq<char>) -> Seq<Seq<char>> {
    split_from(s, seq![])
}

/// Tokens joined by single spaces.
pub open spec fn join(ts: Seq<Seq<char>>) -> Seq<char>
    decreases ts.len(),
{
    if ts.len() == 0 {
        seq![]
    } else if ts.len() == 1 {
        ts[0]
    } else {
        ts[0] + seq![' '] + join(ts.drop_first())
    }
}

/// One protocol line: the tokens joined by spaces, ended by a newline.
pub open spec fn line_of(ts: Seq<Seq<char>>) -> Seq<char> {
    join(ts) + seq!['\n']
}

pub open spec fn all_tokens(ts: Seq<Seq<char>>) -> bool {
    forall|i: int| 0 <= i < ts.len() ==> is_token(#[trigger] ts[i])
}

/// The character views of a sequence of strings.
pub open spec fn views(v: Seq<String>) -> Seq<Seq<char>> {
    v.map_values(|t: String| t@)
}

/// Reading a run of non-separators extends the current token.
pub proof fn lemma_split_word(t: Seq<char>, r: Seq<char>, cur: Seq<char>)
    requires
        no_space(t),
    ensures
        split_from(t + r, cur) == split_from(r, cur + t),
    decreases t.len(),
{
    if t.len() == 0 {
        assert(t + r =~= r);
        assert(cur + t =~= cur);
    } else {
        let s = t + r;
        assert(s[0] == t[0]);
        assert(!is_space(t[0]));
        assert(s.drop_first() =~= t.drop_first() + r);
        lemma_split_word(t.drop_first(), r, cur.push(t[0]));
        assert(cur.push(t[0]) + t.drop_first() =~= cur + t);
    }
}

/// A line made of tokens splits back into exactly those tokens.
pub proof fn lemma_tokens_of_line(ts: Seq<Seq<char>>)
    requires
        all_tokens(ts),
    ensures
        tokens(line_of(ts)) == ts,
    decreases ts.len(),
{
    let nl = seq!['\n'];
    assert(split_from(seq![], seq![]) == Seq::<Seq<char>>::empty());
    if ts.len() == 0 {
        assert(line_of(ts) =~= nl);
        assert(nl.drop_first() =~= Seq::<char>::empty());
        assert(ts =~= Seq::<Seq<char>>::empty());
    } else if ts.len() == 1 {
        assert(is_token(ts[0]));
        assert(line_of(ts) =~= ts[0] + nl);
        lemma_split_word(ts[0], nl, seq![]);
        assert(Seq::<char>::empty() + ts[0] =~= ts[0]);
        assert(nl.drop_first() =~= Seq::<char>::empty());
        assert(split_from(nl, ts[0]) =~= seq![ts[0]] + split_from(Seq::<char>::empty(), seq![]));
        assert(ts =~= seq![ts[0]]);
    } else {
        let rest = ts.drop_first();
        assert(is_token(ts[0]));
        assert forall|i: int| 0 <= i < rest.len() implies is_token(#[trigger] rest[i]) by {
            assert(rest[i] == ts[i + 1]);
        }
        lemma_tokens_of_line(rest);
        let tail = seq![' '] + line_of(rest);
        assert(line_of(ts) =~= ts[0] + tail);
        lemma_split_word(ts[0], tail, seq![]);
        assert(Seq::<char>::empty() + ts[0] =~= ts[0]);
        assert(tail.drop_first() =~= line_of(rest));
        assert(split_from(tail, ts[0]) == seq![ts[0]] + split_from(line_of(rest), seq![]));
        assert(ts =~= seq![ts[0]] + rest);
    }
}

pub proof fn lemma_split_from_tokens(s: Seq<char>, cur: Seq<char>)
    requires
        no_space(cur),
    ensures
        all_tokens(split_from(s, cur)),
    decreases s.len(),
{
    if s.len() == 0 {
    } else if is_space(s[0]) {
        if cur.len() == 0 {
            lemma_split_from_tokens(s.drop_first(), cur);
        } else {
            lemma_split_from_tokens(s.drop_first(), seq![]);
            let r = split_from(s.drop_first(), seq![]);
            assert forall|i: int| 0 <= i < r.len() + 1 implies is_token(#[trigger] (seq![cur] + r)[i]) by {
                if i > 0 {
                    assert((seq![cur] + r)[i] == r[i - 1]);
                }
            }
        }
    } else {
        let c2 = cur.push(s[0]);
        assert forall|i: int| 0 <= i < c2.len() implies !is_space(#[trigger] c2[i]) by {
            if i < cur.len() {
                assert(c2[i] == cur[i]);
            }
        }
        lemma_split_from_tokens(s.drop_first(), c2);
    }
}

/// Every token of a text is a token.
pub proof fn lemma_tokens_are_tokens(s: Seq<char>)
    ensures
        all_tokens(tokens(s)),
{
    lemma_split_from_tokens(s, seq![]);
}

/// Joining one more token adds a space and the token.
pub proof fn lemma_join_push(ts: Seq<Seq<char>>, t: Seq<char>)
    requires
        ts.len() >= 1,
    ensures
        join(ts.push(t)) == join(ts) + seq![' '] + t,
    decreases ts.len(),
{
    if ts.len() == 1 {
        assert(ts.push(t).drop_first() =~= seq![t]);
        assert(join(seq![t]) == t);
    } else {
        lemma_join_push(ts.drop_first(), t);
        assert(ts.push(t).drop_first() =~= ts.drop_first().push(t));
        assert(join(ts.push(t)) =~= ts[0] + seq![' '] + (join(ts.drop_first()) + seq![' '] + t));
    }
}

/// The line that joins the given tokens by spaces and ends with a newline.
pub fn join_line(ts: &Vec<String>) -> (r: String)
    ensures
        r@ == line_of(views(ts@)),
{
    let mut out = String::new();
    let n = ts.len();
    proof {
        reveal_strlit(" ");
        reveal_strlit("\n");
    }
    assert(" "@ =~= seq![' ']);
    assert("\n"@ =~= seq!['\n']);
    if n == 0 {
        out.append("\n");
        assert(views(ts@) =~= Seq::<Seq<char>>::empty());
        assert(out@ =~= line_of(views(ts@)));
        return out;
    }
    out.append(ts[0].as_str());
    assert(views(ts@).take(1) =~= seq![ts@[0]@]);
    assert(out@ =~= ts@[0]@);
    let mut i: usize = 1;
    while i < n
        invariant
            n == ts@.len(),
            1 <= i <= n,
            out@ == join(views(ts@).take(i as int)),
        decreases n - i,
    {
        let ghost before = out@;
        proof {
            reveal_strlit(" ");
        }
        assert(" "@ =~= seq![' ']);
        out.append(" ");
        out.append(ts[i].as_str());
        assert(out@ =~= before + seq![' '] + ts@[i as int]@);
        proof {
            lemma_join_push(views(ts@).take(i as int), ts@[i as int]@);
            assert(views(ts@).take(i as int).push(ts@[i as int]@) =~= views(ts@).take(i + 1));
        }
        i = i + 1;
    }
    assert(views(ts@).take(n as int) =~= views(ts@));
    proof {
        reveal_strlit("\n");
    }
    assert("\n"@ =~= seq!['\n']);
    out.append("\n");
    out
}

/// The tokens `ts[from..]` joined by single spaces.
pub fn join_from(ts: &Vec<String>, from: usize) -> (r: String)
    requires
        from <= ts@.len(),
    ensures
        r@ == join(views(ts@).skip(from as int)),
{
    let mut out = String::new();
    let n = ts.len();
    let ghost w = views(ts@).skip(from as int);
    if from == n {
        assert(w =~= Seq::<Seq<char>>::empty());
        return out;
    }
    out.append(ts[from].as_str());
    assert(w.take(1) =~= seq![ts@[from as int]@]);
    assert(out@ =~= ts@[from as int]@);
    let mut i: usize = from + 1;
    while i < n
        invariant
            n == ts@.len(),
            from < i <= n,
            w == views(ts@).skip(from as int),
            out@ == join(w.take(i - from)),
        decreases n - i,
    {
        let ghost before = out@;
        proof {
            reveal_strlit(" ");
        }
        assert(" "@ =~= seq![' ']);
        out.append(" ");
        out.append(ts[i].as_str());
        assert(out@ =~= before + seq![' '] + ts@[i as int]@);
        proof {
            lemma_join_push(w.take(i - from), ts@[i as int]@);
            assert(w.take(i - from).push(ts@[i as int]@) =~= w.take(i + 1 - from));
        }
        i = i + 1;
    }
    assert(w.take(n - from) =~= w);
    out
}

/// Whether `t` holds exactly the characters of `lit`.
pub fn text_is(t: &str, lit: &str) -> (r: bool)
    ensures
        r == (t@ == lit@),
{
    let n = t.unicode_len();
    let m = lit.unicode_len();
    if n != m {
        return false;
    }
    let mut i: usize = 0;
    while i < n
        invariant
            n == t@.len(),
            m == lit@.len(),
            n == m,
            i <= n,
            forall|j: int| 0 <= j < i ==> t@[j] == lit@[j],
        decreases n - i,
    {
        if t.get_char(i) != lit.get_char(i) {
            return false;
        }
        i = i + 1;
    }
    assert(t@ =~= lit@);
    true
}

/// Splits `s` into its whitespace-separated tokens.
pub fn split_tokens(s: &str) -> (r: Vec<String>)
    ensures
        views(r@) == tokens(s@),
{
    let n = s.unicode_len();
    let mut out: Vec<String> = Vec::new();
    let mut start: usize = 0;
    let mut i: usize = 0;
    assert(s@.skip(0) =~= s@);
    assert(s@.subrange(0, 0) =~= Seq::<char>::empty());
    assert(views(out@) + tokens(s@) =~= tokens(s@));
    while i < n
        invariant
            n == s@.len(),
            start <= i <= n,
            tokens(s@) == views(out@) + split_from(s@.skip(i as int), s@.subrange(start as int, i as int)),
        decreases n - i,
    {
        let c = s.get_char(i);
        let ghost rest = s@.skip(i as int);
        let ghost cur = s@.subrange(start as int, i as int);
        assert(rest[0] == c);
        assert(rest.drop_first() =~= s@.skip(i + 1));
        if is_space_char(c) {
            assert(is_space(c));
            if start < i {
                let ghost before = views(out@);
                let t = s.substring_char(start, i).to_owned();
                out.push(t);
                assert(views(out@) =~= before + seq![cur]);
                assert(s@.subrange(i + 1, i + 1) =~= Seq::<char>::empty());
            } else {
                assert(cur =~= Seq::<char>::empty());
                assert(s@.subrange(i + 1, i + 1) =~= Seq::<char>::empty());
            }
            start = i + 1;
        } else {
            assert(!is_space(c));
            assert(cur.push(c) =~= s@.subrange(start as int, i + 1));
        }
        i = i + 1;
    }
    let ghost last = s@.subrange(start as int, n as int);
    assert(s@.skip(n as int) =~= Seq::<char>::empty());
    if start < n {
        let ghost before = views(out@);
        let t = s.substring_char(start, n).to_owned();
        out.push(t);
        assert(views(out@) =~= before + seq![last]);
    } else {
        assert(last =~= Seq::<char>::empty());
        assert(views(out@) + Seq::<Seq<char>>::empty() =~= views(out@));
    }
    out
}


pub open spec fn is_digit(c: char) -> bool {
    '0' <= c && c <= '9'
}

pub open spec fn digit_value(c: char) -> int {
    c as int - '0' as int
}

/// The decimal digit character for `d` (for `0 <= d < 10`).
pub open spec fn digit_char(d: int) -> char {
    seq!['0', '1', '2', '3', '4', '5', '6', '7', '8', '9'][d]
}

pub open spec fn all_digits(s: Seq<char>) -> bool {
    forall|i: int| 0 <= i < s.len() ==> is_digit(#[trigger] s[i])
}

/// A non-empty run of decimal digits.
pub open spec fn is_digit_run(s: Seq<char>) -> bool {
    s.len() > 0 && all_digits(s)
}

/// The number that a run of decimal digits denotes.
pub open spec fn digits_value(s: Seq<char>) -> int
    decreases s.len(),
{
    if s.len() == 0 {
        0
    } else {
        digits_value(s.drop_last()) * 10 + digit_value(s.last())
    }
}

/// The shortest decimal text of `n`.
pub open spec fn nat_text(n: nat) -> Seq<char>
    decreases n,
{
    if n < 10 {
        seq![digit_char(n as int)]
    } else {
        nat_text(n / 10).push(digit_char((n % 10) as int))
    }
}

/// Decimal text of an integer: a minus sign before a negative one.
pub open spec fn int_text(v: int) -> Seq<char> {
    if v < 0 {
        seq!['-'] + nat_text((-v) as nat)
    } else {
        nat_text(v as nat)
    }
}

/// What a decimal integer token denotes: an optional sign, then digits.
pub open spec fn parse_int(s: Seq<char>) -> Option<int> {
    if s.len() > 0 && s[0] == '-' {
        if is_digit_run(s.drop_first()) {
            Some(-digits_value(s.drop_first()))
        } else {
            None
        }
    } else if s.len() > 0 && s[0] == '+' {
        if is_digit_run(s.drop_first()) {
            Some(digits_value(s.drop_first()))
        } else {
            None
        }
    } else if is_digit_run(s) {
        Some(digits_value(s))
    } else {
        None
    }
}

pub proof fn lemma_digit_char(d: int)
    requires
        0 <= d < 10,
    ensures
        is_digit(digit_char(d)),
        digit_value(digit_char(d)) == d,
        !is_space(digit_char(d)),
{
}

pub proof fn lemma_digits_value_nonneg(s: Seq<char>)
    requires
        all_digits(s),
    ensures
        digits_value(s) >= 0,
    decreases s.len(),
{
    if s.len() > 0 {
        lemma_digits_value_nonneg(s.drop_last());
    }
}

pub proof fn lemma_nat_text(n: nat)
    ensures
        is_digit_run(nat_text(n)),
        digits_value(nat_text(n)) == n,
    decreases n,
{
    if n < 10 {
        lemma_digit_char(n as int);
        let t = nat_text(n);
        assert(t.drop_last() =~= Seq::<char>::empty());
        assert(digits_value(t.drop_last()) == 0);
        assert(t.last() == digit_char(n as int));
        assert(digits_value(t) == digit_value(digit_char(n as int)));
    } else {
        lemma_nat_text(n / 10);
        lemma_digit_char((n % 10) as int);
        let t = nat_text(n);
        assert(t.drop_last() =~= nat_text(n / 10));
        assert(t.last() == digit_char((n % 10) as int));
        assert(digits_value(t) == (n / 10) * 10 + n % 10);
        assert forall|i: int| 0 <= i < t.len() implies is_digit(#[trigger] t[i]) by {
            if i < t.len() - 1 {
                assert(t[i] == nat_text(n / 10)[i]);
            }
        }
    }
}

pub proof fn lemma_int_text(v: int)
    ensures
        parse_int(int_text(v)) == Some(v),
        is_token(int_text(v)),
{
    if v < 0 {
        let d = nat_text((-v) as nat);
        lemma_nat_text((-v) as nat);
        let t = int_text(v);
        assert(t.drop_first() =~= d);
        assert forall|i: int| 0 <= i < t.len() implies !is_space(#[trigger] t[i]) by {
            if i > 0 {
                assert(t[i] == d[i - 1]);
            }
        }
    } else {
        lemma_nat_text(v as nat);
        let t = int_text(v);
        assert(is_digit(t[0]));
    }
}

/// The one-character string of a decimal digit.
fn digit_str(d: u64) -> (r: &'static str)
    requires
        d < 10,
    ensures
        r@ == seq![digit_char(d as int)],
{
    proof {
        reveal_strlit("0");
        reveal_strlit("1");
        reveal_strlit("2");
        reveal_strlit("3");
        reveal_strlit("4");
        reveal_strlit("5");
        reveal_strlit("6");
        reveal_strlit("7");
        reveal_strlit("8");
        reveal_strlit("9");
    }
    match d {
        0 => "0",
        1 => "1",
        2 => "2",
        3 => "3",
        4 => "4",
        5 => "5",
        6 => "6",
        7 => "7",
        8 => "8",
        _ => "9",
    }
}

/// Appends the decimal text of `n`.
pub fn push_nat(out: &mut String, n: u64)
    ensures
        final(out)@ == old(out)@ + nat_text(n as nat),
    decreases n,
{
    if n >= 10 {
        push_nat(out, n / 10);
    }
    out.append(digit_str(n % 10));
    proof {
        if n >= 10 {
            assert(old(out)@ + nat_text(n as nat) =~= old(out)@ + nat_text((n / 10) as nat) + seq![digit_char((n % 10) as int)]);
        } else {
            assert(old(out)@ + nat_text(n as nat) =~= old(out)@ + seq![digit_char((n % 10) as int)]);
        }
    }
}

/// Appends the decimal text of `v`.
pub fn push_int(out: &mut String, v: i64)
    ensures
        final(out)@ == old(out)@ + int_text(v as int),
{
    if v < 0 {
        proof {
            reveal_strlit("-");
        }
        out.append("-");
        let m: u64 = (-(v as i128)) as u64;
        push_nat(out, m);
        assert(old(out)@ + int_text(v as int) =~= old(out)@ + seq!['-'] + nat_text(m as nat));
    } else {
        push_nat(out, v as u64);
    }
}

/// Reads the digit run `s[from..to]`, if its value is at most `limit`.
pub fn read_digits(s: &str, from: usize, to: usize, limit: u64) -> (r: Option<u64>)
    requires
        from <= to <= s@.len(),
        limit <= 1_000_000_000_000_000_000,
    ensures
        r == (if is_digit_run(s@.subrange(from as int, to as int)) && digits_value(
            s@.subrange(from as int, to as int),
        ) <= limit {
            Some(digits_value(s@.subrange(from as int, to as int)) as u64)
        } else {
            None
        }),
        r matches Some(v) ==> v <= limit && v as int == digits_value(s@.subrange(from as int, to as int)),
{
    let ghost t = s@.subrange(from as int, to as int);
    if from == to {
        return None;
    }
    let mut acc: u64 = 0;
    let mut over = false;
    let mut i: usize = from;
    assert(t.take(0) =~= Seq::<char>::empty());
    while i < to
        invariant
            from <= i <= to <= s@.len(),
            t == s@.subrange(from as int, to as int),
            limit <= 1_000_000_000_000_000_000,
            all_digits(t.take(i - from)),
            !over ==> acc == digits_value(t.take(i - from)) && acc <= limit,
            over ==> digits_value(t.take(i - from)) > limit,
        decreases to - i,
    {
        let c = s.get_char(i);
        let ghost k = i - from;
        assert(t[k] == c);
        assert(t.take(k + 1).drop_last() =~= t.take(k));
        assert(t.take(k + 1).last() == c);
        if !('0' <= c && c <= '9') {
            assert(!all_digits(t));
            return None;
        }
        assert(all_digits(t.take(k + 1))) by {
            assert forall|j: int| 0 <= j < k + 1 implies is_digit(#[trigger] t.take(k + 1)[j]) by {
                if j < k {
                    assert(t.take(k + 1)[j] == t.take(k)[j]);
                }
            }
        }
        let d = (c as u32 - '0' as u32) as u64;
        proof {
            lemma_digits_value_nonneg(t.take(k));
        }
        if !over {
            let next = acc * 10 + d;
            if next > limit {
                over = true;
            } else {
                acc = next;
            }
        } else {
            assert(digits_value(t.take(k + 1)) >= digits_value(t.take(k)));
        }
        i = i + 1;
    }
    assert(t.take(t.len() as int) =~= t);
    proof {
        lemma_digits_value_nonneg(t);
    }
    if over {
        None
    } else {
        Some(acc)
    }
}

/// What `parse_int` gives when the value fits an `i32`.
pub open spec fn parse_i32_spec(s: Seq<char>) -> Option<i32> {
    match parse_int(s) {
        Some(v) => if i32::MIN <= v <= i32::MAX {
            Some(v as i32)
        } else {
            None
        },
        None => None,
    }
}

/// Parses a decimal `i32` token: an optional sign, then digits.
pub fn parse_i32(s: &str) -> (r: Option<i32>)
    ensures
        r == parse_i32_spec(s@),
{
    let n = s.unicode_len();
    if n == 0 {
        return None;
    }
    let c = s.get_char(0);
    assert(s@.subrange(1, n as int) =~= s@.drop_first());
    assert(s@.subrange(0, n as int) =~= s@);
    if c == '-' {
        match read_digits(s, 1, n, 2147483648) {
            Some(v) => Some((-(v as i64)) as i32),
            None => None,
        }
    } else if c == '+' {
        match read_digits(s, 1, n, 2147483647) {
            Some(v) => Some(v as i32),
            None => None,
        }
    } else {
        match read_digits(s, 0, n, 2147483647) {
            Some(v) => Some(v as i32),
            None => None,
        }
    }
}

/// Units of a fixed-point amount per whole unit: six decimal places.
pub const SCALE: u64 = 1_000_000;

pub open spec fn pow10(k: nat) -> nat
    decreases k,
{
    if k == 0 {
        1
    } else {
        10 * pow10((k - 1) as nat)
    }
}

/// The position of the first `c` in `s`, or the length of `s` if there is none.
pub open spec fn index_of(s: Seq<char>, c: char) -> int
    decreases s.len(),
{
    if s.len() == 0 {
        0
    } else if s[0] == c {
        0
    } else {
        1 + index_of(s.drop_first(), c)
    }
}

/// What unsigned fixed-point text denotes, in millionths: digits, then
/// optionally a point and one to six digits.
pub open spec fn parse_unsigned_fixed(b: Seq<char>) -> Option<int> {
    let k = index_of(b, '.');
    let ip = b.take(k);
    if !is_digit_run(ip) {
        None
    } else if k == b.len() {
        Some(digits_value(ip) * SCALE)
    } else {
        let fp = b.skip(k + 1);
        if is_digit_run(fp) && fp.len() <= 6 {
            Some(digits_value(ip) * SCALE + digits_value(fp) * pow10((6 - fp.len()) as nat))
        } else {
            None
        }
    }
}

/// What fixed-point text denotes, in millionths: an optional minus sign,
/// then unsigned fixed-point text.
pub open spec fn parse_fixed(s: Seq<char>) -> Option<int> {
    if s.len() > 0 && s[0] == '-' {
        match parse_unsigned_fixed(s.drop_first()) {
            Some(v) => Some(-v),
            None => None,
        }
    } else {
        parse_unsigned_fixed(s)
    }
}

/// What `parse_fixed` gives when the value fits an `i64`.
pub open spec fn parse_fixed_i64(s: Seq<char>) -> Option<i64> {
    match parse_fixed(s) {
        Some(v) => if i64::MIN <= v <= i64::MAX {
            Some(v as i64)
        } else {
            None
        },
        None => None,
    }
}

/// Drops trailing zero digits of the `w`-digit fraction `f`.
pub open spec fn trim_zeros(f: nat, w: nat) -> (nat, nat)
    decreases w,
{
    if w > 0 && f % 10 == 0 {
        trim_zeros(f / 10, (w - 1) as nat)
    } else {
        (f, w)
    }
}

/// `d` written with exactly `w` digits, zeros in front.
pub open spec fn padded(d: nat, w: nat) -> Seq<char>
    decreases w,
{
    if w == 0 {
        seq![]
    } else {
        padded(d / 10, (w - 1) as nat).push(digit_char((d % 10) as int))
    }
}

/// The shortest text of a non-negative amount of millionths: the whole
/// part, then a point and the fraction without trailing zeros, if any.
pub open spec fn unsigned_fixed_text(m: nat) -> Seq<char> {
    let f = m % SCALE as nat;
    if f == 0 {
        nat_text(m / SCALE as nat)
    } else {
        nat_text(m / SCALE as nat) + seq!['.'] + padded(trim_zeros(f, 6).0, trim_zeros(f, 6).1)
    }
}

/// The shortest text of an amount of millionths.
pub open spec fn fixed_text(v: int) -> Seq<char> {
    if v < 0 {
        seq!['-'] + unsigned_fixed_text((-v) as nat)
    } else {
        unsigned_fixed_text(v as nat)
    }
}

pub proof fn lemma_pow10_six()
    ensures
        pow10(6) == 1_000_000,
{
    assert(pow10(0) == 1);
    assert(pow10(1) == 10);
    assert(pow10(2) == 100);
    assert(pow10(3) == 1000);
    assert(pow10(4) == 10000);
    assert(pow10(5) == 100000);
    assert(pow10(6) == 1000000);
}

pub proof fn lemma_pow10_pos(k: nat)
    ensures
        pow10(k) >= 1,
    decreases k,
{
    if k > 0 {
        lemma_pow10_pos((k - 1) as nat);
    }
}

/// Trimming trailing zeros keeps the value and leaves at least one digit.
pub proof fn lemma_trim_zeros(f: nat, w: nat)
    requires
        0 < f < pow10(w),
    ensures
        1 <= trim_zeros(f, w).1 <= w,
        trim_zeros(f, w).0 < pow10(trim_zeros(f, w).1),
        trim_zeros(f, w).0 * pow10((w - trim_zeros(f, w).1) as nat) == f,
    decreases w,
{
    if w > 0 && f % 10 == 0 {
        let f2 = f / 10;
        let w2 = (w - 1) as nat;
        assert(pow10(w) == 10 * pow10(w2));
        assert(0 < f2 < pow10(w2));
        lemma_trim_zeros(f2, w2);
        let (d, k) = trim_zeros(f2, w2);
        assert(trim_zeros(f, w) == (d, k));
        assert(f == 10 * f2);
        assert(d * pow10((w2 - k) as nat) == f2);
        assert(pow10((w - k) as nat) == 10 * pow10((w2 - k) as nat));
        assert(d * pow10((w - k) as nat) == 10 * (d * pow10((w2 - k) as nat))) by (nonlinear_arith)
            requires
                pow10((w - k) as nat) == 10 * pow10((w2 - k) as nat),
        ;
    } else {
        assert(w > 0);
        assert(pow10(0) == 1);
        assert(trim_zeros(f, w) == (f, w));
        assert((w - w) as nat == 0);
        assert(f * pow10(0) == f);
    }
}

pub proof fn lemma_padded(d: nat, w: nat)
    requires
        d < pow10(w),
    ensures
        padded(d, w).len() == w,
        all_digits(padded(d, w)),
        digits_value(padded(d, w)) == d,
    decreases w,
{
    if w > 0 {
        let w2 = (w - 1) as nat;
        assert(pow10(w) == 10 * pow10(w2));
        lemma_padded(d / 10, w2);
        lemma_digit_char((d % 10) as int);
        let t = padded(d, w);
        assert(t.drop_last() =~= padded(d / 10, w2));
        assert(t.last() == digit_char((d % 10) as int));
        assert forall|i: int| 0 <= i < t.len() implies is_digit(#[trigger] t[i]) by {
            if i < t.len() - 1 {
                assert(t[i] == padded(d / 10, w2)[i]);
            }
        }
    } else {
        assert(d == 0);
    }
}

/// The first `c` in `b` stands at `k`, where `k` may be the length of `b`.
pub proof fn lemma_index_of(b: Seq<char>, c: char, k: int)
    requires
        0 <= k <= b.len(),
        k < b.len() ==> b[k] == c,
        forall|j: int| 0 <= j < k ==> b[j] != c,
    ensures
        index_of(b, c) == k,
    decreases b.len(),
{
    if b.len() > 0 && k > 0 {
        lemma_index_of(b.drop_first(), c, k - 1);
    }
}

pub proof fn lemma_unsigned_fixed_text(m: nat)
    ensures
        parse_unsigned_fixed(unsigned_fixed_text(m)) == Some(m as int),
        is_token(unsigned_fixed_text(m)),
        is_digit(unsigned_fixed_text(m)[0]),
{
    let sc = SCALE as nat;
    let ip = m / sc;
    let f = m % sc;
    let nt = nat_text(ip);
    lemma_nat_text(ip);
    lemma_pow10_six();
    assert(m == ip * sc + f);
    let t = unsigned_fixed_text(m);
    if f == 0 {
        lemma_index_of(t, '.', t.len() as int);
        assert(t.take(t.len() as int) =~= t);
    } else {
        lemma_trim_zeros(f, 6);
        let (d, w) = trim_zeros(f, 6);
        lemma_padded(d, w);
        let pd = padded(d, w);
        assert(t == nt + seq!['.'] + pd);
        let k = nt.len() as int;
        assert(t[k] == '.');
        assert forall|j: int| 0 <= j < k implies t[j] != '.' by {
            assert(t[j] == nt[j]);
        }
        lemma_index_of(t, '.', k);
        assert(t.take(k) =~= nt);
        assert(t.skip(k + 1) =~= pd);
        assert forall|i: int| 0 <= i < t.len() implies !is_space(#[trigger] t[i]) by {
            if i < k {
                assert(t[i] == nt[i]);
            } else if i > k {
                assert(t[i] == pd[i - k - 1]);
            }
        }
    }
}

/// Fixed-point text reads back as the amount it was written from.
pub proof fn lemma_fixed_text(v: int)
    ensures
        parse_fixed(fixed_text(v)) == Some(v),
        is_token(fixed_text(v)),
{
    if v < 0 {
        let u = unsigned_fixed_text((-v) as nat);
        lemma_unsigned_fixed_text((-v) as nat);
        let t = fixed_text(v);
        assert(t.drop_first() =~= u);
        assert forall|i: int| 0 <= i < t.len() implies !is_space(#[trigger] t[i]) by {
            if i > 0 {
                assert(t[i] == u[i - 1]);
            }
        }
    } else {
        lemma_unsigned_fixed_text(v as nat);
    }
}

/// Ten to the power `k`, for small `k`.
fn pow10_exec(k: u64) -> (r: u64)
    requires
        k <= 6,
    ensures
        r == pow10(k as nat),
        r <= 1_000_000,
{
    let mut p: u64 = 1;
    let mut i: u64 = 0;
    while i < k
        invariant
            i <= k <= 6,
            p == pow10(i as nat),
            p <= pow10(i as nat),
        decreases k - i,
    {
        proof {
            lemma_pow10_monotone(i as nat, 6);
            lemma_pow10_six();
        }
        p = p * 10;
        i = i + 1;
    }
    proof {
        lemma_pow10_monotone(k as nat, 6);
        lemma_pow10_six();
    }
    p
}

pub proof fn lemma_pow10_monotone(a: nat, b: nat)
    requires
        a <= b,
    ensures
        pow10(a) <= pow10(b),
    decreases b,
{
    if a < b {
        lemma_pow10_monotone(a, (b - 1) as nat);
        lemma_pow10_pos((b - 1) as nat);
    }
}

/// Appends `d` written with exactly `w` digits.
fn push_padded(out: &mut String, d: u64, w: u64)
    ensures
        final(out)@ == old(out)@ + padded(d as nat, w as nat),
    decreases w,
{
    if w > 0 {
        push_padded(out, d / 10, w - 1);
        out.append(digit_str(d % 10));
        assert(old(out)@ + padded(d as nat, w as nat) =~= old(out)@ + padded((d / 10) as nat, (w - 1) as nat) + seq![digit_char((d % 10) as int)]);
    } else {
        assert(old(out)@ + padded(d as nat, w as nat) =~= old(out)@);
    }
}

/// Appends the shortest text of `m` millionths.
fn push_unsigned_fixed(out: &mut String, m: u64)
    ensures
        final(out)@ == old(out)@ + unsigned_fixed_text(m as nat),
{
    let f = m % SCALE;
    push_nat(out, m / SCALE);
    if f != 0 {
        let mut d = f;
        let mut w: u64 = 6;
        while w > 0 && d % 10 == 0
            invariant
                w <= 6,
                trim_zeros(d as nat, w as nat) == trim_zeros(f as nat, 6),
            decreases w,
        {
            d = d / 10;
            w = w - 1;
        }
        proof {
            reveal_strlit(".");
        }
        out.append(".");
        push_padded(out, d, w);
        assert(old(out)@ + unsigned_fixed_text(m as nat) =~= old(out)@ + nat_text((m / SCALE) as nat) + seq!['.'] + padded(d as nat, w as nat));
    }
}

/// Appends the shortest text of `v` millionths.
pub fn push_fixed(out: &mut String, v: i64)
    ensures
        final(out)@ == old(out)@ + fixed_text(v as int),
{
    if v < 0 {
        proof {
            reveal_strlit("-");
        }
        out.append("-");
        let m: u64 = (-(v as i128)) as u64;
        push_unsigned_fixed(out, m);
        assert(old(out)@ + fixed_text(v as int) =~= old(out)@ + seq!['-'] + unsigned_fixed_text(m as nat));
    } else {
        push_unsigned_fixed(out, v as u64);
    }
}

/// Parses fixed-point text into millionths: an optional minus sign, digits,
/// then optionally a point and one to six digits.  Amounts are held to the
/// millionth, so text with more than six decimals, exponent notation, or a
/// point without digits on both sides is refused.
pub fn parse_fixed_exec(s: &str) -> (r: Option<i64>)
    ensures
        r == parse_fixed_i64(s@),
{
    let n = s.unicode_len();
    if n == 0 {
        proof {
            lemma_index_of(s@, '.', 0);
        }
        return None;
    }
    let neg = s.get_char(0) == '-';
    let start: usize = if neg { 1 } else { 0 };
    let ghost b = s@.subrange(start as int, n as int);
    assert(neg ==> b =~= s@.drop_first());
    assert(!neg ==> b =~= s@);
    let mut j: usize = start;
    while j < n && s.get_char(j) != '.'
        invariant
            start <= j <= n == s@.len(),
            b == s@.subrange(start as int, n as int),
            forall|t: int| 0 <= t < j - start ==> b[t] != '.',
        decreases n - j,
    {
        j = j + 1;
    }
    let ghost k = j - start;
    proof {
        lemma_index_of(b, '.', k);
    }
    assert(b.take(k) =~= s@.subrange(start as int, j as int));
    let ip = match read_digits(s, start, j, 9_223_372_036_854) {
        Some(v) => v,
        None => {
            proof {
                lemma_pow10_six();
                let ipv = digits_value(b.take(k));
                if is_digit_run(b.take(k)) {
                    assert(ipv >= 9_223_372_036_855);
                    assert(ipv * 1_000_000 >= 9_223_372_036_855_000_000) by (nonlinear_arith)
                        requires
                            ipv >= 9_223_372_036_855,
                    ;
                    if k < b.len() && is_digit_run(b.skip(k + 1)) {
                        lemma_digits_value_nonneg(b.skip(k + 1));
                        let fv = digits_value(b.skip(k + 1));
                        let pw = pow10((6 - b.skip(k + 1).len()) as nat);
                        assert(fv * pw >= 0) by (nonlinear_arith)
                            requires
                                fv >= 0,
                                pw >= 0,
                        ;
                    }
                }
            }
            return None;
        },
    };
    proof {
        lemma_digits_value_nonneg(b.take(k));
    }
    assert(ip as int == digits_value(b.take(k)));
    let mag: u64 = if j == n {
        assert(ip * 1_000_000 <= 9_223_372_036_854_000_000) by (nonlinear_arith)
            requires
                ip <= 9_223_372_036_854,
        ;
        ip * SCALE
    } else {
        let len = n - (j + 1);
        assert(b.skip(k + 1) =~= s@.subrange(j + 1, n as int));
        if len == 0 || len > 6 {
            return None;
        }
        let fp = match read_digits(s, j + 1, n, 999_999) {
            Some(v) => v,
            None => {
                proof {
                    lemma_pow10_six();
                    if all_digits(s@.subrange(j + 1, n as int)) {
                        lemma_padded_bound(s@.subrange(j + 1, n as int));
                        lemma_pow10_monotone(len as nat, 6);
                    }
                }
                return None;
            },
        };
        let p = pow10_exec(6 - len as u64);
        proof {
            lemma_pow10_six();
            let ft = s@.subrange(j + 1, n as int);
            lemma_padded_bound(ft);
            lemma_pow10_split(len as nat);
            assert(ft.len() == len);
            let pl = pow10(len as nat);
            assert(fp < pl);
            assert(fp * p < 1_000_000) by (nonlinear_arith)
                requires
                    fp < pl,
                    pl * p == 1_000_000,
                    p >= 0,
            ;
            assert(ip * 1_000_000 <= 9_223_372_036_854_000_000) by (nonlinear_arith)
                requires
                    ip <= 9_223_372_036_854,
            ;
        }
        ip * SCALE + fp * p
    };
    assert(parse_unsigned_fixed(b) == Some(mag as int));
    if neg {
        if mag > 9_223_372_036_854_775_808 {
            None
        } else {
            Some((-(mag as i128)) as i64)
        }
    } else {
        if mag > 9_223_372_036_854_775_807 {
            None
        } else {
            Some(mag as i64)
        }
    }
}

/// A run of `k` digits is worth less than ten to the `k`.
pub proof fn lemma_padded_bound(t: Seq<char>)
    requires
        all_digits(t),
    ensures
        digits_value(t) < pow10(t.len()),
        digits_value(t) >= 0,
    decreases t.len(),
{
    if t.len() > 0 {
        lemma_padded_bound(t.drop_last());
        assert(pow10(t.len()) == 10 * pow10((t.len() - 1) as nat));
    }
}

/// A value below ten to the `k`, scaled up to six places, stays below a million.
pub proof fn lemma_pow10_split(k: nat)
    requires
        k <= 6,
    ensures
        pow10(k) * pow10((6 - k) as nat) == 1_000_000,
    decreases k,
{
    lemma_pow10_six();
    if k == 0 {
        assert(pow10(0) == 1);
        assert((6 - k) as nat == 6);
    } else {
        lemma_pow10_split((k - 1) as nat);
        assert(pow10(k) == 10 * pow10((k - 1) as nat));
        assert(pow10((6 - (k - 1)) as nat) == 10 * pow10((6 - k) as nat));
        assert(pow10(k) * pow10((6 - k) as nat) == pow10((k - 1) as nat) * pow10((6 - (k - 1)) as nat)) by (nonlinear_arith)
            requires
                pow10(k) == 10 * pow10((k - 1) as nat),
                pow10((6 - (k - 1)) as nat) == 10 * pow10((6 - k) as nat),
        ;
    }
}

/// The time of day of a Unix timestamp (UTC) as `HH:MM:SS`.
pub open spec fn clock_text(unix_secs: nat) -> Seq<char> {
    padded((unix_secs / 3600) % 24, 2) + seq![':'] + padded((unix_secs / 60) % 60, 2) + seq![':']
        + padded(unix_secs % 60, 2)
}

/// Formats the time of day of `unix_secs` (UTC) as `HH:MM:SS`.
pub fn now_hhmmss(unix_secs: u64) -> (r: String)
    ensures
        r@ == clock_text(unix_secs as nat),
{
    let mut out = String::new();
    proof {
        reveal_strlit(":");
    }
    push_padded(&mut out, (unix_secs / 3600) % 24, 2);
    out.append(":");
    push_padded(&mut out, (unix_secs / 60) % 60, 2);
    out.append(":");
    push_padded(&mut out, unix_secs % 60, 2);
    assert(out@ =~= clock_text(unix_secs as nat));
    out
}

/// `s` without its leading separator characters.
pub open spec fn trim_start(s: Seq<char>) -> Seq<char>
    decreases s.len(),
{
    if s.len() > 0 && is_space(s[0]) {
        trim_start(s.drop_first())
    } else {
        s
    }
}

/// `s` without its trailing separator characters.
pub open spec fn trim_end(s: Seq<char>) -> Seq<char>
    decreases s.len(),
{
    if s.len() > 0 && is_space(s.last()) {
        trim_end(s.drop_last())
    } else {
        s
    }
}

/// `s` without separator characters at either end.
pub open spec fn trim(s: Seq<char>) -> Seq<char> {
    trim_end(trim_start(s))
}

/// The entry of one line: the trimmed line, unless it is blank.
pub open spec fn line_entry(line: Seq<char>) -> Seq<Seq<char>> {
    if trim(line).len() > 0 {
        seq![trim(line)]
    } else {
        seq![]
    }
}

/// The entries of the lines of `s`, where `line` is the line read so far.
pub open spec fn entries_from(s: Seq<char>, line: Seq<char>) -> Seq<Seq<char>>
    decreases s.len(),
{
    if s.len() == 0 {
        line_entry(line)
    } else if s[0] == '\n' {
        line_entry(line) + entries_from(s.drop_first(), seq![])
    } else {
        entries_from(s.drop_first(), line.push(s[0]))
    }
}

/// The non-blank lines of `s`, each trimmed, in order.
pub open spec fn line_entries(s: Seq<char>) -> Seq<Seq<char>> {
    entries_from(s, seq![])
}

/// The trimmed text of `s[from..to]`, if it is not blank.
fn trimmed_line(s: &str, from: usize, to: usize) -> (r: Option<String>)
    requires
        from <= to <= s@.len(),
    ensures
        match r {
            Some(t) => line_entry(s@.subrange(from as int, to as int)) == seq![t@],
            None => line_entry(s@.subrange(from as int, to as int)) == Seq::<Seq<char>>::empty(),
        },
{
    let ghost line = s@.subrange(from as int, to as int);
    let mut a = from;
    while a < to && is_space_char(s.get_char(a))
        invariant
            from <= a <= to <= s@.len(),
            line == s@.subrange(from as int, to as int),
            trim_start(line) == trim_start(s@.subrange(a as int, to as int)),
        decreases to - a,
    {
        assert(s@.subrange(a as int, to as int).drop_first() =~= s@.subrange(a + 1, to as int));
        a = a + 1;
    }
    assert(trim_start(s@.subrange(a as int, to as int)) == s@.subrange(a as int, to as int));
    let mut b = to;
    while b > a && is_space_char(s.get_char(b - 1))
        invariant
            from <= a <= b <= to <= s@.len(),
            line == s@.subrange(from as int, to as int),
            trim(line) == trim_end(s@.subrange(a as int, b as int)),
        decreases b - a,
    {
        assert(s@.subrange(a as int, b as int).drop_last() =~= s@.subrange(a as int, b - 1));
        b = b - 1;
    }
    assert(trim_end(s@.subrange(a as int, b as int)) == s@.subrange(a as int, b as int));
    if a < b {
        Some(s.substring_char(a, b).to_owned())
    } else {
        None
    }
}

/// The symbols listed in a text, one per line; each line is trimmed, and
/// blank lines are skipped.
pub fn symbol_list(text: &str) -> (r: Vec<String>)
    ensures
        views(r@) == line_entries(text@),
{
    let n = text.unicode_len();
    let mut out: Vec<String> = Vec::new();
    let mut start: usize = 0;
    let mut i: usize = 0;
    assert(text@.skip(0) =~= text@);
    assert(text@.subrange(0, 0) =~= Seq::<char>::empty());
    assert(views(out@) + line_entries(text@) =~= line_entries(text@));
    while i < n
        invariant
            n == text@.len(),
            start <= i <= n,
            line_entries(text@) == views(out@) + entries_from(
                text@.skip(i as int),
                text@.subrange(start as int, i as int),
            ),
        decreases n - i,
    {
        let c = text.get_char(i);
        let ghost rest = text@.skip(i as int);
        let ghost line = text@.subrange(start as int, i as int);
        assert(rest[0] == c);
        assert(rest.drop_first() =~= text@.skip(i + 1));
        if c == '\n' {
            let ghost before = views(out@);
            match trimmed_line(text, start, i) {
                Some(t) => {
                    out.push(t);
                    assert(views(out@) =~= before + line_entry(line));
                },
                None => {
                    assert(views(out@) =~= before + line_entry(line));
                },
            }
            assert(text@.subrange(i + 1, i + 1) =~= Seq::<char>::empty());
            start = i + 1;
        } else {
            assert(line.push(c) =~= text@.subrange(start as int, i + 1));
        }
        i = i + 1;
    }
    assert(text@.skip(n as int) =~= Seq::<char>::empty());
    let ghost before = views(out@);
    let ghost line = text@.subrange(start as int, n as int);
    match trimmed_line(text, start, n) {
        Some(t) => {
            out.push(t);
            assert(views(out@) =~= before + line_entry(line));
        },
        None => {
            assert(views(out@) =~= before + line_entry(line));
        },
    }
    out
}

} // verus!
