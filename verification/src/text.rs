//! Character-level helpers shared by the FEN, UCI and URL handling.
use vstd::prelude::*;

verus! {

/// Appends one character to a string (`String::push`).
#[verifier::external_body]
pub(crate) fn push_char(s: &mut String, c: char)
    ensures
        final(s)@ == old(s)@.push(c),
{
    s.push(c);
}

/// The characters of a string slice, in order.
pub fn chars_of(s: &str) -> (res: Vec<char>)
    ensures
        res@ == s@,
{
    let mut res: Vec<char> = Vec::new();
    for c in it: s.chars()
        invariant
            res@ == it.seq().take(it.index() as int),
            it.seq() == s@,
    {
        res.push(c);
    }
    res
}

/// A string made of the given characters.
pub fn string_of(cs: &Vec<char>) -> (res: String)
    ensures
        res@ == cs@,
{
    let mut res = String::new();
    let mut i: usize = 0;
    while i < cs.len()
        invariant
            i <= cs.len(),
            res@ == cs@.take(i as int),
        decreases cs.len() - i,
    {
        push_char(&mut res, cs[i]);
        i = i + 1;
        proof {
            assert(cs@.take(i as int) =~= cs@.take(i - 1).push(cs@[i - 1]));
        }
    }
    proof {
        assert(cs@.take(cs@.len() as int) =~= cs@);
    }
    res
}

/// ASCII lowercase of one character; other characters are unchanged.
pub open spec fn lower_char(c: char) -> char {
    if 'A' <= c && c <= 'Z' {
        ((c as u32) + 32) as char
    } else {
        c
    }
}

/// ASCII lowercase of every character of a text.
pub open spec fn lower_text(s: Seq<char>) -> Seq<char> {
    s.map_values(|c: char| lower_char(c))
}

/// Lowercases one character in the ASCII range (`char::to_ascii_lowercase`).
pub fn ascii_lower_char(c: char) -> (res: char)
    ensures
        res == lower_char(c),
{
    if 'A' <= c && c <= 'Z' {
        let code: u8 = c as u8;
        (code + 32) as char
    } else {
        c
    }
}

/// Lowercases the ASCII letters of a text (`str::to_ascii_lowercase`).
pub fn ascii_lowercase(s: &str) -> (res: String)
    ensures
        res@ == lower_text(s@),
{
    let cs = chars_of(s);
    let mut out: Vec<char> = Vec::new();
    let mut i: usize = 0;
    while i < cs.len()
        invariant
            i <= cs.len(),
            cs@ == s@,
            out@ == lower_text(cs@.take(i as int)),
        decreases cs.len() - i,
    {
        let c = ascii_lower_char(cs[i]);
        out.push(c);
        i = i + 1;
        proof {
            assert(lower_text(cs@.take(i as int)) =~= lower_text(cs@.take(i - 1)).push(c));
        }
    }
    proof {
        assert(cs@.take(cs@.len() as int) =~= cs@);
    }
    string_of(&out)
}

/// Characters with the Unicode `White_Space` property (`char::is_whitespace`).
pub open spec fn is_white_space(c: char) -> bool {
    ||| ('\u{9}' <= c && c <= '\u{d}')
    ||| c == ' '
    ||| c == '\u{85}'
    ||| c == '\u{a0}'
    ||| c == '\u{1680}'
    ||| ('\u{2000}' <= c && c <= '\u{200a}')
    ||| c == '\u{2028}'
    ||| c == '\u{2029}'
    ||| c == '\u{202f}'
    ||| c == '\u{205f}'
    ||| c == '\u{3000}'
}

/// Tests the Unicode `White_Space` property.
pub fn white_space(c: char) -> (res: bool)
    ensures
        res == is_white_space(c),
{
    ('\u{9}' <= c && c <= '\u{d}') || c == ' ' || c == '\u{85}' || c == '\u{a0}' || c == '\u{1680}'
        || ('\u{2000}' <= c && c <= '\u{200a}') || c == '\u{2028}' || c == '\u{2029}' || c
        == '\u{202f}' || c == '\u{205f}' || c == '\u{3000}'
}

/// Length of the run of non-white-space characters that starts a text.
pub open spec fn token_len(s: Seq<char>) -> nat
    decreases s.len(),
{
    if s.len() == 0 || is_white_space(s[0]) {
        0
    } else {
        1 + token_len(s.drop_first())
    }
}

/// The white-space separated fields of a text (`str::split_whitespace`).
pub open spec fn fields(s: Seq<char>) -> Seq<Seq<char>>
    decreases s.len(),
{
    if s.len() == 0 {
        Seq::empty()
    } else if is_white_space(s[0]) {
        fields(s.drop_first())
    } else {
        let t = token_len(s);
        proof {
            lemma_token_len_bounded(s);
        }
        seq![s.take(t as int)] + fields(s.skip(t as int))
    }
}

/// No character of the text is white space.
pub open spec fn no_white_space(s: Seq<char>) -> bool {
    forall|i: int| 0 <= i < s.len() ==> !is_white_space(#[trigger] s[i])
}

/// The first token of a text is no longer than the text.
pub proof fn lemma_token_len_bounded(s: Seq<char>)
    ensures
        token_len(s) <= s.len(),
    decreases s.len(),
{
    if s.len() > 0 && !is_white_space(s[0]) {
        lemma_token_len_bounded(s.drop_first());
    }
}

proof fn lemma_token_of_word(w: Seq<char>, rest: Seq<char>)
    requires
        no_white_space(w),
        rest.len() == 0 || is_white_space(rest[0]),
    ensures
        token_len(w + rest) == w.len(),
    decreases w.len(),
{
    if w.len() == 0 {
        assert(w + rest =~= rest);
    } else {
        assert((w + rest).drop_first() =~= w.drop_first() + rest);
        lemma_token_of_word(w.drop_first(), rest);
    }
}

proof fn lemma_fields_of_word(w: Seq<char>, rest: Seq<char>)
    requires
        w.len() > 0,
        no_white_space(w),
        rest.len() == 0 || is_white_space(rest[0]),
    ensures
        fields(w + rest) == seq![w] + fields(rest),
{
    lemma_token_of_word(w, rest);
    assert((w + rest).take(w.len() as int) =~= w);
    assert((w + rest).skip(w.len() as int) =~= rest);
}

/// Splits a text at white space, keeping the non-empty fields in order.
pub fn split_fields(s: &str) -> (res: Vec<String>)
    ensures
        res@.map_values(|f: String| f@) == fields(s@),
{
    let cs = chars_of(s);
    let mut done: Vec<String> = Vec::new();
    let mut cur: Vec<char> = Vec::new();
    let mut i: usize = 0;
    proof {
        assert(cur@ + cs@.skip(0) =~= cs@);
        assert(done@.map_values(|f: String| f@) + fields(cs@) =~= fields(cs@));
    }
    while i < cs.len()
        invariant
            i <= cs.len(),
            cs@ == s@,
            no_white_space(cur@),
            fields(cs@) == done@.map_values(|f: String| f@) + fields(cur@ + cs@.skip(i as int)),
        decreases cs.len() - i,
    {
        let c = cs[i];
        let ghost old_done = done@.map_values(|f: String| f@);
        if white_space(c) {
            proof {
                assert(cs@.skip(i as int)[0] == c);
                if cur@.len() > 0 {
                    lemma_fields_of_word(cur@, cs@.skip(i as int));
                }
                assert(cs@.skip(i as int).drop_first() =~= cs@.skip(i + 1));
                if cur@.len() == 0 {
                    assert(cur@ + cs@.skip(i as int) =~= cs@.skip(i as int));
                }
                assert(Seq::<char>::empty() + cs@.skip(i + 1) =~= cs@.skip(i + 1));
            }
            if cur.len() > 0 {
                let word = string_of(&cur);
                done.push(word);
                proof {
                    assert(done@.map_values(|f: String| f@) =~= old_done + seq![cur@]);
                }
                cur = Vec::new();
            }
        } else {
            proof {
                assert(cur@ + cs@.skip(i as int) =~= cur@.push(c) + cs@.skip(i + 1));
            }
            cur.push(c);
        }
        i = i + 1;
    }
    proof {
        assert(cs@.skip(cs@.len() as int) =~= Seq::<char>::empty());
        assert(cur@ + Seq::<char>::empty() =~= cur@);
        if cur@.len() > 0 {
            lemma_fields_of_word(cur@, Seq::<char>::empty());
            assert(cur@ + Seq::<char>::empty() =~= cur@);
            assert(fields(Seq::<char>::empty()) =~= Seq::<Seq<char>>::empty());
        }
    }
    if cur.len() > 0 {
        let word = string_of(&cur);
        let ghost old_done = done@.map_values(|f: String| f@);
        done.push(word);
        proof {
            assert(done@.map_values(|f: String| f@) =~= old_done + seq![cur@]);
            assert(old_done + seq![cur@] =~= old_done + (seq![cur@] + Seq::<Seq<char>>::empty()));
        }
    } else {
        proof {
            assert(fields(cur@) =~= Seq::<Seq<char>>::empty());
            assert(done@.map_values(|f: String| f@) + Seq::<Seq<char>>::empty() =~= done@.map_values(|f: String| f@));
        }
    }
    done
}

/// The texts joined with a single space between neighbours.
pub open spec fn join_space(parts: Seq<Seq<char>>) -> Seq<char>
    decreases parts.len(),
{
    if parts.len() == 0 {
        Seq::empty()
    } else if parts.len() == 1 {
        parts[0]
    } else {
        join_space(parts.drop_last()) + seq![' '] + parts.last()
    }
}

/// Joins the first `n` strings with single spaces (`[..].join(" ")`).
pub fn join_first_with_space(parts: &Vec<String>, n: usize) -> (res: String)
    requires
        n <= parts.len(),
    ensures
        res@ == join_space(parts@.map_values(|f: String| f@).take(n as int)),
{
    let ghost views = parts@.map_values(|f: String| f@);
    let mut res = String::new();
    let mut i: usize = 0;
    proof {
        assert(views.take(0) =~= Seq::<Seq<char>>::empty());
    }
    while i < n
        invariant
            i <= n <= parts.len(),
            views == parts@.map_values(|f: String| f@),
            res@ == join_space(views.take(i as int)),
        decreases n - i,
    {
        proof {
            assert(views.take(i + 1).drop_last() =~= views.take(i as int));
            assert(views.take(i + 1).last() == parts@[i as int]@);
        }
        if i > 0 {
            res.append(" ");
        }
        res.append(parts[i].as_str());
        proof {
            reveal_strlit(" ");
            if i == 0 {
                assert(res@ =~= views.take(1)[0]);
            } else {
                assert(res@ =~= join_space(views.take(i as int)) + seq![' '] + views.take(i + 1).last());
            }
        }
        i = i + 1;
    }
    res
}

/// Every character is an ASCII decimal digit.
pub open spec fn all_digits(d: Seq<char>) -> bool {
    forall|i: int| 0 <= i < d.len() ==> '0' <= #[trigger] d[i] && d[i] <= '9'
}

/// Value of a sequence of decimal digits.
pub open spec fn digits_value(d: Seq<char>) -> nat
    decreases d.len(),
{
    if d.len() == 0 {
        0
    } else {
        digits_value(d.drop_last()) * 10 + ((d.last() as nat) - ('0' as nat)) as nat
    }
}

/// What `str::parse::<u16>` gives: an optional `+`, then at least one
/// ASCII digit, and a value that fits in 16 bits.
pub open spec fn parse_u16_spec(s: Seq<char>) -> Option<u16> {
    let d = if s.len() > 0 && s[0] == '+' {
        s.drop_first()
    } else {
        s
    };
    if d.len() == 0 || !all_digits(d) || digits_value(d) > 65535 {
        None
    } else {
        Some(digits_value(d) as u16)
    }
}

proof fn lemma_digits_value_grows(d: Seq<char>, i: int)
    requires
        0 <= i <= d.len(),
        all_digits(d),
    ensures
        digits_value(d.take(i)) <= digits_value(d),
    decreases d.len() - i,
{
    if i < d.len() {
        lemma_digits_value_grows(d, i + 1);
        assert(d.take(i + 1).drop_last() =~= d.take(i));
    } else {
        assert(d.take(i) =~= d);
    }
}

/// Parses a decimal `u16` as `str::parse` does.
pub fn parse_u16(s: &str) -> (res: Option<u16>)
    ensures
        res == parse_u16_spec(s@),
{
    let cs = chars_of(s);
    let start: usize = if cs.len() > 0 && cs[0] == '+' { 1 } else { 0 };
    let ghost d = if s@.len() > 0 && s@[0] == '+' { s@.drop_first() } else { s@ };
    proof {
        assert(d =~= cs@.skip(start as int));
    }
    if start == cs.len() {
        return None;
    }
    let mut value: u32 = 0;
    let mut i: usize = start;
    while i < cs.len()
        invariant
            start <= i <= cs.len(),
            cs@ == s@,
            d == cs@.skip(start as int),
            d == (if s@.len() > 0 && s@[0] == '+' { s@.drop_first() } else { s@ }),
            d.len() > 0,
            all_digits(d.take(i - start)),
            value == digits_value(d.take(i - start)),
            value <= 65535,
        decreases cs.len() - i,
    {
        let c = cs[i];
        if !('0' <= c && c <= '9') {
            proof {
                assert(d[i - start] == c);
            }
            return None;
        }
        let digit: u32 = (c as u32) - ('0' as u32);
        let next: u32 = value * 10 + digit;
        proof {
            assert(d.take(i - start + 1).drop_last() =~= d.take(i - start));
            assert(d.take(i - start + 1).last() == c);
            assert(all_digits(d.take(i - start + 1)));
        }
        if next > 65535 {
            proof {
                assert(digits_value(d.take(i - start + 1)) == next);
                if all_digits(d) {
                    lemma_digits_value_grows(d, i - start + 1);
                }
            }
            return None;
        }
        value = next;
        i = i + 1;
    }
    proof {
        assert(d.take(i - start) =~= d);
    }
    Some(value as u16)
}

/// Number of bytes in the UTF-8 encoding of a character.
pub open spec fn char_width(c: char) -> nat {
    let v = c as u32;
    if v <= 0x7f {
        1
    } else if v <= 0x7ff {
        2
    } else if v <= 0xffff {
        3
    } else {
        4
    }
}

/// Number of bytes in the UTF-8 encoding of a text (`str::len`).
pub open spec fn utf8_len(s: Seq<char>) -> nat
    decreases s.len(),
{
    if s.len() == 0 {
        0
    } else {
        utf8_len(s.drop_last()) + char_width(s.last())
    }
}

/// The number of leading characters whose encoding takes exactly `b` bytes, if
/// byte `b` is a character boundary.
pub open spec fn byte_split(s: Seq<char>, b: nat) -> Option<int> {
    if exists|k: int| 0 <= k <= s.len() && utf8_len(#[trigger] s.take(k)) == b {
        Some(choose|k: int| 0 <= k <= s.len() && utf8_len(#[trigger] s.take(k)) == b)
    } else {
        None
    }
}

/// A longer prefix takes more bytes: at least one per added character.
pub proof fn lemma_utf8_len_prefix_grows(s: Seq<char>, i: int, j: int)
    requires
        0 <= i < j <= s.len(),
    ensures
        utf8_len(s.take(i)) < utf8_len(s.take(j)),
        utf8_len(s.take(i)) + (j - i) <= utf8_len(s.take(j)),
    decreases j - i,
{
    assert(s.take(j).drop_last() =~= s.take(j - 1));
    if i < j - 1 {
        lemma_utf8_len_prefix_grows(s, i, j - 1);
    }
}

/// The byte count of a text is that of its first character plus that of the rest.
pub proof fn lemma_utf8_len_cons(s: Seq<char>)
    requires
        s.len() > 0,
    ensures
        utf8_len(s) == char_width(s[0]) + utf8_len(s.drop_first()),
    decreases s.len(),
{
    if s.len() > 1 {
        lemma_utf8_len_cons(s.drop_last());
        assert(s.drop_last().drop_first() =~= s.drop_first().drop_last());
        assert(s.drop_first().last() == s.last());
        assert(s.drop_last()[0] == s[0]);
        assert(utf8_len(s.drop_first()) == utf8_len(s.drop_first().drop_last()) + char_width(s.drop_first().last()));
    } else {
        assert(s.drop_first().len() == 0);
        assert(s.drop_last().len() == 0);
        assert(utf8_len(s.drop_first()) == 0);
        assert(utf8_len(s.drop_last()) == 0);
        assert(s.last() == s[0]);
    }
}

/// The byte count used here is the length of the UTF-8 encoding that vstd defines.
pub proof fn lemma_utf8_len_is_encoding_len(s: Seq<char>)
    ensures
        utf8_len(s) == vstd::utf8::encode_utf8(s).len(),
    decreases s.len(),
{
    if s.len() > 0 {
        lemma_utf8_len_cons(s);
        lemma_utf8_len_is_encoding_len(s.drop_first());
        vstd::utf8::char_is_scalar(s[0]);
    }
}

/// A text takes at least one byte per character, and exactly one for each prefix of
/// a text that takes exactly one per character.
pub proof fn lemma_utf8_len_at_least_chars(s: Seq<char>)
    ensures
        utf8_len(s) >= s.len(),
        utf8_len(s) == s.len() ==> forall|i: int| 0 <= i < s.len() ==> utf8_len(#[trigger] s.take(i)) == i,
    decreases s.len(),
{
    if s.len() > 0 {
        lemma_utf8_len_at_least_chars(s.drop_last());
        if utf8_len(s) == s.len() {
            assert forall|i: int| 0 <= i < s.len() implies utf8_len(#[trigger] s.take(i)) == i by {
                assert(s.drop_last().take(i) =~= s.take(i));
            }
        }
    }
}

/// The character boundary at the byte count of a prefix is that prefix.
pub proof fn lemma_byte_split_at(s: Seq<char>, k: int)
    requires
        0 <= k <= s.len(),
    ensures
        byte_split(s, utf8_len(s.take(k))) == Some(k),
{
    let b = utf8_len(s.take(k));
    assert(0 <= k <= s.len() && utf8_len(s.take(k)) == b);
    let c = choose|c: int| 0 <= c <= s.len() && utf8_len(#[trigger] s.take(c)) == b;
    if c < k {
        lemma_utf8_len_prefix_grows(s, c, k);
    } else if k < c {
        lemma_utf8_len_prefix_grows(s, k, c);
    }
}

/// Number of UTF-8 bytes of one character.
pub fn width_of(c: char) -> (res: usize)
    ensures
        res == char_width(c),
{
    let v = c as u32;
    if v <= 0x7f {
        1
    } else if v <= 0x7ff {
        2
    } else if v <= 0xffff {
        3
    } else {
        4
    }
}

/// The first position at which at least `b` bytes of the text have been read.
pub fn first_prefix_reaching(cs: &Vec<char>, b: usize) -> (res: usize)
    requires
        b <= utf8_len(cs@),
        b <= 16,
    ensures
        res <= cs.len(),
        utf8_len(cs@.take(res as int)) >= b,
        forall|i: int| 0 <= i < res ==> utf8_len(#[trigger] cs@.take(i)) < b,
{
    let mut i: usize = 0;
    let mut acc: usize = 0;
    proof {
        assert(cs@.take(0).len() == 0);
        assert(cs@.take(cs@.len() as int) =~= cs@);
    }
    while acc < b
        invariant
            i <= cs.len(),
            acc == utf8_len(cs@.take(i as int)),
            b <= utf8_len(cs@),
            b <= 16,
            forall|j: int| 0 <= j < i ==> utf8_len(#[trigger] cs@.take(j)) < b,
        decreases cs.len() - i,
    {
        proof {
            if i == cs.len() {
                assert(cs@.take(i as int) =~= cs@);
            }
            assert(cs@.take(i + 1).drop_last() =~= cs@.take(i as int));

        }
        let w = width_of(cs[i]);
        acc = acc + w;
        i = i + 1;
    }
    i
}

/// The number of UTF-8 bytes of the first `k` characters.
pub fn prefix_bytes(cs: &Vec<char>, k: usize) -> (res: usize)
    requires
        k <= cs.len(),
        k <= 16,
    ensures
        res == utf8_len(cs@.take(k as int)),
{
    let mut i: usize = 0;
    let mut acc: usize = 0;
    proof {
        assert(cs@.take(0).len() == 0);
    }
    while i < k
        invariant
            i <= k,
            k <= cs.len(),
            k <= 16,
            acc == utf8_len(cs@.take(i as int)),
            acc <= 4 * i,
        decreases k - i,
    {
        proof {
            assert(cs@.take(i + 1).drop_last() =~= cs@.take(i as int));
        }
        acc = acc + width_of(cs[i]);
        i = i + 1;
    }
    acc
}

/// The UTF-8 length of a text, or `cap` when it is at least `cap`.
pub fn utf8_len_capped(cs: &Vec<char>, cap: usize) -> (res: usize)
    requires
        cap <= 16,
    ensures
        res == (if utf8_len(cs@) < cap { utf8_len(cs@) } else { cap as nat }),
{
    let mut i: usize = 0;
    let mut acc: usize = 0;
    while acc < cap && i < cs.len()
        invariant
            i <= cs.len(),
            cap <= 16,
            acc == utf8_len(cs@.take(i as int)),
            acc < cap + 4,
        decreases cs.len() - i,
    {
        proof {
            assert(cs@.take(i + 1).drop_last() =~= cs@.take(i as int));
        }
        let w = width_of(cs[i]);
        acc = acc + w;
        i = i + 1;
    }
    proof {
        if i == cs.len() {
            assert(cs@.take(i as int) =~= cs@);
        } else {
            lemma_utf8_len_prefix_grows(cs@, i as int, cs@.len() as int);
            assert(cs@.take(cs@.len() as int) =~= cs@);
        }
    }
    if acc < cap {
        acc
    } else {
        cap
    }
}

/// An ASCII text is cut at any byte on a character boundary.
pub proof fn lemma_ascii_slices_cleanly(u: Seq<char>)
    requires
        vstd::utf8::is_ascii_chars(u),
    ensures
        utf8_len(u) == u.len(),
        u.len() >= 2 ==> byte_split(u, 2) == Some(2int),
    decreases u.len(),
{
    lemma_ascii_utf8_len(u);
    if u.len() >= 2 {
        lemma_ascii_utf8_len(u.take(2));
        assert(u.take(2).len() == 2);
        lemma_byte_split_at(u, 2);
    }
}

proof fn lemma_ascii_utf8_len(u: Seq<char>)
    requires
        vstd::utf8::is_ascii_chars(u),
    ensures
        utf8_len(u) == u.len(),
    decreases u.len(),
{
    if u.len() > 0 {
        assert(vstd::utf8::is_ascii_chars(u.drop_last()));
        lemma_ascii_utf8_len(u.drop_last());
        assert('\0' <= u[u.len() - 1] <= '\u{7f}');
    }
}

/// The text without its leading white space.
pub open spec fn trim_start_spec(s: Seq<char>) -> Seq<char>
    decreases s.len(),
{
    if s.len() > 0 && is_white_space(s[0]) {
        trim_start_spec(s.drop_first())
    } else {
        s
    }
}

/// The text without its trailing white space.
pub open spec fn trim_end_spec(s: Seq<char>) -> Seq<char>
    decreases s.len(),
{
    if s.len() > 0 && is_white_space(s.last()) {
        trim_end_spec(s.drop_last())
    } else {
        s
    }
}

/// The text without leading and trailing white space (`str::trim`).
pub open spec fn trim_spec(s: Seq<char>) -> Seq<char> {
    trim_end_spec(trim_start_spec(s))
}

/// Removes leading and trailing white space.
pub fn trim(s: &str) -> (res: String)
    ensures
        res@ == trim_spec(s@),
{
    let cs = chars_of(s);
    let mut start: usize = 0;
    proof {
        assert(cs@.skip(0) =~= cs@);
    }
    while start < cs.len() && white_space(cs[start])
        invariant
            start <= cs.len(),
            cs@ == s@,
            trim_start_spec(s@) == trim_start_spec(cs@.skip(start as int)),
        decreases cs.len() - start,
    {
        proof {
            assert(cs@.skip(start as int).drop_first() =~= cs@.skip(start + 1));
        }
        start = start + 1;
    }
    let mut end: usize = cs.len();
    let ghost rest = cs@.skip(start as int);
    proof {
        assert(trim_start_spec(rest) == rest);
        assert(cs@.subrange(start as int, end as int) =~= rest);
    }
    while end > start && white_space(cs[end - 1])
        invariant
            start <= end <= cs.len(),
            cs@ == s@,
            trim_end_spec(rest) == trim_end_spec(cs@.subrange(start as int, end as int)),
            trim_start_spec(s@) == rest,
        decreases end,
    {
        proof {
            assert(cs@.subrange(start as int, end as int).drop_last() =~= cs@.subrange(start as int, end - 1));
        }
        end = end - 1;
    }
    proof {
        let t = cs@.subrange(start as int, end as int);
        if t.len() > 0 {
            assert(t.last() == cs@[end - 1]);
        }
    }
    let mut out: Vec<char> = Vec::new();
    let mut i: usize = start;
    while i < end
        invariant
            start <= i <= end <= cs.len(),
            out@ == cs@.subrange(start as int, i as int),
        decreases end - i,
    {
        out.push(cs[i]);
        i = i + 1;
        proof {
            assert(out@ =~= cs@.subrange(start as int, i as int));
        }
    }
    string_of(&out)
}

/// The pieces of a text between the separator characters, empty pieces included
/// (`str::split` with a character).
pub open spec fn split_spec(s: Seq<char>, sep: char) -> Seq<Seq<char>>
    decreases s.len(),
{
    if s.len() == 0 {
        seq![Seq::empty()]
    } else {
        let pieces = split_spec(s.drop_last(), sep);
        if s.last() == sep {
            pieces.push(Seq::empty())
        } else {
            pieces.drop_last().push(pieces.last().push(s.last()))
        }
    }
}

proof fn lemma_split_nonempty(s: Seq<char>, sep: char)
    ensures
        split_spec(s, sep).len() >= 1,
    decreases s.len(),
{
    if s.len() > 0 {
        lemma_split_nonempty(s.drop_last(), sep);
    }
}

/// Splits a text at every occurrence of a separator character.
pub fn split_at_char(s: &str, sep: char) -> (res: Vec<String>)
    ensures
        res.deep_view() == split_spec(s@, sep),
{
    let cs = chars_of(s);
    let mut done: Vec<String> = Vec::new();
    let mut cur: Vec<char> = Vec::new();
    let mut i: usize = 0;
    proof {
        assert(cs@.take(0) =~= Seq::<char>::empty());
        assert(done.deep_view().push(cur@) =~= seq![Seq::<char>::empty()]);
    }
    while i < cs.len()
        invariant
            i <= cs.len(),
            cs@ == s@,
            done.deep_view().push(cur@) == split_spec(cs@.take(i as int), sep),
        decreases cs.len() - i,
    {
        let c = cs[i];
        let ghost prior = done.deep_view();
        proof {
            assert(cs@.take(i + 1).drop_last() =~= cs@.take(i as int));
            assert(cs@.take(i + 1).last() == c);
            lemma_split_nonempty(cs@.take(i as int), sep);
        }
        if c == sep {
            let piece = string_of(&cur);
            done.push(piece);
            cur = Vec::new();
            proof {
                assert(done.deep_view() =~= prior.push(piece@));
                assert(done.deep_view().push(cur@) =~= prior.push(piece@).push(Seq::<char>::empty()));
            }
        } else {
            let ghost before_cur = cur@;
            cur.push(c);
            proof {
                let pieces = split_spec(cs@.take(i as int), sep);
                assert(pieces == prior.push(before_cur));
                assert(pieces.drop_last() =~= prior);
                assert(done.deep_view().push(cur@) =~= pieces.drop_last().push(pieces.last().push(c)));
            }
        }
        i = i + 1;
    }
    proof {
        assert(cs@.take(i as int) =~= cs@);
    }
    let last = string_of(&cur);
    let ghost prior = done.deep_view();
    done.push(last);
    proof {
        assert(done.deep_view() =~= prior.push(last@));
    }
    done
}

/// The text starts with the prefix.
pub open spec fn starts_with_spec(s: Seq<char>, prefix: Seq<char>) -> bool {
    prefix.len() <= s.len() && s.take(prefix.len() as int) == prefix
}

/// Whether a text starts with a prefix (`str::starts_with`).
pub fn starts_with(s: &str, prefix: &str) -> (res: bool)
    ensures
        res == starts_with_spec(s@, prefix@),
{
    let cs = chars_of(s);
    let ps = chars_of(prefix);
    if ps.len() > cs.len() {
        return false;
    }
    let mut i: usize = 0;
    while i < ps.len()
        invariant
            i <= ps.len() <= cs.len(),
            cs@ == s@,
            ps@ == prefix@,
            forall|j: int| 0 <= j < i ==> cs@[j] == ps@[j],
        decreases ps.len() - i,
    {
        if cs[i] != ps[i] {
            proof {
                assert(s@.take(prefix@.len() as int)[i as int] != prefix@[i as int]);
            }
            return false;
        }
        i = i + 1;
    }
    proof {
        assert(s@.take(prefix@.len() as int) =~= prefix@);
    }
    true
}

/// Whether a text contains a character.
pub fn contains_char(s: &str, c: char) -> (res: bool)
    ensures
        res == s@.contains(c),
{
    let cs = chars_of(s);
    let mut i: usize = 0;
    while i < cs.len()
        invariant
            i <= cs.len(),
            cs@ == s@,
            forall|j: int| 0 <= j < i ==> cs@[j] != c,
        decreases cs.len() - i,
    {
        if cs[i] == c {
            return true;
        }
        i = i + 1;
    }
    false
}

/// The text without every trailing occurrence of a character (`trim_end_matches`).
pub open spec fn trim_end_char_spec(s: Seq<char>, c: char) -> Seq<char>
    decreases s.len(),
{
    if s.len() > 0 && s.last() == c {
        trim_end_char_spec(s.drop_last(), c)
    } else {
        s
    }
}

/// Removes every trailing occurrence of a character.
pub fn trim_end_char(s: &str, c: char) -> (res: String)
    ensures
        res@ == trim_end_char_spec(s@, c),
{
    let cs = chars_of(s);
    let mut end: usize = cs.len();
    proof {
        assert(cs@.take(end as int) =~= cs@);
    }
    while end > 0 && cs[end - 1] == c
        invariant
            end <= cs.len(),
            cs@ == s@,
            trim_end_char_spec(s@, c) == trim_end_char_spec(cs@.take(end as int), c),
        decreases end,
    {
        proof {
            assert(cs@.take(end as int).drop_last() =~= cs@.take(end - 1));
        }
        end = end - 1;
    }
    proof {
        if end > 0 {
            assert(cs@.take(end as int).last() == cs@[end - 1]);
        }
    }
    let mut out: Vec<char> = Vec::new();
    let mut i: usize = 0;
    while i < end
        invariant
            i <= end <= cs.len(),
            out@ == cs@.take(i as int),
        decreases end - i,
    {
        out.push(cs[i]);
        i = i + 1;
        proof {
            assert(out@ =~= cs@.take(i as int));
        }
    }
    string_of(&out)
}

/// The text without every leading occurrence of a non-empty prefix (`trim_start_matches`).
pub open spec fn trim_start_text_spec(s: Seq<char>, prefix: Seq<char>) -> Seq<char>
    decreases s.len(),
{
    if prefix.len() > 0 && starts_with_spec(s, prefix) {
        trim_start_text_spec(s.skip(prefix.len() as int), prefix)
    } else {
        s
    }
}

/// Removes every leading occurrence of a non-empty prefix.
pub fn trim_start_text(s: &str, prefix: &str) -> (res: String)
    ensures
        res@ == trim_start_text_spec(s@, prefix@),
{
    let cs = chars_of(s);
    let ps = chars_of(prefix);
    let mut start: usize = 0;
    proof {
        assert(cs@.skip(0) =~= cs@);
    }
    loop
        invariant
            start <= cs.len(),
            cs@ == s@,
            ps@ == prefix@,
            trim_start_text_spec(s@, prefix@) == trim_start_text_spec(cs@.skip(start as int), prefix@),
        ensures
            start <= cs.len(),
            trim_start_text_spec(s@, prefix@) == trim_start_text_spec(cs@.skip(start as int), prefix@),
            !(ps@.len() > 0 && starts_with_spec(cs@.skip(start as int), ps@)),
        decreases cs.len() - start,
    {
        if ps.len() == 0 || cs.len() - start < ps.len() {
            break;
        }
        let mut same = true;
        let mut j: usize = 0;
        while j < ps.len()
            invariant
                j <= ps.len(),
                start + ps.len() <= cs.len(),
                same <==> forall|k: int| 0 <= k < j ==> cs@[start + k] == ps@[k],
            decreases ps.len() - j,
        {
            if cs[start + j] != ps[j] {
                same = false;
            }
            j = j + 1;
        }
        let ghost rest = cs@.skip(start as int);
        if !same {
            proof {
                let k = choose|k: int| 0 <= k < ps@.len() && cs@[start + k] != ps@[k];
                assert(rest.take(ps@.len() as int)[k] != ps@[k]);
            }
            break;
        }
        proof {
            assert(rest.take(ps@.len() as int) =~= ps@);
            assert(rest.skip(ps@.len() as int) =~= cs@.skip(start + ps@.len()));
        }
        start = start + ps.len();
    }
    let mut out: Vec<char> = Vec::new();
    let mut i: usize = start;
    while i < cs.len()
        invariant
            start <= i <= cs.len(),
            out@ == cs@.subrange(start as int, i as int),
        decreases cs.len() - i,
    {
        out.push(cs[i]);
        i = i + 1;
        proof {
            assert(out@ =~= cs@.subrange(start as int, i as int));
        }
    }
    proof {
        assert(out@ =~= cs@.skip(start as int));
    }
    string_of(&out)
}

} // verus!
