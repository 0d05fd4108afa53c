//! Small verified string helpers shared by the rest of the crate.

use vstd::prelude::*;

verus! {

/// Appends one character to a `String` (`String::push`).
#[verifier::external_body]
pub(crate) fn push_char(s: &mut String, c: char)
    ensures
        final(s)@ == old(s)@.push(c),
{
    s.push(c)
}

/// The characters of `s`, in order.
pub fn to_chars(s: &str) -> (v: Vec<char>)
    ensures
        v@ == s@,
{
    let mut v: Vec<char> = Vec::new();
    for c in it: s.chars()
        invariant
            v@ == it.seq().take(it.index() as int),
            it.seq() == s@,
    {
        v.push(c);
    }
    v
}

/// Builds a `String` from a slice of characters.
pub fn from_chars(cs: &[char]) -> (s: String)
    ensures
        s@ == cs@,
{
    let mut s = String::new();
    let mut i: usize = 0;
    while i < cs.len()
        invariant
            i <= cs@.len(),
            s@ == cs@.take(i as int),
        decreases cs@.len() - i,
    {
        push_char(&mut s, cs[i]);
        i = i + 1;
        assert(s@ == cs@.take(i as int));
    }
    assert(cs@.take(cs@.len() as int) == cs@);
    s
}


/// Number of bytes in the UTF-8 encoding of `s`.
pub open spec fn utf8_len(s: Seq<char>) -> nat {
    vstd::utf8::encode_utf8(s).len()
}

/// The abstract contents of a list of strings.
/// An optional string as an optional sequence of characters.
pub open spec fn opt_str_view(o: Option<String>) -> Option<Seq<char>> {
    match o {
        Some(s) => Some(s@),
        None => None,
    }
}

pub open spec fn strs_view(v: Seq<String>) -> Seq<Seq<char>> {
    v.map_values(|s: String| s@)
}

/// The decimal digit character for `d` (`d < 10`).
pub open spec fn digit_char(d: nat) -> char {
    if d == 0 { '0' }
    else if d == 1 { '1' }
    else if d == 2 { '2' }
    else if d == 3 { '3' }
    else if d == 4 { '4' }
    else if d == 5 { '5' }
    else if d == 6 { '6' }
    else if d == 7 { '7' }
    else if d == 8 { '8' }
    else { '9' }
}

/// The base-10 rendering of `n`, most significant digit first, no leading zeros.
pub open spec fn decimal(n: nat) -> Seq<char>
    decreases n,
{
    if n < 10 {
        seq![digit_char(n)]
    } else {
        decimal(n / 10).push(digit_char(n % 10))
    }
}

fn digit(d: usize) -> (c: char)
    requires
        d < 10,
    ensures
        c == digit_char(d as nat),
{
    if d == 0 { '0' }
    else if d == 1 { '1' }
    else if d == 2 { '2' }
    else if d == 3 { '3' }
    else if d == 4 { '4' }
    else if d == 5 { '5' }
    else if d == 6 { '6' }
    else if d == 7 { '7' }
    else if d == 8 { '8' }
    else { '9' }
}

/// Renders `n` in base 10, as `n.to_string()` does for unsigned integers.
pub fn decimal_string(n: u64) -> (s: String)
    ensures
        s@ == decimal(n as nat),
    decreases n,
{
    if n < 10 {
        let mut s = String::new();
        push_char(&mut s, digit(n as usize));
        assert(s@ =~= seq![digit_char(n as nat)]);
        s
    } else {
        let mut s = decimal_string(n / 10);
        push_char(&mut s, digit((n % 10) as usize));
        s
    }
}

/// The base-10 rendering of a signed integer (`-` before negative values).
pub open spec fn signed_decimal(i: int) -> Seq<char> {
    if i < 0 {
        seq!['-'] + decimal((-i) as nat)
    } else {
        decimal(i as nat)
    }
}

/// Renders `i` in base 10, as `i.to_string()` does for signed integers.
pub fn signed_decimal_string(i: i32) -> (s: String)
    ensures
        s@ == signed_decimal(i as int),
{
    if i < 0 {
        let mut s = String::from_str("-");
        let mag: i64 = -(i as i64);
        let d = decimal_string(mag as u64);
        s.append(d.as_str());
        proof { reveal_strlit("-"); assert("-"@ =~= seq!['-']); }
        s
    } else {
        decimal_string(i as u64)
    }
}

/// Last path component: everything after the final `/` (the whole string when
/// there is none).
pub open spec fn basename(p: Seq<char>) -> Seq<char>
    decreases p.len(),
{
    if p.len() == 0 {
        p
    } else if p.last() == '/' {
        Seq::empty()
    } else {
        basename(p.drop_last()).push(p.last())
    }
}

/// Computes `basename(s@)`.
pub fn basename_of(s: &str) -> (r: String)
    ensures
        r@ == basename(s@),
{
    let mut cur = String::new();
    let ghost full = s@;
    for c in it: s.chars()
        invariant
            it.seq() == full,
            cur@ == basename(full.take(it.index() as int)),
    {
        let ghost i = it.index();
        assert(full.take(i + 1).drop_last() =~= full.take(i as int));
        if c == '/' {
            cur = String::new();
        } else {
            push_char(&mut cur, c);
        }
        assert(cur@ == basename(full.take(i + 1)));
    }
    assert(full.take(full.len() as int) =~= full);
    cur
}

/// Whether `s` begins with the character `c`.
pub fn starts_with_char(s: &str, c: char) -> (b: bool)
    ensures
        b == (s@.len() > 0 && s@[0] == c),
{
    let mut it = s.chars();
    let first = it.next();
    match first {
        Some(x) => x == c,
        None => false,
    }
}


/// Whether `c` has the Unicode `White_Space` property (`char::is_whitespace`):
/// U+0009..U+000D, U+0020, U+0085, U+00A0, U+1680, U+2000..U+200A, U+2028,
/// U+2029, U+202F, U+205F and U+3000.
pub open spec fn is_unicode_whitespace(c: char) -> bool {
    let v = c as u32;
    ||| 0x9 <= v <= 0xD
    ||| v == 0x20
    ||| v == 0x85
    ||| v == 0xA0
    ||| v == 0x1680
    ||| 0x2000 <= v <= 0x200A
    ||| v == 0x2028
    ||| v == 0x2029
    ||| v == 0x202F
    ||| v == 0x205F
    ||| v == 0x3000
}

/// `char::is_whitespace`: whether `c` has the Unicode `White_Space` property.
pub fn char_is_whitespace(c: char) -> (b: bool)
    ensures
        b == is_unicode_whitespace(c),
{
    let v = c as u32;
    (0x9 <= v && v <= 0xD) || v == 0x20 || v == 0x85 || v == 0xA0 || v == 0x1680 || (0x2000 <= v && v <= 0x200A)
        || v == 0x2028 || v == 0x2029 || v == 0x202F || v == 0x205F || v == 0x3000
}

/// Scanning state of a whitespace split: the finished words and the word in progress.
pub open spec fn words_scan(s: Seq<char>) -> (Seq<Seq<char>>, Seq<char>)
    decreases s.len(),
{
    if s.len() == 0 {
        (Seq::empty(), Seq::empty())
    } else {
        let (ws, cur) = words_scan(s.drop_last());
        let c = s.last();
        if is_unicode_whitespace(c) {
            if cur.len() > 0 { (ws.push(cur), Seq::empty()) } else { (ws, Seq::empty()) }
        } else {
            (ws, cur.push(c))
        }
    }
}

/// The maximal runs of non-whitespace characters of `s`, in order
/// (`str::split_whitespace`).
pub open spec fn words(s: Seq<char>) -> Seq<Seq<char>> {
    let (ws, cur) = words_scan(s);
    if cur.len() > 0 { ws.push(cur) } else { ws }
}

/// Splits `s` on whitespace runs, dropping empty pieces.
pub fn split_words(s: &str) -> (ws: Vec<String>)
    ensures
        strs_view(ws@) == words(s@),
{
    let ghost full = s@;
    let mut ws: Vec<String> = Vec::new();
    let mut cur = String::new();
    let mut in_word = false;
    for c in it: s.chars()
        invariant
            it.seq() == full,
            words_scan(full.take(it.index() as int)) == (strs_view(ws@), cur@),
            in_word == (cur@.len() > 0),
    {
        let ghost i = it.index();
        assert(full.take(i + 1).drop_last() =~= full.take(i as int));
        assert(full.take(i + 1).last() == c);
        let ghost w0 = ws@;
        if char_is_whitespace(c) {
            if in_word {
                let mut done = String::new();
                std::mem::swap(&mut done, &mut cur);
                ws.push(done);
                assert(strs_view(ws@) =~= strs_view(w0).push(done@));
                in_word = false;
            }
        } else {
            push_char(&mut cur, c);
            in_word = true;
        }
    }
    assert(full.take(full.len() as int) =~= full);
    if in_word {
        let ghost w0 = ws@;
        let ghost cv = cur@;
        ws.push(cur);
        assert(strs_view(ws@) =~= strs_view(w0).push(cv));
    }
    ws
}

/// Whether `needle` occurs as a contiguous piece of `hay`.
pub open spec fn contains_piece(hay: Seq<char>, needle: Seq<char>) -> bool {
    exists|i: int| 0 <= i && i + needle.len() <= hay.len() && #[trigger] hay.subrange(i, i + needle.len()) == needle
}

/// Whether `needle` occurs in `hay`.
pub fn str_contains(hay: &str, needle: &str) -> (b: bool)
    ensures
        b == contains_piece(hay@, needle@),
{
    let h = to_chars(hay);
    let n = to_chars(needle);
    if n.len() > h.len() {
        return false;
    }
    if n.len() == 0 {
        assert(hay@.subrange(0, 0int + needle@.len()) =~= needle@);
        return true;
    }
    let last = h.len() - n.len();
    let mut i: usize = 0;
    while i <= last
        invariant
            h@ == hay@,
            n@ == needle@,
            last == h@.len() - n@.len(),
            h@.len() == h.len(),
            n@.len() > 0,
            i <= last + 1,
            forall|k: int| 0 <= k < i ==> #[trigger] h@.subrange(k, k + n@.len()) != n@,
        decreases last + 1 - i,
    {
        let mut j: usize = 0;
        let mut same = true;
        while j < n.len()
            invariant
                h@ == hay@,
                n@ == needle@,
                i <= last,
                last == h@.len() - n@.len(),
                h@.len() == h.len(),
                j <= n@.len(),
                same == forall|t: int| 0 <= t < j ==> h@[i + t] == n@[t],
            decreases n@.len() - j,
        {
            if h[i + j] != n[j] {
                same = false;
            }
            j = j + 1;
        }
        if same {
            assert(hay@.subrange(i as int, i + needle@.len()) =~= needle@);
            return true;
        }
        assert(h@.subrange(i as int, i + n@.len()) != n@) by {
            let t = choose|t: int| 0 <= t < n@.len() && h@[i + t] != n@[t];
            assert(h@.subrange(i as int, i + n@.len())[t] == h@[i + t]);
        }
        i = i + 1;
    }
    false
}

/// Lines joined by `\n` (no trailing newline).
pub open spec fn joined_text(lines: Seq<Seq<char>>) -> Seq<char>
    decreases lines.len(),
{
    if lines.len() == 0 {
        Seq::empty()
    } else if lines.len() == 1 {
        lines[0]
    } else {
        joined_text(lines.drop_last()) + seq!['\n'] + lines.last()
    }
}

/// `lines.join("\n")`.
pub fn join_lines(lines: &Vec<String>) -> (s: String)
    ensures
        s@ == joined_text(strs_view(lines@)),
{
    let ghost lv = strs_view(lines@);
    let mut s = String::new();
    let mut i: usize = 0;
    while i < lines.len()
        invariant
            i <= lines@.len(),
            lv == strs_view(lines@),
            s@ == joined_text(lv.take(i as int)),
        decreases lines@.len() - i,
    {
        assert(lv.take(i + 1).drop_last() =~= lv.take(i as int));
        assert(lv.take(i + 1).last() == lines@[i as int]@);
        if i > 0 {
            push_char(&mut s, '\n');
        } else {
            assert(Seq::<char>::empty() + lines@[0]@ =~= lines@[0]@);
        }
        s.append(lines[i].as_str());
        i = i + 1;
    }
    assert(lv.take(lines@.len() as int) =~= lv);
    s
}

} // verus!
