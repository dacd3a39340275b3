//! Character classes and string helpers shared by the validators.
use vstd::prelude::*;
use vstd::string::StringExecFns;

verus! {

/// `char::is_control`: the Unicode general category `Cc`.
pub open spec fn is_control_char(c: char) -> bool {
    (c as u32) <= 0x1f || (0x7f <= (c as u32) && (c as u32) <= 0x9f)
}

/// `char::is_whitespace`: the Unicode `White_Space` property.
pub open spec fn is_whitespace_char(c: char) -> bool {
    let v = c as u32;
    ||| 0x09 <= v && v <= 0x0d
    ||| v == 0x20
    ||| v == 0x85
    ||| v == 0xa0
    ||| v == 0x1680
    ||| 0x2000 <= v && v <= 0x200a
    ||| v == 0x2028
    ||| v == 0x2029
    ||| v == 0x202f
    ||| v == 0x205f
    ||| v == 0x3000
}

/// Some character of `s` is a control character.
pub open spec fn has_control(s: Seq<char>) -> bool {
    exists|i: int| 0 <= i < s.len() && is_control_char(#[trigger] s[i])
}

/// Some character of `s` is a control character other than a line feed,
/// a carriage return or a tab.
pub open spec fn has_control_except_layout(s: Seq<char>) -> bool {
    exists|i: int|
        0 <= i < s.len() && is_control_char(#[trigger] s[i]) && s[i] != '\n' && s[i] != '\r'
            && s[i] != '\t'
}

/// Every character of `s` is whitespace: what `str::trim` leaves empty.
pub open spec fn is_blank_seq(s: Seq<char>) -> bool {
    forall|i: int| 0 <= i < s.len() ==> is_whitespace_char(#[trigger] s[i])
}

/// Neither end of `s` is whitespace: what `str::trim` leaves unchanged.
pub open spec fn is_trimmed_seq(s: Seq<char>) -> bool {
    s.len() == 0 || (!is_whitespace_char(s[0]) && !is_whitespace_char(s.last()))
}

/// The number of bytes of the UTF-8 encoding of `s`.
pub open spec fn byte_len(s: Seq<char>) -> nat {
    vstd::utf8::encode_utf8(s).len()
}

pub open spec fn trim_start_seq(s: Seq<char>) -> Seq<char>
    decreases s.len(),
{
    if s.len() > 0 && is_whitespace_char(s[0]) {
        trim_start_seq(s.subrange(1, s.len() as int))
    } else {
        s
    }
}

pub open spec fn trim_end_seq(s: Seq<char>) -> Seq<char>
    decreases s.len(),
{
    if s.len() > 0 && is_whitespace_char(s.last()) {
        trim_end_seq(s.drop_last())
    } else {
        s
    }
}

/// `str::trim`: leading and trailing whitespace removed.
pub open spec fn trim_seq(s: Seq<char>) -> Seq<char> {
    trim_end_seq(trim_start_seq(s))
}

/// `str::len`: the number of bytes of the UTF-8 encoding.
pub fn str_byte_len(s: &str) -> (r: usize)
    ensures
        r == byte_len(s@),
{
    s.as_bytes().len()
}

pub fn is_control(c: char) -> (r: bool)
    ensures
        r == is_control_char(c),
{
    let v = c as u32;
    v <= 0x1f || (0x7f <= v && v <= 0x9f)
}

pub fn is_whitespace(c: char) -> (r: bool)
    ensures
        r == is_whitespace_char(c),
{
    let v = c as u32;
    (0x09 <= v && v <= 0x0d) || v == 0x20 || v == 0x85 || v == 0xa0 || v == 0x1680 || (0x2000
        <= v && v <= 0x200a) || v == 0x2028 || v == 0x2029 || v == 0x202f || v == 0x205f || v
        == 0x3000
}

pub fn contains_control(s: &str) -> (r: bool)
    ensures
        r == has_control(s@),
{
    let mut found = false;
    for c in it: s.chars()
        invariant
            it.seq() == s@,
            found == (exists|j: int| 0 <= j < it.index() && is_control_char(#[trigger] s@[j])),
    {
        if is_control(c) {
            found = true;
        }
    }
    found
}

pub fn contains_control_except_layout(s: &str) -> (r: bool)
    ensures
        r == has_control_except_layout(s@),
{
    let mut found = false;
    for c in it: s.chars()
        invariant
            it.seq() == s@,
            found == (exists|j: int|
                0 <= j < it.index() && is_control_char(#[trigger] s@[j]) && s@[j] != '\n' && s@[j]
                    != '\r' && s@[j] != '\t'),
    {
        if is_control(c) && c != '\n' && c != '\r' && c != '\t' {
            found = true;
        }
    }
    found
}

/// `value.trim().is_empty()`.
pub fn is_blank(s: &str) -> (r: bool)
    ensures
        r == is_blank_seq(s@),
{
    let mut blank = true;
    for c in it: s.chars()
        invariant
            it.seq() == s@,
            blank == (forall|j: int| 0 <= j < it.index() ==> is_whitespace_char(#[trigger] s@[j])),
    {
        if !is_whitespace(c) {
            blank = false;
        }
    }
    blank
}

/// `value.trim() == value`.
pub fn is_trimmed(s: &str) -> (r: bool)
    ensures
        r == is_trimmed_seq(s@),
        r == (trim_seq(s@) == s@),
{
    let mut first_ws = false;
    let mut last_ws = false;
    let mut seen = false;
    for c in it: s.chars()
        invariant
            it.seq() == s@,
            seen == (it.index() > 0),
            seen ==> first_ws == is_whitespace_char(s@[0]),
            seen ==> last_ws == is_whitespace_char(s@[it.index() - 1]),
    {
        if !seen {
            first_ws = is_whitespace(c);
            seen = true;
        }
        last_ws = is_whitespace(c);
    }
    proof {
        lemma_trim_fixed(s@);
    }
    !seen || (!first_ws && !last_ws)
}

pub proof fn lemma_trim_start_len(s: Seq<char>)
    ensures
        trim_start_seq(s).len() <= s.len(),
        (trim_start_seq(s).len() == s.len()) == (s.len() == 0 || !is_whitespace_char(s[0])),
    decreases s.len(),
{
    if s.len() > 0 && is_whitespace_char(s[0]) {
        lemma_trim_start_len(s.subrange(1, s.len() as int));
    }
}

pub proof fn lemma_trim_end_len(s: Seq<char>)
    ensures
        trim_end_seq(s).len() <= s.len(),
        (trim_end_seq(s).len() == s.len()) == (s.len() == 0 || !is_whitespace_char(s.last())),
    decreases s.len(),
{
    if s.len() > 0 && is_whitespace_char(s.last()) {
        lemma_trim_end_len(s.drop_last());
    }
}

/// `str::trim` leaves exactly the trimmed strings unchanged.
pub proof fn lemma_trim_fixed(s: Seq<char>)
    ensures
        (trim_seq(s) == s) == is_trimmed_seq(s),
{
    lemma_trim_start_len(s);
    lemma_trim_end_len(trim_start_seq(s));
    if is_trimmed_seq(s) {
        assert(trim_start_seq(s) == s);
    }
}

/// `str::trim`.
#[verifier::external_body]
pub(crate) fn str_trim(s: &str) -> (r: &str)
    ensures
        r@ == trim_seq(s@),
{
    s.trim()
}

/// `String::push`.
#[verifier::external_body]
pub(crate) fn string_push(s: &mut String, c: char)
    ensures
        final(s)@ == old(s)@.push(c),
{
    s.push(c)
}

/// `a` followed by `b`.
pub fn concat_str(a: &str, b: &str) -> (r: String)
    ensures
        r@ == a@ + b@,
{
    let mut s = a.to_owned();
    s.append(b);
    s
}

/// `p` is a prefix of `s`.
pub open spec fn has_prefix(s: Seq<char>, p: Seq<char>) -> bool {
    p.len() <= s.len() && s.subrange(0, p.len() as int) == p
}

/// `p` is a suffix of `s`.
pub open spec fn has_suffix(s: Seq<char>, p: Seq<char>) -> bool {
    p.len() <= s.len() && s.subrange(s.len() - p.len(), s.len() as int) == p
}

/// `str::starts_with` for a string pattern.
pub fn starts_with(s: &str, p: &str) -> (r: bool)
    ensures
        r == has_prefix(s@, p@),
{
    let sv = chars_of(s);
    let pv = chars_of(p);
    chars_start_with(&sv, &pv, 0)
}

/// `str::ends_with` for a string pattern.
pub fn ends_with(s: &str, p: &str) -> (r: bool)
    ensures
        r == has_suffix(s@, p@),
{
    let sv = chars_of(s);
    let pv = chars_of(p);
    if pv.len() > sv.len() {
        return false;
    }
    chars_start_with(&sv, &pv, sv.len() - pv.len())
}

/// `p` occurs in `s`.
pub open spec fn contains_seq(s: Seq<char>, p: Seq<char>) -> bool {
    exists|i: int|
        0 <= i && i + p.len() <= s.len() && #[trigger] s.subrange(i, i + p.len()) == p
}

/// `str::contains` for a string pattern.
pub fn str_contains(s: &str, p: &str) -> (r: bool)
    ensures
        r == contains_seq(s@, p@),
{
    let sv = chars_of(s);
    let pv = chars_of(p);
    if pv.len() > sv.len() {
        return false;
    }
    if pv.len() == 0 {
        assert(s@.subrange(0, 0 + p@.len() as int) =~= p@);
        return true;
    }
    let mut i: usize = 0;
    while i <= sv.len() - pv.len()
        invariant
            sv@ == s@,
            pv@ == p@,
            1 <= pv@.len() <= sv@.len(),
            sv@.len() == sv.len(),
            pv@.len() == pv.len(),
            i <= sv@.len() - pv@.len() + 1,
            forall|j: int| 0 <= j < i ==> #[trigger] s@.subrange(j, j + p@.len()) != p@,
        decreases sv@.len() - pv@.len() + 1 - i,
    {
        if chars_start_with(&sv, &pv, i) {
            return true;
        }
        i = i + 1;
    }
    false
}

/// The characters of `s`.
pub fn chars_of(s: &str) -> (r: Vec<char>)
    ensures
        r@ == s@,
{
    let mut v: Vec<char> = Vec::new();
    for c in it: s.chars()
        invariant
            it.seq() == s@,
            v@ == s@.take(it.index() as int),
    {
        proof {
            assert(s@.take(it.index() + 1) == s@.take(it.index() as int).push(c));
        }
        v.push(c);
    }
    proof {
        assert(s@.take(s@.len() as int) == s@);
    }
    v
}

/// `p` occurs in `s` at `offset`.
fn chars_start_with(s: &Vec<char>, p: &Vec<char>, offset: usize) -> (r: bool)
    requires
        offset <= s@.len(),
    ensures
        r == (offset + p@.len() <= s@.len() && s@.subrange(offset as int, offset + p@.len()) == p@),
{
    if p.len() > s.len() - offset {
        return false;
    }
    let mut i: usize = 0;
    while i < p.len()
        invariant
            offset + p@.len() <= s@.len(),
            s@.len() == s.len(),
            p@.len() == p.len(),
            i <= p@.len(),
            forall|j: int| 0 <= j < i ==> s@[offset + j] == p@[j],
        decreases p@.len() - i,
    {
        if s[offset + i] != p[i] {
            assert(s@.subrange(offset as int, offset + p@.len())[i as int] != p@[i as int]);
            return false;
        }
        i = i + 1;
    }
    assert(s@.subrange(offset as int, offset + p@.len()) =~= p@);
    true
}

/// Classes of bytes accepted in identifiers of the authentication protocol.
#[derive(Clone, Copy, Debug, PartialEq, Eq, Structural)]
pub enum ByteClass {
    /// ASCII letters and digits, `_`, `-`, `.`, `:`.
    ErrorCode,
    /// ASCII lowercase letters and digits, `-`.
    Slug,
    /// ASCII letters and digits, `-`, `.`, `_`, `~`.
    OAuthState,
    /// ASCII letters and digits, `-`, `_`.
    Base64Url,
    /// The `scope-token` characters of RFC 6749: `!` and `#` to `~` but `\`.
    ScopeToken,
    /// ASCII lowercase letters.
    LowerAlpha,
    /// ASCII lowercase letters and digits.
    LowerAlnum,
}

pub open spec fn is_ascii_alnum(b: u8) -> bool {
    (0x30 <= b && b <= 0x39) || (0x41 <= b && b <= 0x5a) || (0x61 <= b && b <= 0x7a)
}

pub open spec fn byte_in_class(b: u8, class: ByteClass) -> bool {
    match class {
        ByteClass::ErrorCode => is_ascii_alnum(b) || b == 0x5f || b == 0x2d || b == 0x2e || b
            == 0x3a,
        ByteClass::Slug => (0x61 <= b && b <= 0x7a) || (0x30 <= b && b <= 0x39) || b == 0x2d,
        ByteClass::OAuthState => is_ascii_alnum(b) || b == 0x2d || b == 0x2e || b == 0x5f || b
            == 0x7e,
        ByteClass::Base64Url => is_ascii_alnum(b) || b == 0x2d || b == 0x5f,
        ByteClass::ScopeToken => b == 0x21 || (0x23 <= b && b <= 0x5b) || (0x5d <= b && b
            <= 0x7e),
        ByteClass::LowerAlpha => 0x61 <= b && b <= 0x7a,
        ByteClass::LowerAlnum => (0x61 <= b && b <= 0x7a) || (0x30 <= b && b <= 0x39),
    }
}

pub open spec fn all_bytes_in(bytes: Seq<u8>, class: ByteClass) -> bool {
    forall|i: int| 0 <= i < bytes.len() ==> byte_in_class(#[trigger] bytes[i], class)
}

pub fn is_byte_in_class(b: u8, class: ByteClass) -> (r: bool)
    ensures
        r == byte_in_class(b, class),
{
    let alnum = (0x30 <= b && b <= 0x39) || (0x41 <= b && b <= 0x5a) || (0x61 <= b && b <= 0x7a);
    match class {
        ByteClass::ErrorCode => alnum || b == 0x5f || b == 0x2d || b == 0x2e || b == 0x3a,
        ByteClass::Slug => (0x61 <= b && b <= 0x7a) || (0x30 <= b && b <= 0x39) || b == 0x2d,
        ByteClass::OAuthState => alnum || b == 0x2d || b == 0x2e || b == 0x5f || b == 0x7e,
        ByteClass::Base64Url => alnum || b == 0x2d || b == 0x5f,
        ByteClass::ScopeToken => b == 0x21 || (0x23 <= b && b <= 0x5b) || (0x5d <= b && b
            <= 0x7e),
        ByteClass::LowerAlpha => 0x61 <= b && b <= 0x7a,
        ByteClass::LowerAlnum => (0x61 <= b && b <= 0x7a) || (0x30 <= b && b <= 0x39),
    }
}

/// Every byte of the UTF-8 encoding of `s` belongs to `class`.
pub fn bytes_in_class(s: &str, class: ByteClass) -> (r: bool)
    ensures
        r == all_bytes_in(vstd::utf8::encode_utf8(s@), class),
{
    let bytes = s.as_bytes();
    let mut i: usize = 0;
    while i < bytes.len()
        invariant
            bytes@ == vstd::utf8::encode_utf8(s@),
            i <= bytes.len(),
            forall|j: int| 0 <= j < i ==> byte_in_class(#[trigger] bytes@[j], class),
        decreases bytes.len() - i,
    {
        if !is_byte_in_class(bytes[i], class) {
            return false;
        }
        i = i + 1;
    }
    true
}

/// `==` on string slices.
pub fn str_eq(a: &str, b: &str) -> (r: bool)
    ensures
        r == (a@ == b@),
{
    let ab = a.as_bytes();
    let bb = b.as_bytes();
    proof {
        vstd::utf8::encode_utf8_decode_utf8(a@);
        vstd::utf8::encode_utf8_decode_utf8(b@);
    }
    if ab.len() != bb.len() {
        return false;
    }
    let mut i: usize = 0;
    while i < ab.len()
        invariant
            ab@ == vstd::utf8::encode_utf8(a@),
            bb@ == vstd::utf8::encode_utf8(b@),
            ab@.len() == bb@.len(),
            i <= ab@.len(),
            forall|j: int| 0 <= j < i ==> ab@[j] == bb@[j],
        decreases ab@.len() - i,
    {
        if ab[i] != bb[i] {
            return false;
        }
        i = i + 1;
    }
    proof {
        assert(ab@ == bb@);
    }
    true
}

/// The views of a sequence of strings.
pub open spec fn views(v: Seq<String>) -> Seq<Seq<char>> {
    v.map_values(|x: String| x@)
}

/// `str::split` on one character: the pieces between the separators, empty
/// pieces included.
pub open spec fn split_seq(s: Seq<char>, sep: char) -> Seq<Seq<char>>
    decreases s.len(),
{
    if s.len() == 0 {
        seq![Seq::<char>::empty()]
    } else {
        let prev = split_seq(s.drop_last(), sep);
        if s.last() == sep {
            prev.push(Seq::<char>::empty())
        } else {
            prev.update(prev.len() - 1, prev.last().push(s.last()))
        }
    }
}

pub proof fn lemma_split_nonempty(s: Seq<char>, sep: char)
    ensures
        split_seq(s, sep).len() >= 1,
    decreases s.len(),
{
    if s.len() > 0 {
        lemma_split_nonempty(s.drop_last(), sep);
    }
}

/// An ASCII character is encoded as its own byte.
pub proof fn lemma_ascii_scalar(c: char)
    requires
        (c as u32) <= 0x7f,
    ensures
        vstd::utf8::encode_scalar(c as u32) == seq![(c as u32) as u8],
{
    let v = c as u32;
    assert((v & 0x7F) as u8 == v as u8) by (bit_vector)
        requires
            v <= 0x7f,
    ;
}

/// An ASCII text is encoded byte for byte.
pub proof fn lemma_ascii_utf8(s: Seq<char>)
    requires
        forall|i: int| 0 <= i < s.len() ==> (#[trigger] s[i] as u32) <= 0x7f,
    ensures
        vstd::utf8::encode_utf8(s).len() == s.len(),
        forall|i: int|
            0 <= i < s.len() ==> #[trigger] vstd::utf8::encode_utf8(s)[i] == (s[i] as u32) as u8,
    decreases s.len(),
{
    if s.len() > 0 {
        let rest = s.drop_first();
        assert forall|i: int| 0 <= i < rest.len() implies (#[trigger] rest[i] as u32) <= 0x7f by {
            assert(rest[i] == s[i + 1]);
        }
        lemma_ascii_utf8(rest);
        lemma_ascii_scalar(s[0]);
        assert forall|i: int| 0 <= i < s.len() implies #[trigger] vstd::utf8::encode_utf8(s)[i]
            == (s[i] as u32) as u8 by {
            if i > 0 {
                assert(rest[i - 1] == s[i]);
            }
        }
    }
}

/// A text without the separator is one piece.
pub proof fn lemma_split_without_sep(s: Seq<char>, sep: char)
    requires
        !s.contains(sep),
    ensures
        split_seq(s, sep) == seq![s],
    decreases s.len(),
{
    if s.len() > 0 {
        assert(!s.drop_last().contains(sep)) by {
            if s.drop_last().contains(sep) {
                let i = choose|i: int| 0 <= i < s.drop_last().len() && s.drop_last()[i] == sep;
                assert(s[i] == sep);
            }
        }
        lemma_split_without_sep(s.drop_last(), sep);
        assert(s.last() != sep) by {
            assert(s[s.len() - 1] == s.last());
        }
        assert(s.drop_last().push(s.last()) =~= s);
        assert(seq![s.drop_last()].update(0, s) =~= seq![s]);
    } else {
        assert(s =~= Seq::<char>::empty());
    }
}

/// A separator followed by a text without it ends the pieces with that text.
pub proof fn lemma_split_after_sep(a: Seq<char>, b: Seq<char>, sep: char)
    requires
        !b.contains(sep),
    ensures
        split_seq(a + seq![sep] + b, sep) == split_seq(a, sep).push(b),
    decreases b.len(),
{
    let s = a + seq![sep] + b;
    if b.len() == 0 {
        assert(s.drop_last() =~= a);
        assert(b =~= Seq::<char>::empty());
    } else {
        assert(!b.drop_last().contains(sep)) by {
            if b.drop_last().contains(sep) {
                let i = choose|i: int| 0 <= i < b.drop_last().len() && b.drop_last()[i] == sep;
                assert(b[i] == sep);
            }
        }
        assert(s.drop_last() =~= a + seq![sep] + b.drop_last());
        lemma_split_after_sep(a, b.drop_last(), sep);
        assert(s.last() == b.last());
        assert(b.last() != sep) by {
            assert(b[b.len() - 1] == b.last());
        }
        lemma_split_nonempty(a, sep);
        let prev = split_seq(a, sep).push(b.drop_last());
        assert(prev.update(prev.len() - 1, prev.last().push(s.last())) =~= split_seq(a, sep).push(b)) by {
            assert(b.drop_last().push(b.last()) =~= b);
        }
    }
}

/// `str::split(sep)`, collected.
pub fn split_str(s: &str, sep: char) -> (r: Vec<String>)
    ensures
        views(r@) == split_seq(s@, sep),
{
    let mut pieces: Vec<String> = Vec::new();
    let mut current = String::new();
    for c in it: s.chars()
        invariant
            it.seq() == s@,
            views(pieces@).push(current@) == split_seq(s@.take(it.index()), sep),
    {
        let ghost i = it.index();
        proof {
            assert(s@.take(i + 1).drop_last() == s@.take(i));
            lemma_split_nonempty(s@.take(i), sep);
        }
        if c == sep {
            let ghost prev_pieces = pieces@;
            let ghost prev_current = current@;
            pieces.push(current);
            current = String::new();
            proof {
                assert(views(pieces@) =~= views(prev_pieces).push(prev_current));
            }
        } else {
            string_push(&mut current, c);
        }
        proof {
            assert(views(pieces@).push(current@) =~= split_seq(s@.take(i + 1), sep));
        }
    }
    proof {
        assert(s@.take(s@.len() as int) == s@);
    }
    let ghost before = pieces@;
    pieces.push(current);
    proof {
        assert(views(pieces@) =~= views(before).push(current@));
    }
    pieces
}


/// The decimal digit for `d`, for `d` below ten.
pub open spec fn digit_char(d: nat) -> char {
    if d == 0 { '0' }
    else if d == 1 { '1' }
    else if d == 2 { '2' }
    else if d == 3 { '3' }
    else if d == 4 { '4' }
    else if d == 5 { '5' }
    else if d == 6 { '6' }
    else if d == 7 { '7' }
    else if d == 8 { '8' }
    else { '9' }
}

/// `n` written in decimal, as `Display` writes an integer.
pub open spec fn decimal(n: nat) -> Seq<char>
    decreases n,
{
    if n < 10 {
        seq![digit_char(n)]
    } else {
        decimal(n / 10).push(digit_char(n % 10))
    }
}

fn digit(d: u64) -> (r: char)
    requires
        d < 10,
    ensures
        r == digit_char(d as nat),
{
    if d == 0 { '0' }
    else if d == 1 { '1' }
    else if d == 2 { '2' }
    else if d == 3 { '3' }
    else if d == 4 { '4' }
    else if d == 5 { '5' }
    else if d == 6 { '6' }
    else if d == 7 { '7' }
    else if d == 8 { '8' }
    else { '9' }
}

/// `n.to_string()`.
pub fn decimal_string(n: u64) -> (r: String)
    ensures
        r@ == decimal(n as nat),
    decreases n,
{
    if n < 10 {
        let mut s = String::new();
        string_push(&mut s, digit(n));
        proof {
            assert(s@ =~= seq![digit_char(n as nat)]);
        }
        s
    } else {
        let mut s = decimal_string(n / 10);
        string_push(&mut s, digit(n % 10));
        s
    }
}


/// `char::to_ascii_lowercase`.
pub open spec fn ascii_lower(c: char) -> char {
    if 'A' <= c && c <= 'Z' {
        ((c as u32) + 32) as char
    } else {
        c
    }
}

/// `str::to_ascii_lowercase`: ASCII letters `A` to `Z` mapped to `a` to
/// `z`, every other character unchanged.
#[verifier::external_body]
pub(crate) fn to_ascii_lowercase(s: &str) -> (r: String)
    ensures
        r@ == s@.map_values(|c: char| ascii_lower(c)),
{
    s.to_ascii_lowercase()
}

} // verus!
