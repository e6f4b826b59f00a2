//! Text primitives: the character classes, prefixes, searches and renderings that the rest of the
//! daemon's rules are phrased in.
use vstd::prelude::*;
use vstd::string::StringExecFns;

verus! {

/// The number of bytes that `text` takes up in UTF-8.
pub open spec fn utf8_len(text: Seq<char>) -> nat {
    vstd::utf8::encode_utf8(text).len()
}

/// The characters with Unicode's `White_Space` property.
pub open spec fn white_space(c: char) -> bool {
    ||| 0x09 <= c as u32 <= 0x0d
    ||| c as u32 == 0x20
    ||| c as u32 == 0x85
    ||| c as u32 == 0xa0
    ||| c as u32 == 0x1680
    ||| 0x2000 <= c as u32 <= 0x200a
    ||| c as u32 == 0x2028
    ||| c as u32 == 0x2029
    ||| c as u32 == 0x202f
    ||| c as u32 == 0x205f
    ||| c as u32 == 0x3000
}

/// The characters of Unicode's general category `Cc`.
pub open spec fn control(c: char) -> bool {
    c as u32 <= 0x1f || 0x7f <= c as u32 <= 0x9f
}

/// Nothing but white space, or nothing at all.
pub open spec fn blank(text: Seq<char>) -> bool {
    forall|i: int| 0 <= i < text.len() ==> white_space(#[trigger] text[i])
}

/// Some character is a control character.
pub open spec fn has_control(text: Seq<char>) -> bool {
    exists|i: int| 0 <= i < text.len() && control(#[trigger] text[i])
}

/// `needle` stands in `haystack` at position `at`.
pub open spec fn occurs_at(haystack: Seq<char>, needle: Seq<char>, at: int) -> bool {
    &&& 0 <= at
    &&& at + needle.len() <= haystack.len()
    &&& haystack.subrange(at, at + needle.len()) == needle
}

/// `needle` stands somewhere in `haystack`.
pub open spec fn contains(haystack: Seq<char>, needle: Seq<char>) -> bool {
    exists|at: int| occurs_at(haystack, needle, at)
}

/// `text` begins with `prefix`.
pub open spec fn begins_with(text: Seq<char>, prefix: Seq<char>) -> bool {
    &&& prefix.len() <= text.len()
    &&& text.subrange(0, prefix.len() as int) == prefix
}

/// The ASCII lower-case form of one character.
pub open spec fn ascii_lower(c: char) -> char {
    if 'A' <= c && c <= 'Z' {
        (c as u32 + 32) as char
    } else {
        c
    }
}

/// The ASCII lower-case form of a text.
pub open spec fn ascii_lowered(text: Seq<char>) -> Seq<char> {
    text.map_values(|c: char| ascii_lower(c))
}

/// The decimal digit of value `d`.
pub open spec fn digit(d: nat) -> char {
    (0x30 + d) as char
}

/// The decimal rendering of `n`, without leading zeros.
pub open spec fn decimal(n: nat) -> Seq<char>
    decreases n,
{
    if n < 10 {
        seq![digit(n)]
    } else {
        decimal(n / 10).push(digit(n % 10))
    }
}

/// The lower-case hexadecimal digit of value `d`.
pub open spec fn hex_digit(d: nat) -> char {
    if d < 10 {
        (0x30 + d) as char
    } else {
        (0x61 + (d - 10)) as char
    }
}

/// The lower-case hexadecimal rendering of `bytes`, two digits a byte.
pub open spec fn hex(bytes: Seq<u8>) -> Seq<char> {
    Seq::new(
        2 * bytes.len(),
        |i: int|
            if i % 2 == 0 {
                hex_digit((bytes[i / 2] / 16) as nat)
            } else {
                hex_digit((bytes[i / 2] % 16) as nat)
            },
    )
}

/// `kept` is the longest prefix of `text` that takes up at most `limit` bytes.
pub open spec fn longest_prefix_within(text: Seq<char>, limit: nat, kept: Seq<char>) -> bool {
    &&& begins_with(text, kept)
    &&& utf8_len(kept) <= limit
    &&& kept.len() < text.len() ==> utf8_len(text.subrange(0, kept.len() as int + 1)) > limit
}

/// Appends one character.
///
/// Calls `String::push`, which is documented to append the character to the end of the string.
pub assume_specification[ String::push ](string: &mut String, c: char)
    ensures
        final(string)@ == old(string)@.push(c),
;

/// Whether the bytes are UTF-8.
///
/// Calls `std::str::from_utf8`, which is documented to succeed exactly on valid UTF-8.
#[verifier::external_body]
pub(crate) fn is_utf8(bytes: &[u8]) -> (valid: bool)
    ensures
        valid == vstd::utf8::valid_utf8(bytes@),
{
    std::str::from_utf8(bytes).is_ok()
}

/// Encoding distributes over concatenation.
pub proof fn lemma_encode_concat(a: Seq<char>, b: Seq<char>)
    ensures
        vstd::utf8::encode_utf8(a + b) == vstd::utf8::encode_utf8(a) + vstd::utf8::encode_utf8(b),
    decreases a.len(),
{
    if a.len() == 0 {
        assert(a + b =~= b);
        assert(vstd::utf8::encode_utf8(a) =~= Seq::<u8>::empty());
    } else {
        lemma_encode_concat(a.drop_first(), b);
        assert((a + b).drop_first() =~= a.drop_first() + b);
        assert((a + b)[0] == a[0]);
    }
}

/// The number of bytes that one character takes up in UTF-8.
pub open spec fn char_width(c: char) -> nat {
    vstd::utf8::encode_scalar(c as u32).len()
}

/// One more character lengthens the encoding by that character's width.
pub proof fn lemma_utf8_len_push(text: Seq<char>, c: char)
    ensures
        utf8_len(text.push(c)) == utf8_len(text) + char_width(c),
{
    lemma_encode_concat(text, seq![c]);
    assert(text.push(c) =~= text + seq![c]);
    assert(seq![c].drop_first() =~= Seq::<char>::empty());
    assert(vstd::utf8::encode_utf8(seq![c]) =~= vstd::utf8::encode_scalar(c as u32)) by {
        reveal_with_fuel(vstd::utf8::encode_utf8, 2);
    }
}

/// A prefix never takes up more bytes than the whole.
pub proof fn lemma_utf8_len_prefix(text: Seq<char>, n: int)
    requires
        0 <= n <= text.len(),
    ensures
        utf8_len(text.subrange(0, n)) <= utf8_len(text),
{
    lemma_encode_concat(text.subrange(0, n), text.subrange(n, text.len() as int));
    assert(text.subrange(0, n) + text.subrange(n, text.len() as int) =~= text);
}

/// A text is determined by its encoding.
pub proof fn lemma_encoding_injective(a: Seq<char>, b: Seq<char>)
    requires
        vstd::utf8::encode_utf8(a) == vstd::utf8::encode_utf8(b),
    ensures
        a == b,
{
    vstd::utf8::encode_utf8_decode_utf8(a);
    vstd::utf8::encode_utf8_decode_utf8(b);
}

/// The number of bytes that `text` takes up in UTF-8.
pub fn byte_len(text: &str) -> (length: usize)
    ensures
        length == utf8_len(text@),
{
    text.as_bytes().len()
}

/// The characters of `text`, in order.
pub fn characters(text: &str) -> (chars: Vec<char>)
    ensures
        chars@ == text@,
{
    let mut chars: Vec<char> = Vec::new();
    for c in it: text.chars()
        invariant
            chars@ == it.seq().subrange(0, it.index() as int),
            it.seq() == text@,
    {
        chars.push(c);
    }
    chars
}

/// The text made of `chars`.
pub fn text_of(chars: &[char]) -> (text: String)
    ensures
        text@ == chars@,
{
    let mut text = String::new();
    let mut i: usize = 0;
    while i < chars.len()
        invariant
            i <= chars@.len(),
            text@ == chars@.subrange(0, i as int),
        decreases chars@.len() - i,
    {
        text.push(chars[i]);
        i += 1;
    }
    assert(chars@.subrange(0, i as int) =~= chars@);
    text
}

/// Whether the two texts are the same.
pub fn same_text(a: &str, b: &str) -> (same: bool)
    ensures
        same == (a@ == b@),
{
    let x = a.as_bytes();
    let y = b.as_bytes();
    if x.len() != y.len() {
        return false;
    }
    let mut i: usize = 0;
    while i < x.len()
        invariant
            i <= x@.len(),
            x@.len() == y@.len(),
            x@ == vstd::utf8::encode_utf8(a@),
            y@ == vstd::utf8::encode_utf8(b@),
            forall|j: int| 0 <= j < i ==> x@[j] == y@[j],
        decreases x@.len() - i,
    {
        if x[i] != y[i] {
            return false;
        }
        i += 1;
    }
    proof {
        assert(x@ =~= y@);
        lemma_encoding_injective(a@, b@);
    }
    true
}

/// Whether `c` has Unicode's `White_Space` property.
pub fn is_white_space(c: char) -> (holds: bool)
    ensures
        holds == white_space(c),
{
    let code: u32 = c as u32;
    (0x09 <= code && code <= 0x0d) || code == 0x20 || code == 0x85 || code == 0xa0 || code == 0x1680
        || (0x2000 <= code && code <= 0x200a) || code == 0x2028 || code == 0x2029 || code == 0x202f
        || code == 0x205f || code == 0x3000
}

/// Whether `c` is a control character.
pub fn is_control(c: char) -> (holds: bool)
    ensures
        holds == control(c),
{
    let code: u32 = c as u32;
    code <= 0x1f || (0x7f <= code && code <= 0x9f)
}

/// Whether `text` holds nothing but white space.
pub fn is_blank(text: &str) -> (holds: bool)
    ensures
        holds == blank(text@),
{
    let chars = characters(text);
    let mut i: usize = 0;
    while i < chars.len()
        invariant
            i <= chars@.len(),
            chars@ == text@,
            forall|j: int| 0 <= j < i ==> white_space(#[trigger] text@[j]),
        decreases chars@.len() - i,
    {
        if !is_white_space(chars[i]) {
            assert(!white_space(text@[i as int]));
            return false;
        }
        i += 1;
    }
    true
}

/// Whether `text` holds a control character.
pub fn any_control(text: &str) -> (holds: bool)
    ensures
        holds == has_control(text@),
{
    let chars = characters(text);
    let mut i: usize = 0;
    while i < chars.len()
        invariant
            i <= chars@.len(),
            chars@ == text@,
            forall|j: int| 0 <= j < i ==> !control(#[trigger] text@[j]),
        decreases chars@.len() - i,
    {
        if is_control(chars[i]) {
            assert(control(text@[i as int]));
            return true;
        }
        i += 1;
    }
    false
}

/// Whether `needle` stands in `haystack` at position `at`.
fn stands_at(haystack: &[char], needle: &[char], at: usize) -> (holds: bool)
    requires
        at + needle@.len() <= haystack@.len(),
    ensures
        holds == occurs_at(haystack@, needle@, at as int),
{
    let size: usize = haystack.len();
    let mut i: usize = 0;
    while i < needle.len()
        invariant
            i <= needle@.len(),
            at + needle@.len() <= haystack@.len(),
            haystack@.len() == size,
            forall|j: int| 0 <= j < i ==> haystack@[at + j] == #[trigger] needle@[j],
        decreases needle@.len() - i,
    {
        if haystack[at + i] != needle[i] {
            assert(haystack@.subrange(at as int, at + needle@.len())[i as int] != needle@[i as int]);
            return false;
        }
        i += 1;
    }
    assert(haystack@.subrange(at as int, at + needle@.len()) =~= needle@);
    true
}

/// Whether `text` begins with `prefix`.
pub fn starts_with(text: &str, prefix: &str) -> (holds: bool)
    ensures
        holds == begins_with(text@, prefix@),
{
    let chars = characters(text);
    let head = characters(prefix);
    if head.len() > chars.len() {
        return false;
    }
    stands_at(&chars, &head, 0)
}

/// Whether `needle` stands somewhere in `haystack`.
pub fn contains_text(haystack: &str, needle: &str) -> (holds: bool)
    ensures
        holds == contains(haystack@, needle@),
{
    let chars = characters(haystack);
    let wanted = characters(needle);
    if wanted.len() > chars.len() {
        return false;
    }
    let last: usize = chars.len() - wanted.len();
    let mut at: usize = 0;
    while at <= last
        invariant
            last + wanted@.len() == chars@.len(),
            at <= last + 1,
            chars@.len() <= usize::MAX,
            chars@ == haystack@,
            wanted@ == needle@,
            forall|j: int| 0 <= j < at ==> !occurs_at(haystack@, needle@, j),
        decreases last + 1 - at,
    {
        if stands_at(&chars, &wanted, at) {
            return true;
        }
        if at == last {
            assert forall|j: int| !occurs_at(haystack@, needle@, j) by {
                if 0 <= j <= last {
                    assert(j == at || j < at);
                }
            }
            return false;
        }
        at += 1;
    }
    false
}

/// The ASCII lower-case form of `text`.
pub fn to_ascii_lowercase(text: &str) -> (lowered: String)
    ensures
        lowered@ == ascii_lowered(text@),
{
    let chars = characters(text);
    let mut lowered = String::new();
    let mut i: usize = 0;
    while i < chars.len()
        invariant
            i <= chars@.len(),
            chars@ == text@,
            lowered@ == ascii_lowered(text@.subrange(0, i as int)),
        decreases chars@.len() - i,
    {
        let c = chars[i];
        let code: u32 = c as u32;
        let low = if 'A' <= c && c <= 'Z' {
            (code as u8 + 32) as char
        } else {
            c
        };
        lowered.push(low);
        assert(lowered@ =~= ascii_lowered(text@.subrange(0, i + 1)));
        i += 1;
    }
    assert(text@.subrange(0, i as int) =~= text@);
    lowered
}

/// The decimal rendering of `n`.
pub fn decimal_text(n: u64) -> (text: String)
    ensures
        text@ == decimal(n as nat),
    decreases n,
{
    let low: u8 = (n % 10) as u8;
    let c = (0x30 + low) as char;
    let mut text = if n < 10 {
        String::new()
    } else {
        decimal_text(n / 10)
    };
    text.push(c);
    assert(text@ =~= decimal(n as nat));
    text
}

/// The lower-case hexadecimal digit of value `d`.
fn hex_char(d: u8) -> (c: char)
    requires
        d < 16,
    ensures
        c == hex_digit(d as nat),
{
    if d < 10 {
        (0x30 + d) as char
    } else {
        (0x61 + (d - 10)) as char
    }
}

/// The lower-case hexadecimal rendering of `bytes`.
pub fn hex_text(bytes: &[u8]) -> (text: String)
    ensures
        text@ == hex(bytes@),
{
    let mut text = String::new();
    let mut i: usize = 0;
    while i < bytes.len()
        invariant
            i <= bytes@.len(),
            text@ == hex(bytes@.subrange(0, i as int)),
        decreases bytes@.len() - i,
    {
        let b = bytes[i];
        text.push(hex_char(b / 16));
        text.push(hex_char(b % 16));
        assert(text@ =~= hex(bytes@.subrange(0, i + 1)));
        i += 1;
    }
    assert(bytes@.subrange(0, i as int) =~= bytes@);
    text
}

/// The width of one character, in bytes.
fn width_of(c: char) -> (width: usize)
    ensures
        width == char_width(c),
        1 <= width <= 4,
{
    let code: u32 = c as u32;
    if code <= 0x7f {
        1
    } else if code <= 0x7ff {
        2
    } else if code <= 0xffff {
        3
    } else {
        4
    }
}

/// The longest prefix of `text` that takes up at most `max_bytes` bytes and splits no character.
pub fn truncate_utf8(text: &str, max_bytes: usize) -> (kept: String)
    ensures
        longest_prefix_within(text@, max_bytes as nat, kept@),
{
    let chars = characters(text);
    let mut kept = String::new();
    let mut used: usize = 0;
    let mut i: usize = 0;
    while i < chars.len()
        invariant
            i <= chars@.len(),
            chars@ == text@,
            kept@ == text@.subrange(0, i as int),
            used == utf8_len(kept@),
            used <= max_bytes,
        decreases chars@.len() - i,
    {
        let width: usize = width_of(chars[i]);
        proof {
            lemma_utf8_len_push(kept@, chars@[i as int]);
            assert(kept@.push(chars@[i as int]) =~= text@.subrange(0, i + 1));
        }
        if width > max_bytes - used {
            return kept;
        }
        kept.push(chars[i]);
        used += width;
        i += 1;
    }
    assert(text@.subrange(0, i as int) =~= text@);
    kept
}

/// Two texts, one after the other.
pub fn join2(a: &str, b: &str) -> (joined: String)
    ensures
        joined@ == a@ + b@,
{
    let mut joined = a.to_owned();
    joined.append(b);
    joined
}

/// The two texts differ first where `a` has the smaller character, or `a` ends first.
pub open spec fn precedes(a: Seq<char>, b: Seq<char>) -> bool
    decreases a.len(),
{
    if b.len() == 0 {
        false
    } else if a.len() == 0 {
        true
    } else if a[0] != b[0] {
        a[0] < b[0]
    } else {
        precedes(a.drop_first(), b.drop_first())
    }
}

/// Each text precedes every later one.
pub open spec fn increasing(list: Seq<Seq<char>>) -> bool {
    forall|i: int, j: int| 0 <= i < j < list.len() ==> precedes(#[trigger] list[i], #[trigger] list[j])
}

/// Of two different texts exactly one precedes the other.
pub proof fn lemma_precedes_total(a: Seq<char>, b: Seq<char>)
    ensures
        a == b <==> !precedes(a, b) && !precedes(b, a),
        !(precedes(a, b) && precedes(b, a)),
    decreases a.len(),
{
    if a.len() == 0 || b.len() == 0 {
        if a.len() == 0 && b.len() == 0 {
            assert(a =~= b);
        }
    } else if a[0] == b[0] {
        lemma_precedes_total(a.drop_first(), b.drop_first());
        if a.drop_first() == b.drop_first() {
            assert(a =~= seq![a[0]] + a.drop_first());
            assert(b =~= seq![b[0]] + b.drop_first());
        }
    }
}

/// The order is transitive.
pub proof fn lemma_precedes_transitive(a: Seq<char>, b: Seq<char>, c: Seq<char>)
    requires
        precedes(a, b),
        precedes(b, c),
    ensures
        precedes(a, c),
    decreases a.len(),
{
    if a.len() > 0 && b.len() > 0 && c.len() > 0 && a[0] == b[0] && b[0] == c[0] {
        lemma_precedes_transitive(a.drop_first(), b.drop_first(), c.drop_first());
    }
}

/// A common prefix decides nothing.
proof fn lemma_precedes_skip(a: Seq<char>, b: Seq<char>, n: int)
    requires
        0 <= n <= a.len(),
        n <= b.len(),
        forall|i: int| 0 <= i < n ==> a[i] == b[i],
    ensures
        precedes(a, b) == precedes(a.subrange(n, a.len() as int), b.subrange(n, b.len() as int)),
    decreases n,
{
    if n == 0 {
        assert(a.subrange(0, a.len() as int) =~= a);
        assert(b.subrange(0, b.len() as int) =~= b);
    } else {
        let x = a.drop_first();
        let y = b.drop_first();
        assert forall|i: int| 0 <= i < n - 1 implies x[i] == y[i] by {
            assert(a[i + 1] == b[i + 1]);
        }
        lemma_precedes_skip(x, y, n - 1);
        assert(x.subrange(n - 1, x.len() as int) =~= a.subrange(n, a.len() as int));
        assert(y.subrange(n - 1, y.len() as int) =~= b.subrange(n, b.len() as int));
    }
}

/// Whether `a` precedes `b`.
pub fn is_before(a: &str, b: &str) -> (holds: bool)
    ensures
        holds == precedes(a@, b@),
{
    let x = characters(a);
    let y = characters(b);
    let mut i: usize = 0;
    while i < x.len() && i < y.len() && x[i] == y[i]
        invariant
            i <= x@.len(),
            i <= y@.len(),
            x@ == a@,
            y@ == b@,
            forall|j: int| 0 <= j < i ==> a@[j] == b@[j],
        decreases x@.len() - i,
    {
        i += 1;
    }
    proof {
        lemma_precedes_skip(a@, b@, i as int);
        let p = a@.subrange(i as int, a@.len() as int);
        let q = b@.subrange(i as int, b@.len() as int);
        assert(p.len() > 0 ==> p[0] == a@[i as int]);
        assert(q.len() > 0 ==> q[0] == b@[i as int]);
    }
    if i == y.len() {
        false
    } else if i == x.len() {
        true
    } else {
        x[i] < y[i]
    }
}

/// The longest prefix within a limit is unique.
pub proof fn lemma_longest_prefix_unique(text: Seq<char>, limit: nat, a: Seq<char>, b: Seq<char>)
    requires
        longest_prefix_within(text, limit, a),
        longest_prefix_within(text, limit, b),
    ensures
        a == b,
{
    if a.len() < b.len() {
        lemma_utf8_len_prefix(b, a.len() as int + 1);
        assert(b.subrange(0, a.len() as int + 1) =~= text.subrange(0, a.len() as int + 1));
    } else if b.len() < a.len() {
        lemma_utf8_len_prefix(a, b.len() as int + 1);
        assert(a.subrange(0, b.len() as int + 1) =~= text.subrange(0, b.len() as int + 1));
    }
    assert(a =~= b);
}

/// Truncating twice to one limit is truncating once, and a text within the limit stays whole.
pub proof fn law_truncation_settles(text: Seq<char>, limit: nat, once: Seq<char>, twice: Seq<char>)
    requires
        longest_prefix_within(text, limit, once),
        longest_prefix_within(once, limit, twice),
    ensures
        twice == once,
        utf8_len(text) <= limit ==> once == text,
{
    assert(once.subrange(0, once.len() as int) =~= once);
    assert(longest_prefix_within(once, limit, once));
    lemma_longest_prefix_unique(once, limit, once, twice);
    if utf8_len(text) <= limit {
        assert(text.subrange(0, text.len() as int) =~= text);
        assert(longest_prefix_within(text, limit, text));
        lemma_longest_prefix_unique(text, limit, once, text);
    }
}

proof fn lemma_longest_prefix_from(text: Seq<char>, limit: nat, n: int)
    requires
        0 <= n <= text.len(),
        utf8_len(text.subrange(0, n)) <= limit,
    ensures
        exists|kept: Seq<char>| longest_prefix_within(text, limit, kept),
    decreases text.len() - n,
{
    let kept = text.subrange(0, n);
    if n < text.len() && utf8_len(text.subrange(0, n + 1)) <= limit {
        lemma_longest_prefix_from(text, limit, n + 1);
    } else {
        assert(text.subrange(0, kept.len() as int) =~= kept);
        assert(longest_prefix_within(text, limit, kept));
    }
}

/// There is a longest prefix within any bound.
pub proof fn lemma_longest_prefix_exists(text: Seq<char>, limit: nat)
    ensures
        exists|kept: Seq<char>| longest_prefix_within(text, limit, kept),
{
    assert(text.subrange(0, 0) =~= Seq::<char>::empty());
    assert(utf8_len(Seq::<char>::empty()) == 0) by {
        reveal_with_fuel(vstd::utf8::encode_utf8, 2);
    }
    lemma_longest_prefix_from(text, limit, 0);
}

/// The number that a text of decimal digits stands for.
pub open spec fn decimal_value(text: Seq<char>) -> nat
    decreases text.len(),
{
    if text.len() == 0 {
        0
    } else {
        10 * decimal_value(text.drop_last()) + (text.last() as nat - '0' as nat) as nat
    }
}

/// A number reads back from its decimal form, which has no leading zeros.
pub proof fn law_decimal_reads_back(n: nat)
    ensures
        decimal_value(decimal(n)) == n,
        decimal(n).len() > 0,
        n > 0 ==> decimal(n)[0] != '0',
        forall|i: int| 0 <= i < decimal(n).len() ==> '0' <= #[trigger] decimal(n)[i] <= '9',
    decreases n,
{
    if n < 10 {
        assert(digit(n) as nat == 0x30 + n);
        assert(decimal(n).drop_last() =~= Seq::empty());
        assert(decimal_value(decimal(n).drop_last()) == 0);
    } else {
        let front = decimal(n / 10);
        law_decimal_reads_back(n / 10);
        assert(digit(n % 10) as nat == 0x30 + n % 10);
        assert(decimal(n).drop_last() =~= front);
        assert(decimal(n)[0] == front[0]);
        assert forall|i: int| 0 <= i < decimal(n).len() implies '0' <= #[trigger] decimal(n)[i] <= '9' by {
            if i < front.len() {
                assert('0' <= front[i] <= '9');
            }
        }
    }
}

/// The value of a lower-case hexadecimal digit.
pub open spec fn hex_value(c: char) -> nat {
    if '0' <= c && c <= '9' {
        (c as nat - '0' as nat) as nat
    } else {
        (c as nat - 'a' as nat + 10) as nat
    }
}

/// Bytes read back from their hexadecimal form, two lower-case digits for each.
pub proof fn law_hex_reads_back(bytes: Seq<u8>)
    ensures
        hex(bytes).len() == 2 * bytes.len(),
        forall|i: int|
            0 <= i < bytes.len() ==> 16 * hex_value(hex(bytes)[2 * i]) + hex_value(
                hex(bytes)[2 * i + 1],
            ) == #[trigger] bytes[i],
        forall|k: int|
            0 <= k < hex(bytes).len() ==> ('0' <= #[trigger] hex(bytes)[k] <= '9') || ('a'
                <= hex(bytes)[k] <= 'f'),
{
    assert forall|k: int| 0 <= k < hex(bytes).len() implies ('0' <= #[trigger] hex(bytes)[k] <= '9')
        || ('a' <= hex(bytes)[k] <= 'f') by {
        lemma_hex_digit_reads_back((bytes[k / 2] / 16) as nat);
        lemma_hex_digit_reads_back((bytes[k / 2] % 16) as nat);
    }
    assert forall|i: int| 0 <= i < bytes.len() implies 16 * hex_value(hex(bytes)[2 * i]) + hex_value(
        hex(bytes)[2 * i + 1],
    ) == #[trigger] bytes[i] by {
        lemma_hex_digit_reads_back((bytes[i] / 16) as nat);
        lemma_hex_digit_reads_back((bytes[i] % 16) as nat);
        assert((2 * i) / 2 == i && (2 * i + 1) / 2 == i);
        assert((2 * i) % 2 == 0 && (2 * i + 1) % 2 == 1);
    }
}

proof fn lemma_hex_digit_reads_back(d: nat)
    requires
        d < 16,
    ensures
        hex_value(hex_digit(d)) == d,
        ('0' <= hex_digit(d) <= '9') || ('a' <= hex_digit(d) <= 'f'),
{
    if d < 10 {
        assert(hex_digit(d) as nat == 0x30 + d);
    } else {
        assert(hex_digit(d) as nat == 0x61 + (d - 10));
    }
}

/// Lower-casing turns each capital into its small letter and leaves every other character; twice is
/// the same as once.
pub proof fn law_lower_casing_changes_capitals_alone(c: char)
    ensures
        'A' <= c && c <= 'Z' ==> 'a' <= ascii_lower(c) && ascii_lower(c) <= 'z' && ascii_lower(c) as nat
            - 'a' as nat == c as nat - 'A' as nat,
        !('A' <= c && c <= 'Z') ==> ascii_lower(c) == c,
        ascii_lower(ascii_lower(c)) == ascii_lower(c),
{
    if 'A' <= c && c <= 'Z' {
        assert((c as u32 + 32) as char as u32 == c as u32 + 32);
    }
}

/// The first difference decides which of two texts comes first.
pub proof fn law_the_first_difference_decides(a: Seq<char>, b: Seq<char>, k: int)
    requires
        0 <= k < a.len() && k < b.len(),
        a.subrange(0, k) == b.subrange(0, k),
        a[k] != b[k],
    ensures
        precedes(a, b) <==> a[k] < b[k],
    decreases k,
{
    if k > 0 {
        assert(a.subrange(0, k)[0] == a[0] && b.subrange(0, k)[0] == b[0]);
        let x = a.drop_first();
        let y = b.drop_first();
        assert(x.subrange(0, k - 1) =~= a.subrange(0, k).drop_first());
        assert(y.subrange(0, k - 1) =~= b.subrange(0, k).drop_first());
        assert(x[k - 1] == a[k] && y[k - 1] == b[k]);
        law_the_first_difference_decides(x, y, k - 1);
    }
}

/// A text comes before every longer text that it opens, and never before itself.
pub proof fn law_an_opening_comes_first(a: Seq<char>, rest: Seq<char>)
    ensures
        precedes(a, a + rest) <==> rest.len() > 0,
    decreases a.len(),
{
    if a.len() > 0 {
        assert((a + rest).drop_first() =~= a.drop_first() + rest);
        law_an_opening_comes_first(a.drop_first(), rest);
    }
}

/// A truncated text opens the whole one, keeps the bound, and leaves out nothing that would fit.
pub proof fn law_truncation_keeps_what_fits(
    text: Seq<char>,
    limit: nat,
    kept: Seq<char>,
    longer: int,
)
    requires
        longest_prefix_within(text, limit, kept),
        kept.len() < longer <= text.len(),
    ensures
        text.subrange(0, kept.len() as int) == kept,
        utf8_len(kept) <= limit,
        utf8_len(text.subrange(0, longer)) > limit,
{
    let next = text.subrange(0, kept.len() as int + 1);
    let far = text.subrange(0, longer);
    lemma_utf8_len_prefix(far, kept.len() as int + 1);
    assert(far.subrange(0, kept.len() as int + 1) =~= next);
}

/// A text is blank exactly where nothing in it shows; of the ASCII characters the space and the
/// controls from tab to carriage return do not show.
pub proof fn law_blank_texts_show_nothing(text: Seq<char>)
    ensures
        blank(text) <==> !exists|i: int| 0 <= i < text.len() && !white_space(#[trigger] text[i]),
        forall|c: char|
            c as u32 <= 0x7f ==> (#[trigger] white_space(c) <==> c as u32 == 0x20 || 9 <= c as u32
                && c as u32 <= 13),
        forall|c: char|
            c as u32 <= 0x7f ==> (#[trigger] control(c) <==> (c as u32) < 0x20 || c as u32 == 0x7f),
        has_control(text) <==> exists|i: int| 0 <= i < text.len() && control(#[trigger] text[i]),
{
}

/// A text stands in another exactly where the other can be cut around it.
pub proof fn law_containing_is_cutting_around(haystack: Seq<char>, needle: Seq<char>)
    ensures
        contains(haystack, needle) <==> exists|before: Seq<char>, after: Seq<char>|
            haystack == #[trigger] (before + needle + after),
        contains(haystack, haystack),
        contains(haystack, Seq::empty()),
{
    if contains(haystack, needle) {
        let at = choose|at: int| occurs_at(haystack, needle, at);
        let before = haystack.subrange(0, at);
        let after = haystack.subrange(at + needle.len(), haystack.len() as int);
        assert(haystack =~= before + needle + after);
    }
    if exists|before: Seq<char>, after: Seq<char>| haystack == #[trigger] (before + needle + after) {
        let (before, after) = choose|before: Seq<char>, after: Seq<char>|
            haystack == #[trigger] (before + needle + after);
        let at = before.len() as int;
        assert(haystack.subrange(at, at + needle.len()) =~= needle);
        assert(occurs_at(haystack, needle, at));
    }
    assert(haystack.subrange(0, haystack.len() as int) =~= haystack);
    assert(occurs_at(haystack, haystack, 0));
    assert(haystack.subrange(0, 0) =~= Seq::<char>::empty());
    assert(occurs_at(haystack, Seq::empty(), 0));
}

} // verus!
