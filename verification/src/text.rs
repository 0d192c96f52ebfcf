//! Character classes, UTF-8 byte order and unsigned decimal parsing shared by
//! the alarm and command-line rules.
use vstd::prelude::*;
use vstd::utf8::*;

verus! {

broadcast use vstd::utf8::group_utf8_lib;

/// Number of bytes in the UTF-8 encoding of `s` (what `str::len` returns).
pub open spec fn utf8_len(s: Seq<char>) -> nat {
    encode_utf8(s).len()
}

/// Number of bytes in the UTF-8 encoding of `s`.
pub fn byte_len(s: &str) -> (r: usize)
    ensures
        r == utf8_len(s@),
{
    s.as_bytes().len()
}

/// Unicode general category `Cc`, which is what `char::is_control` tests.
pub open spec fn is_control_char(c: char) -> bool {
    c <= '\x1f' || ('\x7f' <= c && c <= '\u{9f}')
}

/// Some character of `s` is a control character.
pub open spec fn has_control_char(s: Seq<char>) -> bool {
    exists|i: int| 0 <= i < s.len() && is_control_char(#[trigger] s[i])
}

pub open spec fn is_ascii_digit(c: char) -> bool {
    '0' <= c && c <= '9'
}

pub open spec fn digit_value(c: char) -> nat {
    (c as nat - '0' as nat) as nat
}

/// Lexicographic order on byte strings, the order of `[u8]`, `str` and `String`.
pub open spec fn bytes_lt(a: Seq<u8>, b: Seq<u8>) -> bool
    decreases a.len(),
{
    if b.len() == 0 {
        false
    } else if a.len() == 0 {
        true
    } else if a[0] != b[0] {
        a[0] < b[0]
    } else {
        bytes_lt(a.drop_first(), b.drop_first())
    }
}

/// Order of two texts as `String`'s `Ord` compares them: by their UTF-8 bytes.
pub open spec fn text_lt(a: Seq<char>, b: Seq<char>) -> bool {
    bytes_lt(encode_utf8(a), encode_utf8(b))
}

/// No byte string is below itself.
pub proof fn lemma_bytes_lt_irreflexive(a: Seq<u8>)
    ensures
        !bytes_lt(a, a),
    decreases a.len(),
{
    if a.len() > 0 {
        lemma_bytes_lt_irreflexive(a.drop_first());
    }
}

/// The byte order is transitive.
pub proof fn lemma_bytes_lt_transitive(a: Seq<u8>, b: Seq<u8>, c: Seq<u8>)
    requires
        bytes_lt(a, b),
        bytes_lt(b, c),
    ensures
        bytes_lt(a, c),
    decreases a.len(),
{
    if a.len() > 0 && b.len() > 0 && c.len() > 0 && a[0] == b[0] && b[0] == c[0] {
        lemma_bytes_lt_transitive(a.drop_first(), b.drop_first(), c.drop_first());
    }
}

/// Two different byte strings are ordered one way or the other.
pub proof fn lemma_bytes_lt_total(a: Seq<u8>, b: Seq<u8>)
    requires
        a != b,
    ensures
        bytes_lt(a, b) || bytes_lt(b, a),
    decreases a.len(),
{
    if a.len() > 0 && b.len() > 0 && a[0] == b[0] {
        if a.drop_first() == b.drop_first() {
            assert(a =~= seq![a[0]] + a.drop_first());
            assert(b =~= seq![b[0]] + b.drop_first());
        }
        lemma_bytes_lt_total(a.drop_first(), b.drop_first());
    } else if a.len() == 0 && b.len() == 0 {
        assert(a =~= b);
    }
}

/// `bytes_lt` is the lexicographic order: `a` is below `b` exactly when, at
/// the first index where they differ, `a`'s byte is the smaller, or when `a`
/// is a proper prefix of `b`.
pub proof fn lemma_bytes_lt_lexicographic(a: Seq<u8>, b: Seq<u8>)
    ensures
        bytes_lt(a, b) <==> ((exists|i: int|
            0 <= i < a.len() && i < b.len() && a.take(i) == b.take(i) && a[i] < b[i]) || (a.len()
            < b.len() && a == b.take(a.len() as int))),
    decreases a.len(),
{
    if b.len() == 0 {
    } else if a.len() == 0 {
        assert(a =~= b.take(0));
    } else if a[0] != b[0] {
        if a[0] < b[0] {
            assert(a.take(0) =~= b.take(0));
        } else {
            assert forall|i: int|
                0 <= i < a.len() && i < b.len() && a.take(i) == b.take(i) implies !(a[i]
                < b[i]) by {
                if i > 0 {
                    assert(a.take(i)[0] == b.take(i)[0]);
                }
            }
        }
        if a.len() < b.len() && a == b.take(a.len() as int) {
            assert(a[0] == b.take(a.len() as int)[0]);
        }
    } else {
        let a1 = a.drop_first();
        let b1 = b.drop_first();
        lemma_bytes_lt_lexicographic(a1, b1);
        if exists|i: int|
            0 <= i < a1.len() && i < b1.len() && a1.take(i) == b1.take(i) && a1[i] < b1[i] {
            let i = choose|i: int|
                0 <= i < a1.len() && i < b1.len() && a1.take(i) == b1.take(i) && a1[i] < b1[i];
            assert forall|k: int| 0 <= k < i + 1 implies #[trigger] a.take(i + 1)[k] == b.take(i + 1)[k] by {
                if k > 0 {
                    assert(a1.take(i)[k - 1] == b1.take(i)[k - 1]);
                }
            }
            assert(a.take(i + 1) =~= b.take(i + 1));
            assert(a[i + 1] < b[i + 1]);
        }
        if exists|i: int|
            0 <= i < a.len() && i < b.len() && a.take(i) == b.take(i) && a[i] < b[i] {
            let i = choose|i: int|
                0 <= i < a.len() && i < b.len() && a.take(i) == b.take(i) && a[i] < b[i];
            assert(i > 0);
            assert forall|k: int| 0 <= k < i - 1 implies #[trigger] a1.take(i - 1)[k] == b1.take(i - 1)[k] by {
                assert(a.take(i)[k + 1] == b.take(i)[k + 1]);
            }
            assert(a1.take(i - 1) =~= b1.take(i - 1));
            assert(a1[i - 1] < b1[i - 1]);
        }
        if a1.len() < b1.len() && a1 == b1.take(a1.len() as int) {
            assert forall|k: int| 0 <= k < a.len() implies #[trigger] a[k] == b.take(a.len() as int)[k] by {
                if k > 0 {
                    assert(a1[k - 1] == b1.take(a1.len() as int)[k - 1]);
                }
            }
            assert(a =~= b.take(a.len() as int));
        }
        if a.len() < b.len() && a == b.take(a.len() as int) {
            assert forall|k: int| 0 <= k < a1.len() implies #[trigger] a1[k] == b1.take(a1.len() as int)[k] by {
                assert(a[k + 1] == b.take(a.len() as int)[k + 1]);
            }
            assert(a1 =~= b1.take(a1.len() as int));
        }
    }
}

/// Different texts have different UTF-8 encodings.
pub proof fn lemma_encoding_injective(a: Seq<char>, b: Seq<char>)
    requires
        encode_utf8(a) == encode_utf8(b),
    ensures
        a == b,
{
    assert(decode_utf8(encode_utf8(a)) == a);
    assert(decode_utf8(encode_utf8(b)) == b);
}

/// The order on texts is a strict total order.
pub proof fn lemma_text_order(a: Seq<char>, b: Seq<char>, c: Seq<char>)
    ensures
        !text_lt(a, a),
        text_lt(a, b) && text_lt(b, c) ==> text_lt(a, c),
        a != b ==> text_lt(a, b) || text_lt(b, a),
{
    lemma_bytes_lt_irreflexive(encode_utf8(a));
    if text_lt(a, b) && text_lt(b, c) {
        lemma_bytes_lt_transitive(encode_utf8(a), encode_utf8(b), encode_utf8(c));
    }
    if a != b {
        if encode_utf8(a) == encode_utf8(b) {
            lemma_encoding_injective(a, b);
        }
        lemma_bytes_lt_total(encode_utf8(a), encode_utf8(b));
    }
}

/// Outcome of comparing two texts.
#[derive(Debug, Clone, Copy, PartialEq, Eq, Structural)]
pub enum TextOrder {
    Less,
    Equal,
    Greater,
}

fn compare_bytes(a: &[u8], b: &[u8]) -> (r: TextOrder)
    ensures
        r == TextOrder::Less <==> bytes_lt(a@, b@),
        r == TextOrder::Equal <==> a@ == b@,
        r == TextOrder::Greater <==> bytes_lt(b@, a@),
{
    let n = if a.len() < b.len() { a.len() } else { b.len() };
    let mut i: usize = 0;
    assert(a@.skip(0) =~= a@);
    assert(b@.skip(0) =~= b@);
    while i < n
        invariant
            n <= a@.len(),
            n <= b@.len(),
            n == a@.len() || n == b@.len(),
            i <= n,
            a@.take(i as int) == b@.take(i as int),
            bytes_lt(a@, b@) == bytes_lt(a@.skip(i as int), b@.skip(i as int)),
            bytes_lt(b@, a@) == bytes_lt(b@.skip(i as int), a@.skip(i as int)),
        decreases n - i,
    {
        assert(a@.skip(i as int).drop_first() =~= a@.skip(i + 1));
        assert(b@.skip(i as int).drop_first() =~= b@.skip(i + 1));
        if a[i] != b[i] {
            proof {
                lemma_bytes_lt_irreflexive(a@);
            }
            if a[i] < b[i] {
                return TextOrder::Less;
            } else {
                return TextOrder::Greater;
            }
        }
        assert(a@.take(i + 1) =~= a@.take(i as int).push(a@[i as int]));
        assert(b@.take(i + 1) =~= b@.take(i as int).push(b@[i as int]));
        i = i + 1;
    }
    proof {
        lemma_bytes_lt_irreflexive(a@);
        if a@.len() == b@.len() {
            assert(a@ =~= a@.take(i as int));
            assert(b@ =~= b@.take(i as int));
        } else if a@.len() < b@.len() {
            assert(a@ != b@);
        } else {
            assert(a@.len() != b@.len());
        }
    }
    if a.len() < b.len() {
        TextOrder::Less
    } else if a.len() == b.len() {
        TextOrder::Equal
    } else {
        TextOrder::Greater
    }
}

/// Compares two texts as `String`'s `Ord` does: by their UTF-8 bytes.
pub fn compare_text(a: &str, b: &str) -> (r: TextOrder)
    ensures
        r == TextOrder::Less <==> text_lt(a@, b@),
        r == TextOrder::Equal <==> a@ == b@,
        r == TextOrder::Greater <==> text_lt(b@, a@),
{
    let r = compare_bytes(a.as_bytes(), b.as_bytes());
    proof {
        if encode_utf8(a@) == encode_utf8(b@) {
            lemma_encoding_injective(a@, b@);
        }
    }
    r
}

/// Whether two texts are equal.
pub fn same_text(a: &str, b: &str) -> (r: bool)
    ensures
        r == (a@ == b@),
{
    compare_text(a, b) == TextOrder::Equal
}

/// Whether some character of `s` is a control character (`char::is_control`).
pub fn has_control(s: &str) -> (r: bool)
    ensures
        r == has_control_char(s@),
{
    for c in it: s.chars()
        invariant
            it.seq() == s@,
            forall|j: int| 0 <= j < it.index() ==> !is_control_char(#[trigger] s@[j]),
    {
        if c <= '\x1f' || ('\x7f' <= c && c <= '\u{9f}') {
            return true;
        }
    }
    false
}

/// Value of a sequence of decimal digits, most significant first.
pub open spec fn decimal_value(d: Seq<char>) -> nat
    decreases d.len(),
{
    if d.len() == 0 {
        0
    } else {
        decimal_value(d.drop_last()) * 10 + digit_value(d.last())
    }
}

pub open spec fn all_digits(d: Seq<char>) -> bool {
    forall|i: int| 0 <= i < d.len() ==> is_ascii_digit(#[trigger] d[i])
}

/// What `FromStr` of an unsigned integer type whose largest value is `max`
/// accepts: an optional `+`, then one or more ASCII digits whose value is at
/// most `max`.
pub open spec fn unsigned_from_str(s: Seq<char>, max: nat) -> Option<nat> {
    let d = if s.len() > 0 && s[0] == '+' {
        s.drop_first()
    } else {
        s
    };
    if d.len() > 0 && all_digits(d) && decimal_value(d) <= max {
        Some(decimal_value(d))
    } else {
        None
    }
}

/// Parses `s` as `FromStr` parses an unsigned integer type whose largest
/// value is `max`.
pub fn parse_unsigned(s: &str, max: u64) -> (r: Option<u64>)
    ensures
        match r {
            Some(v) => unsigned_from_str(s@, max as nat) == Some(v as nat),
            None => unsigned_from_str(s@, max as nat) is None,
        },
{
    let plus = !s.is_empty() && s.get_char(0) == '+';
    let ghost skip: int = if plus { 1 } else { 0 };
    let ghost d = if plus { s@.drop_first() } else { s@ };
    assert(d =~= s@.skip(skip));
    let mut acc: u64 = 0;
    let mut over = false;
    let mut any_digit = false;
    let ghost mut count: int = 0;
    let mut at_start = true;
    for c in it: s.chars()
        invariant
            it.seq() == s@,
            plus == (s@.len() > 0 && s@[0] == '+'),
            d == (if plus { s@.drop_first() } else { s@ }),
            d == s@.skip(skip),
            skip == (if plus { 1int } else { 0int }),
            at_start == (it.index() == 0),
            count == (if it.index() < skip { 0 } else { it.index() - skip }),
            any_digit == (count > 0),
            all_digits(d.take(count)),
            over ==> decimal_value(d.take(count)) > max,
            !over ==> acc as nat == decimal_value(d.take(count)) && acc <= max,
    {
        if plus && at_start {
        } else {
            assert(d[count] == c);
            if c < '0' || c > '9' {
                assert(!is_ascii_digit(d[count]));
                return None;
            }
            let dig = (c as u32 - '0' as u32) as u64;
            assert(d.take(count + 1).drop_last() =~= d.take(count));
            assert(d.take(count + 1).last() == c);
            if !over {
                let v: u128 = (acc as u128) * 10 + (dig as u128);
                if v > max as u128 {
                    over = true;
                } else {
                    acc = v as u64;
                }
            }
            any_digit = true;
            proof {
                count = count + 1;
            }
        }
        at_start = false;
    }
    assert(d.take(count) =~= d);
    if !any_digit || over {
        None
    } else {
        Some(acc)
    }
}

/// The pieces of `s` between occurrences of `sep`, as `str::split` yields them.
pub open spec fn split_on(s: Seq<char>, sep: char) -> Seq<Seq<char>>
    decreases s.len(),
{
    if s.len() == 0 {
        seq![Seq::empty()]
    } else {
        let p = split_on(s.drop_last(), sep);
        if s.last() == sep {
            p.push(Seq::empty())
        } else {
            p.update(p.len() - 1, p.last().push(s.last()))
        }
    }
}

/// `str::split` always yields at least one piece.
pub proof fn lemma_split_nonempty(s: Seq<char>, sep: char)
    ensures
        split_on(s, sep).len() >= 1,
    decreases s.len(),
{
    if s.len() > 0 {
        lemma_split_nonempty(s.drop_last(), sep);
    }
}

/// Pieces put back together with the separator between each two of them.
pub open spec fn joined(p: Seq<Seq<char>>, sep: char) -> Seq<char>
    decreases p.len(),
{
    if p.len() == 0 {
        Seq::empty()
    } else if p.len() == 1 {
        p[0]
    } else {
        joined(p.drop_last(), sep).push(sep) + p.last()
    }
}

/// Joining the pieces of a split with the separator gives back the text.
pub proof fn lemma_split_joined(s: Seq<char>, sep: char)
    ensures
        joined(split_on(s, sep), sep) == s,
    decreases s.len(),
{
    if s.len() == 0 {
        assert(s =~= Seq::<char>::empty());
    } else {
        let t = s.drop_last();
        let p = split_on(t, sep);
        lemma_split_joined(t, sep);
        lemma_split_nonempty(t, sep);
        assert(s =~= t.push(s.last()));
        if s.last() == sep {
            let q = p.push(Seq::<char>::empty());
            assert(q.drop_last() =~= p);
            assert(joined(q, sep) =~= joined(p, sep).push(sep));
        } else {
            let q = p.update(p.len() - 1, p.last().push(s.last()));
            if p.len() > 1 {
                assert(q.drop_last() =~= p.drop_last());
                assert(joined(q, sep) =~= joined(p, sep).push(s.last()));
            }
        }
    }
}

/// Appending text without the separator extends the last piece of a split.
pub proof fn lemma_split_append_plain(s: Seq<char>, t: Seq<char>, sep: char)
    requires
        !t.contains(sep),
    ensures
        split_on(s + t, sep) == split_on(s, sep).update(
            split_on(s, sep).len() - 1,
            split_on(s, sep).last() + t,
        ),
    decreases t.len(),
{
    lemma_split_nonempty(s, sep);
    let p = split_on(s, sep);
    if t.len() == 0 {
        assert(s + t =~= s);
        assert(p.last() + t =~= p.last());
        assert(p.update(p.len() - 1, p.last() + t) =~= p);
    } else {
        let t1 = t.drop_last();
        assert(!t1.contains(sep)) by {
            if t1.contains(sep) {
                let k = choose|k: int| 0 <= k < t1.len() && t1[k] == sep;
                assert(t[k] == sep);
            }
        }
        lemma_split_append_plain(s, t1, sep);
        assert((s + t).drop_last() =~= s + t1);
        assert(t[t.len() - 1] != sep);
        assert((p.last() + t1).push(t.last()) =~= p.last() + t);
        assert(split_on(s + t, sep) =~= p.update(p.len() - 1, p.last() + t));
    }
}

/// The first two characters and the length (counted up to three) of a piece.
#[derive(Debug, Clone, Copy)]
pub struct PieceSketch {
    pub len: usize,
    pub first: char,
    pub second: char,
}

pub open spec fn sketches(k: PieceSketch, piece: Seq<char>) -> bool {
    &&& k.len as int == (if piece.len() < 3 { piece.len() as int } else { 3 })
    &&& piece.len() >= 1 ==> k.first == piece[0]
    &&& piece.len() >= 2 ==> k.second == piece[1]
}

/// What the rules on clock texts read of the pieces between colons: how many
/// pieces there are (counted up to four) and a sketch of the first three.
#[derive(Debug, Clone, Copy)]
pub struct ColonPieces {
    pub count: usize,
    pub p0: PieceSketch,
    pub p1: PieceSketch,
    pub p2: PieceSketch,
}

pub open spec fn describes(c: ColonPieces, s: Seq<char>) -> bool {
    let p = split_on(s, ':');
    &&& c.count as int == (if p.len() < 4 { p.len() as int } else { 4 })
    &&& 1 <= c.count <= 4
    &&& c.count >= 1 ==> sketches(c.p0, p[0])
    &&& c.count >= 2 ==> sketches(c.p1, p[1])
    &&& c.count >= 3 ==> sketches(c.p2, p[2])
}

fn grow(k: PieceSketch, c: char) -> (r: PieceSketch)
    requires
        k.len <= 3,
    ensures
        forall|piece: Seq<char>| sketches(k, piece) ==> sketches(r, piece.push(c)),
{
    let r = if k.len == 0 {
        PieceSketch { len: 1, first: c, second: k.second }
    } else if k.len == 1 {
        PieceSketch { len: 2, first: k.first, second: c }
    } else {
        PieceSketch { len: 3, first: k.first, second: k.second }
    };
    assert forall|piece: Seq<char>| sketches(k, piece) implies sketches(r, piece.push(c)) by {
        let q = piece.push(c);
        assert(q.len() == piece.len() + 1);
        if piece.len() >= 1 {
            assert(q[0] == piece[0]);
        }
        if piece.len() >= 2 {
            assert(q[1] == piece[1]);
        }
        if piece.len() == 0 {
            assert(q[0] == c);
        }
        if piece.len() == 1 {
            assert(q[1] == c);
        }
    }
    r
}

/// Scans `s` once and sketches its colon-separated pieces.
pub fn colon_pieces(s: &str) -> (r: ColonPieces)
    ensures
        describes(r, s@),
{
    let empty = PieceSketch { len: 0, first: ' ', second: ' ' };
    let mut r = ColonPieces { count: 1, p0: empty, p1: empty, p2: empty };
    assert(s@.take(0) =~= Seq::<char>::empty());
    for c in it: s.chars()
        invariant
            it.seq() == s@,
            empty.len == 0,
            describes(r, s@.take(it.index() as int)),
    {
        let ghost i = it.index() as int;
        let ghost pre = s@.take(i);
        let ghost p = split_on(pre, ':');
        proof {
            lemma_split_nonempty(pre, ':');
            assert(s@.take(i + 1).drop_last() =~= pre);
            assert(s@.take(i + 1).last() == c);
        }
        let ghost q = split_on(s@.take(i + 1), ':');
        if c == ':' {
            assert(q == p.push(Seq::<char>::empty()));
            if r.count == 1 {
                r.count = 2;
                r.p1 = empty;
            } else if r.count == 2 {
                r.count = 3;
                r.p2 = empty;
            } else if r.count == 3 {
                r.count = 4;
            }
        } else {
            assert(q == p.update(p.len() - 1, p.last().push(c)));
            if r.count == 1 {
                r.p0 = grow(r.p0, c);
            } else if r.count == 2 {
                r.p1 = grow(r.p1, c);
            } else if r.count == 3 {
                r.p2 = grow(r.p2, c);
            }
        }
    }
    assert(s@.take(s@.len() as int) =~= s@);
    r
}

} // verus!
