//! Text shaping for locations: labels with fallbacks and the wrapping of
//! addresses into lines for display.
use vstd::prelude::*;

use crate::text::{push_char, split_on, split_text, trim, trim_text, views};

verus! {

/// The number of bytes of the UTF-8 encoding of `s` (what `str::len` gives).
pub open spec fn byte_len(s: Seq<char>) -> nat {
    vstd::utf8::encode_utf8(s).len()
}

/// The UTF-8 encoding of two texts one after the other is the two encodings joined.
pub proof fn lemma_encode_utf8_add(a: Seq<char>, b: Seq<char>)
    ensures
        vstd::utf8::encode_utf8(a + b) == vstd::utf8::encode_utf8(a) + vstd::utf8::encode_utf8(b),
    decreases a.len(),
{
    if a.len() == 0 {
        assert(a + b =~= b);
    } else {
        lemma_encode_utf8_add(a.drop_first(), b);
        assert((a + b).drop_first() =~= a.drop_first() + b);
        assert((a + b)[0] == a[0]);
    }
}

/// The separator between address items on one line.
pub open spec fn item_sep() -> Seq<char> {
    seq![',', ' ']
}

/// The trimmed, non-blank pieces of a list of pieces.
pub open spec fn nonblank_trimmed(parts: Seq<Seq<char>>) -> Seq<Seq<char>>
    decreases parts.len(),
{
    if parts.len() == 0 {
        Seq::empty()
    } else {
        let prev = nonblank_trimmed(parts.drop_last());
        let t = trim(parts.last());
        if t.len() > 0 {
            prev.push(t)
        } else {
            prev
        }
    }
}

/// The items of an address: its comma-separated parts, trimmed, without blank ones.
pub open spec fn address_items(address: Seq<char>) -> Seq<Seq<char>> {
    nonblank_trimmed(split_on(address, ','))
}

/// The longest line, in bytes, that packing extends with another item.
pub open spec fn max_line_len() -> int {
    50
}

/// One step of packing items into lines: the first item starts the line;
/// later items join it after ", " while the line stays within the limit,
/// and otherwise close it and start the next.
pub open spec fn pack_step(st: (Seq<Seq<char>>, Seq<char>), item: Seq<char>) -> (
    Seq<Seq<char>>,
    Seq<char>,
) {
    let (lines, cur) = st;
    if cur.len() == 0 {
        (lines, item)
    } else if byte_len(cur) + byte_len(item) + 2 <= max_line_len() {
        (lines, cur + item_sep() + item)
    } else {
        (lines.push(cur), item)
    }
}

/// The closed lines and the open line after packing `items`.
pub open spec fn pack(items: Seq<Seq<char>>) -> (Seq<Seq<char>>, Seq<char>)
    decreases items.len(),
{
    if items.len() == 0 {
        (Seq::empty(), Seq::empty())
    } else {
        pack_step(pack(items.drop_last()), items.last())
    }
}

/// The display lines of an address.
pub open spec fn address_lines(address: Seq<char>) -> Seq<Seq<char>> {
    let (lines, cur) = pack(address_items(address));
    if cur.len() == 0 {
        lines
    } else {
        lines.push(cur)
    }
}

/// Lines joined with a separator between each two.
pub open spec fn join_lines(lines: Seq<Seq<char>>, sep: Seq<char>) -> Seq<char>
    decreases lines.len(),
{
    if lines.len() == 0 {
        Seq::empty()
    } else if lines.len() == 1 {
        lines[0]
    } else {
        join_lines(lines.drop_last(), sep) + sep + lines.last()
    }
}

/// A line break followed by `n` spaces.
pub open spec fn line_break(n: nat) -> Seq<char> {
    seq!['\n'] + Seq::new(n, |i: int| ' ')
}

/// An address wrapped for display: its lines, each after the first indented
/// by `indent` spaces; an address without items is shown as it is.
pub open spec fn formatted_address(address: Seq<char>, indent: nat) -> Seq<char> {
    let lines = address_lines(address);
    if lines.len() == 0 {
        address
    } else {
        join_lines(lines, line_break(indent))
    }
}

/// The trimmed text, or the fallback where the text is blank.
pub open spec fn label_or(text: Seq<char>, fallback: Seq<char>) -> Seq<char> {
    if trim(text).len() == 0 {
        fallback
    } else {
        trim(text)
    }
}

/// A location label: the trimmed text, or the fallback where the text is blank.
pub fn label_or_fallback(text: &str, fallback: String) -> (r: String)
    ensures
        r@ == label_or(text@, fallback@),
{
    let t = trim_text(text);
    if t.as_str().is_empty() {
        fallback
    } else {
        t
    }
}

/// Appending a character adds the length of its encoding.
proof fn lemma_byte_len_push(s: Seq<char>, c: char)
    ensures
        byte_len(s.push(c)) == byte_len(s) + vstd::utf8::encode_scalar(c as u32).len(),
{
    lemma_encode_utf8_add(s, seq![c]);
    assert(s.push(c) =~= s + seq![c]);
    assert(seq![c].drop_first() =~= Seq::<char>::empty());
    assert(vstd::utf8::encode_utf8(seq![c]) =~= vstd::utf8::encode_scalar(c as u32) + vstd::utf8::encode_utf8(Seq::<char>::empty()));
}

/// The number of bytes of the UTF-8 encoding of a character.
fn char_width(c: char) -> (r: usize)
    ensures
        r == vstd::utf8::encode_scalar(c as u32).len(),
        1 <= r <= 4,
{
    proof {
        vstd::utf8::char_is_scalar(c);
    }
    let u = c as u32;
    if u <= 0x7f {
        1
    } else if u <= 0x7ff {
        2
    } else if u <= 0xffff {
        3
    } else {
        4
    }
}

/// The byte length of `s` when it is at most `limit`.
pub fn byte_len_within(s: &str, limit: usize) -> (r: Option<usize>)
    ensures
        byte_len(s@) <= limit ==> r == Some(byte_len(s@) as usize),
        byte_len(s@) > limit ==> r is None,
{
    let v = crate::text::chars_of(s);
    let mut total: usize = 0;
    let mut i: usize = 0;
    assert(v@.take(0) =~= Seq::<char>::empty());
    while i < v.len()
        invariant
            v@ == s@,
            i <= v.len(),
            total == byte_len(v@.take(i as int)),
            total <= limit,
        decreases v.len() - i,
    {
        let w = char_width(v[i]);
        proof {
            lemma_byte_len_push(v@.take(i as int), v@[i as int]);
            assert(v@.take(i + 1) =~= v@.take(i as int).push(v@[i as int]));
        }
        if w > limit - total {
            proof {
                lemma_byte_len_prefix(v@, i + 1);
            }
            return None;
        }
        total = total + w;
        i = i + 1;
    }
    assert(v@.take(v.len() as int) =~= v@);
    Some(total)
}

/// A prefix of a text is no longer in bytes than the text.
proof fn lemma_byte_len_prefix(s: Seq<char>, k: int)
    requires
        0 <= k <= s.len(),
    ensures
        byte_len(s.take(k)) <= byte_len(s),
    decreases s.len() - k,
{
    if k < s.len() {
        lemma_byte_len_prefix(s.drop_last(), k);
        assert(s.drop_last().take(k) =~= s.take(k));
        lemma_byte_len_push(s.drop_last(), s.last());
        assert(s.drop_last().push(s.last()) =~= s);
    } else {
        assert(s.take(k) =~= s);
    }
}

/// Wraps an address for display, as `Location::formatted_address` shows it.
pub fn wrap_address(address: &str, indent_spaces: usize) -> (r: String)
    ensures
        r@ == formatted_address(address@, indent_spaces as nat),
{
    let parts = split_text(address, ',');
    let ghost ps = views(parts@);
    let mut lines: Vec<String> = Vec::new();
    let mut cur = String::new();
    let mut i: usize = 0;
    proof {
        assert(ps.take(0) =~= Seq::<Seq<char>>::empty());
        assert(views(lines@) =~= Seq::<Seq<char>>::empty());
    }
    while i < parts.len()
        invariant
            ps == views(parts@),
            ps == split_on(address@, ','),
            i <= parts.len(),
            (views(lines@), cur@) == pack(nonblank_trimmed(ps.take(i as int))),
        decreases parts.len() - i,
    {
        let item = trim_text(parts[i].as_str());
        assert(ps.take(i + 1).drop_last() =~= ps.take(i as int));
        assert(ps.take(i + 1).last() == parts@[i as int]@);
        if !item.as_str().is_empty() {
            let ghost before = pack(nonblank_trimmed(ps.take(i as int)));
            assert(nonblank_trimmed(ps.take(i + 1)) == nonblank_trimmed(ps.take(i as int)).push(
                item@,
            ));
            assert(nonblank_trimmed(ps.take(i + 1)).drop_last() =~= nonblank_trimmed(
                ps.take(i as int),
            ));
            assert(pack(nonblank_trimmed(ps.take(i + 1))) == pack_step(before, item@));
            if cur.as_str().is_empty() {
                cur = item;
            } else {
                let fits = match byte_len_within(cur.as_str(), 48) {
                    Some(cur_len) => byte_len_within(item.as_str(), 48 - cur_len).is_some(),
                    None => false,
                };
                if fits {
                    cur.append(", ");
                    cur.append(item.as_str());
                    proof {
                        reveal_strlit(", ");
                        assert(", "@ =~= item_sep());
                    }
                } else {
                    let ghost lines_before = views(lines@);
                    let mut closed = String::new();
                    std::mem::swap(&mut closed, &mut cur);
                    lines.push(closed);
                    cur = item;
                    assert(views(lines@) =~= lines_before.push(before.1));
                }
            }
        }
        else {
            assert(nonblank_trimmed(ps.take(i + 1)) == nonblank_trimmed(ps.take(i as int)));
        }
        i = i + 1;
    }
    assert(ps.take(parts.len() as int) =~= ps);
    if !cur.as_str().is_empty() {
        let ghost lines_before = views(lines@);
        lines.push(cur);
        assert(views(lines@) =~= lines_before.push(pack(address_items(address@)).1));
    }
    if lines.len() == 0 {
        return crate::text::owned(address);
    }
    let mut sep = String::new();
    push_char(&mut sep, '\n');
    let mut k: usize = 0;
    while k < indent_spaces
        invariant
            k <= indent_spaces,
            sep@ == seq!['\n'] + Seq::new(k as nat, |i: int| ' '),
        decreases indent_spaces - k,
    {
        push_char(&mut sep, ' ');
        k = k + 1;
        assert(sep@ =~= seq!['\n'] + Seq::new(k as nat, |i: int| ' '));
    }
    let ghost ls = views(lines@);
    let mut out = lines[0].clone();
    let mut j: usize = 1;
    assert(ls.take(1) =~= seq![ls[0]]);
    while j < lines.len()
        invariant
            ls == views(lines@),
            1 <= j <= lines.len(),
            sep@ == line_break(indent_spaces as nat),
            out@ == join_lines(ls.take(j as int), sep@),
        decreases lines.len() - j,
    {
        out.append(sep.as_str());
        out.append(lines[j].as_str());
        assert(ls.take(j + 1).drop_last() =~= ls.take(j as int));
        j = j + 1;
    }
    assert(ls.take(lines.len() as int) =~= ls);
    out
}

/// Whether a display line is acceptable: a single address item, or at most
/// the line limit in bytes.
pub open spec fn line_ok(line: Seq<char>, items: Seq<Seq<char>>) -> bool {
    items.contains(line) || byte_len(line) <= max_line_len()
}

/// The item separator takes two bytes.
proof fn lemma_sep_byte_len()
    ensures
        byte_len(item_sep()) == 2,
{
    reveal_with_fuel(vstd::utf8::encode_utf8, 3);
    let s = item_sep();
    assert(s.drop_first() =~= seq![' ']);
    assert(seq![' '].drop_first() =~= Seq::<char>::empty());
}

/// Packing items of `all` gives only lines that fit or are one such item.
proof fn lemma_pack_lines_ok(items: Seq<Seq<char>>, all: Seq<Seq<char>>)
    requires
        forall|i: int| 0 <= i < items.len() ==> all.contains(#[trigger] items[i]),
    ensures
        forall|i: int|
            0 <= i < pack(items).0.len() ==> line_ok(#[trigger] pack(items).0[i], all),
        pack(items).1.len() > 0 ==> line_ok(pack(items).1, all),
    decreases items.len(),
{
    if items.len() > 0 {
        let prev = items.drop_last();
        assert forall|i: int| 0 <= i < prev.len() implies all.contains(#[trigger] prev[i]) by {
            assert(prev[i] == items[i]);
        }
        lemma_pack_lines_ok(prev, all);
        let (lines, cur) = pack(prev);
        let item = items.last();
        assert(all.contains(item)) by {
            assert(item == items[items.len() - 1]);
        }
        if cur.len() > 0 && byte_len(cur) + byte_len(item) + 2 <= max_line_len() {
            lemma_encode_utf8_add(cur, item_sep());
            lemma_encode_utf8_add(cur + item_sep(), item);
            lemma_sep_byte_len();
        }
    }
}

/// Every display line of a wrapped address is a single address item or at
/// most 50 bytes long: items are joined onto a line only while it fits.
pub proof fn law_wrapped_lines_fit(address: Seq<char>)
    ensures
        forall|i: int|
            0 <= i < address_lines(address).len() ==> line_ok(
                #[trigger] address_lines(address)[i],
                address_items(address),
            ),
{
    let items = address_items(address);
    lemma_pack_lines_ok(items, items);
}

} // verus!
