//! IP addresses and their textual forms: dotted-quad IPv4 and colon-separated IPv6 with
//! optional `::` compression and a trailing embedded IPv4 address.

use vstd::prelude::*;

use crate::text::{
    chars_of, contains_seq, find_char_from, find_seq, index_of, lemma_index_of_bounds, occurs_at,
    sub_chars,
};

verus! {

/// An IP address: four octets, or eight 16-bit groups.
#[derive(Debug, Clone, Copy, PartialEq, Eq, Structural)]
pub enum IpAddress {
    /// IPv4 octets, most significant first.
    V4(u8, u8, u8, u8),
    /// IPv6 groups, most significant first.
    V6(u16, u16, u16, u16, u16, u16, u16, u16),
}

/// `c` is an ASCII decimal digit.
pub open spec fn is_dec_digit(c: char) -> bool {
    '0' <= c && c <= '9'
}

/// `c` is an ASCII hexadecimal digit, in either case.
pub open spec fn is_hex_digit(c: char) -> bool {
    is_dec_digit(c) || ('a' <= c && c <= 'f') || ('A' <= c && c <= 'F')
}

/// Value of a string of decimal digits.
pub open spec fn dec_value(s: Seq<char>) -> int
    decreases s.len(),
{
    if s.len() == 0 {
        0
    } else {
        dec_value(s.drop_last()) * 10 + (s.last() as int - '0' as int)
    }
}

/// One IPv4 octet: one to three digits, at most 255, without a leading zero.
pub open spec fn is_octet_text(s: Seq<char>) -> bool {
    &&& 1 <= s.len() <= 3
    &&& forall|i: int| 0 <= i < s.len() ==> is_dec_digit(#[trigger] s[i])
    &&& dec_value(s) <= 255
    &&& (s.len() == 1 || s[0] != '0')
}

/// One IPv6 group: one to four hexadecimal digits.
pub open spec fn is_group_text(s: Seq<char>) -> bool {
    &&& 1 <= s.len() <= 4
    &&& forall|i: int| 0 <= i < s.len() ==> is_hex_digit(#[trigger] s[i])
}

/// The pieces of `s` between occurrences of `sep` (one piece when `sep` does not occur).
pub open spec fn split(s: Seq<char>, sep: char) -> Seq<Seq<char>>
    decreases s.len(),
{
    let i = index_of(s, sep);
    if i < 0 || i >= s.len() {
        seq![s]
    } else {
        seq![s.subrange(0, i)] + split(s.subrange(i + 1, s.len() as int), sep)
    }
}

/// Dotted-quad IPv4 text.
pub open spec fn is_ipv4_text(s: Seq<char>) -> bool {
    let t = split(s, '.');
    t.len() == 4 && forall|i: int| 0 <= i < 4 ==> is_octet_text(#[trigger] t[i])
}

/// The colon-separated pieces of `s`; none for empty text.
pub open spec fn colon_pieces(s: Seq<char>) -> Seq<Seq<char>> {
    if s.len() == 0 {
        Seq::empty()
    } else {
        split(s, ':')
    }
}

/// All pieces are hexadecimal groups.
pub open spec fn all_groups(t: Seq<Seq<char>>) -> bool {
    forall|i: int| 0 <= i < t.len() ==> is_group_text(#[trigger] t[i])
}

/// Pieces that fill at most `limit` 16-bit groups: hexadecimal groups, the last of which
/// may instead be an embedded IPv4 address filling two groups.
pub open spec fn fits_groups(t: Seq<Seq<char>>, limit: int) -> bool {
    ||| all_groups(t) && t.len() <= limit
    ||| t.len() >= 1 && all_groups(t.drop_last()) && is_ipv4_text(t.last()) && t.len() + 1 <= limit
}

/// The two-character compression marker.
pub open spec fn double_colon() -> Seq<char> {
    seq![':', ':']
}

/// Colon-separated IPv6 text. Without `::` it holds eight groups (or six and an embedded
/// IPv4 address); with it, the groups before the first `::` and those after it together
/// fill at most seven groups, and only the last piece after it may be IPv4.
pub open spec fn is_ipv6_text(s: Seq<char>) -> bool {
    if !contains_seq(s, double_colon()) {
        let t = colon_pieces(s);
        (all_groups(t) && t.len() == 8) || (t.len() == 7 && fits_groups(t, 8))
    } else {
        exists|p: int|
            #[trigger] occurs_at(s, double_colon(), p) && (forall|q: int|
                0 <= q < p ==> !occurs_at(s, double_colon(), q)) && {
                let head = colon_pieces(s.subrange(0, p));
                let tail = colon_pieces(s.subrange(p + 2, s.len() as int));
                all_groups(head) && head.len() <= 7 && fits_groups(tail, 7 - head.len())
            }
    }
}

/// Text of an IPv4 or IPv6 address.
pub open spec fn is_ip_text(s: Seq<char>) -> bool {
    is_ipv4_text(s) || is_ipv6_text(s)
}

/// Splits `s` at every `sep`.
fn split_chars(s: &Vec<char>, sep: char) -> (r: Vec<Vec<char>>)
    ensures
        r@.len() == split(s@, sep).len(),
        forall|k: int| 0 <= k < r@.len() ==> (#[trigger] r@[k])@ == split(s@, sep)[k],
{
    let mut r: Vec<Vec<char>> = Vec::new();
    let ghost mut done: Seq<Seq<char>> = Seq::empty();
    let mut pos: usize = 0;
    assert(s@.subrange(0, s@.len() as int) =~= s@);
    loop
        invariant
            pos <= s@.len(),
            r@.len() == done.len(),
            forall|k: int| 0 <= k < r@.len() ==> (#[trigger] r@[k])@ == done[k],
            done + split(s@.subrange(pos as int, s@.len() as int), sep) == split(s@, sep),
        decreases s@.len() - pos,
    {
        let i = find_char_from(s, sep, pos);
        let piece = sub_chars(s, pos, i);
        let ghost t = s@.subrange(pos as int, s@.len() as int);
        proof {
            assert(s@.skip(pos as int) =~= t);
            lemma_index_of_bounds(t, sep);
            assert(t.subrange(0, i - pos) =~= piece@);
        }
        r.push(piece);
        proof {
            done = done.push(piece@);
        }
        if i == s.len() {
            proof {
                assert(split(t, sep) == seq![t]);
                assert(t =~= piece@);
                assert(done =~= split(s@, sep)) by {
                    assert(done.drop_last() + seq![t] == split(s@, sep));
                }
            }
            return r;
        }
        proof {
            assert(t.subrange(i - pos + 1, t.len() as int) =~= s@.subrange(i + 1, s@.len() as int));
            assert(done + split(s@.subrange(i + 1, s@.len() as int), sep) =~= split(s@, sep)) by {
                assert(split(t, sep) == seq![piece@] + split(s@.subrange(i + 1, s@.len() as int), sep));
            }
        }
        pos = i + 1;
    }
}

fn is_dec_digit_exec(c: char) -> (b: bool)
    ensures
        b == is_dec_digit(c),
{
    '0' <= c && c <= '9'
}

fn is_hex_digit_exec(c: char) -> (b: bool)
    ensures
        b == is_hex_digit(c),
{
    ('0' <= c && c <= '9') || ('a' <= c && c <= 'f') || ('A' <= c && c <= 'F')
}

/// `s` is one IPv4 octet.
fn is_octet(s: &Vec<char>) -> (b: bool)
    ensures
        b == is_octet_text(s@),
{
    if s.len() < 1 || s.len() > 3 {
        return false;
    }
    let mut value: u32 = 0;
    let mut i: usize = 0;
    while i < s.len()
        invariant
            1 <= s@.len() <= 3,
            i <= s@.len(),
            forall|j: int| 0 <= j < i ==> is_dec_digit(#[trigger] s@[j]),
            value == dec_value(s@.subrange(0, i as int)),
            value < 1000,
            i == 0 ==> value == 0,
            i == 1 ==> value < 10,
            i == 2 ==> value < 100,
        decreases s@.len() - i,
    {
        let c = s[i];
        if !is_dec_digit_exec(c) {
            return false;
        }
        proof {
            assert(s@.subrange(0, i + 1).drop_last() =~= s@.subrange(0, i as int));
        }
        value = value * 10 + ((c as u32) - ('0' as u32));
        i = i + 1;
    }
    proof {
        assert(s@.subrange(0, s@.len() as int) =~= s@);
    }
    value <= 255 && (s.len() == 1 || s[0] != '0')
}

/// `s` is one IPv6 group.
fn is_group(s: &Vec<char>) -> (b: bool)
    ensures
        b == is_group_text(s@),
{
    if s.len() < 1 || s.len() > 4 {
        return false;
    }
    let mut i: usize = 0;
    while i < s.len()
        invariant
            i <= s@.len(),
            forall|j: int| 0 <= j < i ==> is_hex_digit(#[trigger] s@[j]),
        decreases s@.len() - i,
    {
        if !is_hex_digit_exec(s[i]) {
            return false;
        }
        i = i + 1;
    }
    true
}

/// `s` is dotted-quad IPv4 text.
fn is_ipv4(s: &Vec<char>) -> (b: bool)
    ensures
        b == is_ipv4_text(s@),
{
    let t = split_chars(s, '.');
    if t.len() != 4 {
        return false;
    }
    let mut i: usize = 0;
    while i < 4
        invariant
            t@.len() == 4,
            t@.len() == split(s@, '.').len(),
            forall|k: int| 0 <= k < t@.len() ==> (#[trigger] t@[k])@ == split(s@, '.')[k],
            i <= 4,
            forall|j: int| 0 <= j < i ==> is_octet_text(#[trigger] split(s@, '.')[j]),
        decreases 4 - i,
    {
        if !is_octet(&t[i]) {
            return false;
        }
        i = i + 1;
    }
    true
}

/// The colon-separated pieces of `s`; none for empty text.
fn colon_pieces_exec(s: &Vec<char>) -> (r: Vec<Vec<char>>)
    ensures
        r@.len() == colon_pieces(s@).len(),
        forall|k: int| 0 <= k < r@.len() ==> (#[trigger] r@[k])@ == colon_pieces(s@)[k],
{
    if s.len() == 0 {
        Vec::new()
    } else {
        split_chars(s, ':')
    }
}

/// The first `n` pieces are hexadecimal groups.
fn groups_prefix(t: &Vec<Vec<char>>, n: usize, Ghost(g): Ghost<Seq<Seq<char>>>) -> (b: bool)
    requires
        n <= t@.len(),
        t@.len() == g.len(),
        forall|k: int| 0 <= k < t@.len() ==> (#[trigger] t@[k])@ == g[k],
    ensures
        b == all_groups(g.subrange(0, n as int)),
{
    let mut i: usize = 0;
    while i < n
        invariant
            n <= t@.len(),
            t@.len() == g.len(),
            forall|k: int| 0 <= k < t@.len() ==> (#[trigger] t@[k])@ == g[k],
            i <= n,
            forall|j: int| 0 <= j < i ==> is_group_text(#[trigger] g[j]),
        decreases n - i,
    {
        if !is_group(&t[i]) {
            proof {
                assert(g.subrange(0, n as int)[i as int] == g[i as int]);
            }
            return false;
        }
        i = i + 1;
    }
    assert forall|j: int| 0 <= j < n implies is_group_text(#[trigger] g.subrange(0, n as int)[j]) by {
        assert(g.subrange(0, n as int)[j] == g[j]);
    }
    true
}

/// The pieces fill at most `limit` groups.
fn fits(t: &Vec<Vec<char>>, limit: usize, Ghost(g): Ghost<Seq<Seq<char>>>) -> (b: bool)
    requires
        t@.len() == g.len(),
        forall|k: int| 0 <= k < t@.len() ==> (#[trigger] t@[k])@ == g[k],
    ensures
        b == fits_groups(g, limit as int),
{
    proof {
        assert(g.subrange(0, g.len() as int) =~= g);
    }
    if groups_prefix(t, t.len(), Ghost(g)) && t.len() <= limit {
        return true;
    }
    if t.len() == 0 {
        return false;
    }
    proof {
        assert(g.subrange(0, g.len() - 1) =~= g.drop_last());
    }
    let last = t.len() - 1;
    groups_prefix(t, last, Ghost(g)) && is_ipv4(&t[last]) && t.len() < limit
}

/// `s` is IPv6 text.
fn is_ipv6(s: &Vec<char>) -> (b: bool)
    ensures
        b == is_ipv6_text(s@),
{
    let dc: Vec<char> = vec![':', ':'];
    proof {
        assert(dc@ =~= double_colon());
    }
    match find_seq(s, &dc) {
        None => {
            let t = colon_pieces_exec(s);
            let ghost g = colon_pieces(s@);
            proof {
                assert(g.subrange(0, g.len() as int) =~= g);
            }
            (t.len() == 8 && groups_prefix(&t, t.len(), Ghost(g))) || (t.len() == 7 && fits(&t, 8, Ghost(g)))
        },
        Some(p) => {
            assert(dc@.len() == 2);
            assert(occurs_at(s@, dc@, p as int));
            let sl = s.len();
            assert(p + 2 <= sl);
            let head_chars = sub_chars(s, 0, p);
            let tail_chars = sub_chars(s, p + 2, sl);
            let head = colon_pieces_exec(&head_chars);
            let tail = colon_pieces_exec(&tail_chars);
            let ghost hg = colon_pieces(s@.subrange(0, p as int));
            let ghost tg = colon_pieces(s@.subrange(p + 2, s@.len() as int));
            proof {
                assert(hg.subrange(0, hg.len() as int) =~= hg);
            }
            let b = head.len() <= 7 && groups_prefix(&head, head.len(), Ghost(hg)) && fits(&tail, 7 - head.len(), Ghost(tg));
            proof {
                if !b && is_ipv6_text(s@) {
                    let p2 = choose|p2: int|
                        #[trigger] occurs_at(s@, double_colon(), p2) && (forall|q: int|
                            0 <= q < p2 ==> !occurs_at(s@, double_colon(), q)) && {
                            let head = colon_pieces(s@.subrange(0, p2));
                            let tail = colon_pieces(s@.subrange(p2 + 2, s@.len() as int));
                            all_groups(head) && head.len() <= 7 && fits_groups(tail, 7 - head.len())
                        };
                    if p2 < p {
                        assert(!occurs_at(s@, double_colon(), p2));
                    } else if p2 > p {
                        assert(!occurs_at(s@, double_colon(), p as int));
                    }
                }
            }
            b
        },
    }
}

/// `text` is the text of an IPv4 or IPv6 address.
pub fn is_ip_address_text(text: &str) -> (b: bool)
    ensures
        b == is_ip_text(text@),
{
    let s = chars_of(text);
    is_ipv4(&s) || is_ipv6(&s)
}

} // verus!
