use vstd::prelude::*;
use vstd::string::*;

verus! {

/// The lowercase hexadecimal digit for a value below 16.
pub open spec fn hex_digit(n: int) -> char {
    if n == 0 { '0' } else if n == 1 { '1' } else if n == 2 { '2' } else if n == 3 { '3' }
    else if n == 4 { '4' } else if n == 5 { '5' } else if n == 6 { '6' } else if n == 7 { '7' }
    else if n == 8 { '8' } else if n == 9 { '9' } else if n == 10 { 'a' } else if n == 11 { 'b' }
    else if n == 12 { 'c' } else if n == 13 { 'd' } else if n == 14 { 'e' } else { 'f' }
}

/// The value of a hexadecimal digit, either case; `None` for any other character.
pub open spec fn hex_value(c: char) -> Option<int> {
    if c == '0' { Some(0) } else if c == '1' { Some(1) } else if c == '2' { Some(2) }
    else if c == '3' { Some(3) } else if c == '4' { Some(4) } else if c == '5' { Some(5) }
    else if c == '6' { Some(6) } else if c == '7' { Some(7) } else if c == '8' { Some(8) }
    else if c == '9' { Some(9) } else if c == 'a' || c == 'A' { Some(10) }
    else if c == 'b' || c == 'B' { Some(11) } else if c == 'c' || c == 'C' { Some(12) }
    else if c == 'd' || c == 'D' { Some(13) } else if c == 'e' || c == 'E' { Some(14) }
    else if c == 'f' || c == 'F' { Some(15) } else { None }
}

/// Two lowercase hexadecimal digits per byte, high nibble first.
pub open spec fn hex_lower(b: Seq<u8>) -> Seq<char>
    decreases b.len(),
{
    if b.len() == 0 {
        Seq::empty()
    } else {
        seq![hex_digit(b[0] as int / 16), hex_digit(b[0] as int % 16)] + hex_lower(b.skip(1))
    }
}

/// Reads pairs of hexadecimal digits back into bytes; a trailing odd digit is dropped.
pub open spec fn hex_decode(s: Seq<char>) -> Seq<int>
    decreases s.len(),
{
    if s.len() < 2 {
        Seq::empty()
    } else {
        seq![hex_value(s[0]).unwrap_or(0) * 16 + hex_value(s[1]).unwrap_or(0)] + hex_decode(
            s.skip(2),
        )
    }
}

/// The characters split into groups of two, joined by colons.
pub open spec fn colon_groups(s: Seq<char>) -> Seq<char>
    decreases s.len(),
{
    if s.len() <= 2 {
        s
    } else {
        s.take(2) + seq![':'] + colon_groups(s.skip(2))
    }
}

/// The characters with every colon taken out.
pub open spec fn strip_colons(s: Seq<char>) -> Seq<char>
    decreases s.len(),
{
    if s.len() == 0 {
        s
    } else if s[0] == ':' {
        strip_colons(s.skip(1))
    } else {
        seq![s[0]] + strip_colons(s.skip(1))
    }
}

proof fn lemma_strip_concat(a: Seq<char>, b: Seq<char>)
    ensures
        strip_colons(a + b) == strip_colons(a) + strip_colons(b),
    decreases a.len(),
{
    if a.len() == 0 {
        assert(a + b =~= b);
        assert(Seq::<char>::empty() + strip_colons(b) =~= strip_colons(b));
    } else {
        assert((a + b).skip(1) =~= a.skip(1) + b);
        lemma_strip_concat(a.skip(1), b);
        if a[0] != ':' {
            assert(seq![a[0]] + (strip_colons(a.skip(1)) + strip_colons(b)) =~= seq![a[0]]
                + strip_colons(a.skip(1)) + strip_colons(b));
        }
    }
}

proof fn lemma_strip_plain(t: Seq<char>)
    requires
        forall|i: int| 0 <= i < t.len() ==> t[i] != ':',
    ensures
        strip_colons(t) == t,
    decreases t.len(),
{
    if t.len() > 0 {
        lemma_strip_plain(t.skip(1));
        assert(seq![t[0]] + t.skip(1) =~= t);
    }
}

proof fn lemma_strip_groups(t: Seq<char>)
    requires
        forall|i: int| 0 <= i < t.len() ==> t[i] != ':',
    ensures
        strip_colons(colon_groups(t)) == t,
    decreases t.len(),
{
    if t.len() <= 2 {
        lemma_strip_plain(t);
    } else {
        lemma_strip_groups(t.skip(2));
        lemma_strip_plain(t.take(2));
        lemma_strip_concat(t.take(2) + seq![':'], colon_groups(t.skip(2)));
        lemma_strip_concat(t.take(2), seq![':']);
        assert(strip_colons(seq![':']) == Seq::<char>::empty()) by {
            assert(seq![':'].skip(1) =~= Seq::<char>::empty());
            assert(strip_colons(Seq::<char>::empty()) == Seq::<char>::empty());
        }
        assert(t.take(2) + Seq::<char>::empty() + t.skip(2) =~= t);
    }
}

proof fn lemma_digit_value(n: int)
    requires
        0 <= n < 16,
    ensures
        hex_value(hex_digit(n)) == Some(n),
        hex_digit(n) != ':',
        one_byte(hex_digit(n)),
{
}

proof fn lemma_hex_lower_decodes(b: Seq<u8>)
    ensures
        hex_lower(b).len() == 2 * b.len(),
        forall|i: int| 0 <= i < hex_lower(b).len() ==> hex_lower(b)[i] != ':',
        forall|i: int| 0 <= i < hex_lower(b).len() ==> one_byte(#[trigger] hex_lower(b)[i]),
        hex_decode(hex_lower(b)) == b.map_values(|x: u8| x as int),
    decreases b.len(),
{
    if b.len() > 0 {
        let h = hex_lower(b);
        let d = seq![hex_digit(b[0] as int / 16), hex_digit(b[0] as int % 16)];
        lemma_hex_lower_decodes(b.skip(1));
        lemma_digit_value(b[0] as int / 16);
        lemma_digit_value(b[0] as int % 16);
        assert(h.skip(2) =~= hex_lower(b.skip(1)));
        assert forall|i: int| 0 <= i < h.len() implies h[i] != ':' && one_byte(#[trigger] h[i]) by {
            if i >= 2 {
                assert(h[i] == hex_lower(b.skip(1))[i - 2]);
            }
        }
        assert(b.map_values(|x: u8| x as int) =~= seq![b[0] as int] + b.skip(1).map_values(
            |x: u8| x as int,
        ));
    } else {
        assert(b.map_values(|x: u8| x as int) =~= Seq::<int>::empty());
    }
}

/// Rendering a hardware address and reading it back loses nothing: taking
/// the colons out of the colon-separated hex text and decoding the digits
/// gives back the bytes it was made from.
pub proof fn lemma_mac_text_round_trip(mac: Seq<u8>)
    ensures
        hex_decode(strip_colons(colon_groups(hex_lower(mac)))) == mac.map_values(|x: u8| x as int),
{
    lemma_hex_lower_decodes(mac);
    lemma_strip_groups(hex_lower(mac));
}

/// Relies on hex::encode: two lowercase hexadecimal digits per byte, in order.
#[verifier::external_body]
fn to_hex(b: &[u8]) -> (r: String)
    ensures
        r@ == hex_lower(b@),
{
    hex::encode(b)
}

/// The character is encoded in one UTF-8 byte.
pub open spec fn one_byte(c: char) -> bool {
    (c as u32) < 0x80
}

/// The character is encoded in two UTF-8 bytes.
pub open spec fn two_bytes(c: char) -> bool {
    0x80 <= (c as u32) < 0x800
}

/// How many characters the next two-byte chunk of the text's UTF-8 encoding
/// holds, or `None` when that chunk is not valid UTF-8 on its own: it ends
/// inside a character, or is the start of a three- or four-byte one.
pub open spec fn next_chunk(s: Seq<char>) -> Option<int>
    recommends
        s.len() > 0,
{
    if one_byte(s[0]) {
        if s.len() == 1 {
            Some(1)
        } else if one_byte(s[1]) {
            Some(2)
        } else {
            None
        }
    } else if two_bytes(s[0]) {
        Some(1)
    } else {
        None
    }
}

/// The text's UTF-8 encoding cut into chunks of two bytes, each read back as
/// text, joined by colons; `None` when some chunk is not valid UTF-8.
pub open spec fn byte_pairs(s: Seq<char>) -> Option<Seq<char>>
    decreases s.len(),
{
    if s.len() == 0 {
        Some(s)
    } else {
        match next_chunk(s) {
            None => None,
            Some(k) => if s.len() <= k {
                Some(s)
            } else {
                match byte_pairs(s.skip(k)) {
                    Some(t) => Some(s.take(k) + seq![':'] + t),
                    None => None,
                }
            },
        }
    }
}

/// What `format_mac` returns for the text `s`.
pub open spec fn mac_text(s: Seq<char>) -> Seq<char> {
    match byte_pairs(s) {
        Some(t) => t,
        None => Seq::empty(),
    }
}

/// For text of one-byte characters, the chunks are pairs of characters.
proof fn lemma_ascii_pairs(s: Seq<char>)
    requires
        forall|i: int| 0 <= i < s.len() ==> one_byte(#[trigger] s[i]),
    ensures
        byte_pairs(s) == Some(colon_groups(s)),
    decreases s.len(),
{
    if s.len() > 2 {
        assert forall|i: int| 0 <= i < s.skip(2).len() implies one_byte(#[trigger] s.skip(2)[i]) by {
            assert(s.skip(2)[i] == s[i + 2]);
        }
        lemma_ascii_pairs(s.skip(2));
    } else if s.len() == 2 {
        assert(s.take(2) =~= s);
    }
}

/// `written` followed by the rest of the joined chunks, if there are any.
spec fn joined_after(written: Seq<char>, rest: Option<Seq<char>>) -> Option<Seq<char>> {
    match rest {
        None => None,
        Some(t) => if t.len() == 0 {
            Some(written)
        } else {
            Some(written + seq![':'] + t)
        },
    }
}

/// Cuts the UTF-8 bytes of `mac_str` into chunks of two and joins them with
/// colons (`000c296810f2` becomes `00:0c:29:68:10:f2`). When a chunk is not
/// valid UTF-8 on its own the result is empty.
pub fn format_mac(mac_str: &str) -> (r: String)
    ensures
        r@ == mac_text(mac_str@),
        (forall|i: int| 0 <= i < mac_str@.len() ==> one_byte(#[trigger] mac_str@[i])) ==> r@
            == colon_groups(mac_str@),
{
    proof {
        if forall|i: int| 0 <= i < mac_str@.len() ==> one_byte(#[trigger] mac_str@[i]) {
            lemma_ascii_pairs(mac_str@);
        }
    }
    let ghost s = mac_str@;
    let n = mac_str.unicode_len();
    let mut out = String::new();
    let mut i: usize = 0;
    while i < n
        invariant
            n == s.len(),
            s == mac_str@,
            i <= n,
            i == 0 ==> out@ == Seq::<char>::empty(),
            i > 0 ==> byte_pairs(s) == joined_after(out@, byte_pairs(s.skip(i as int))),
        decreases n - i,
    {
        let ghost rest = s.skip(i as int);
        let ghost old_out = out@;
        let c = mac_str.get_char(i);
        let k: usize = if (c as u32) < 0x80 {
            if i + 1 == n {
                1
            } else {
                let d = mac_str.get_char(i + 1);
                if (d as u32) < 0x80 {
                    2
                } else {
                    proof {
                        assert(rest[1] == s[i + 1]);
                        assert(byte_pairs(rest) == None::<Seq<char>>);
                    }
                    return String::new();
                }
            }
        } else if (c as u32) < 0x800 {
            1
        } else {
            proof {
                assert(byte_pairs(rest) == None::<Seq<char>>);
            }
            return String::new();
        };
        proof {
            assert(next_chunk(rest) == Some(k as int));
        }
        if i > 0 {
            out.append(":");
        }
        out.append(mac_str.substring_char(i, i + k));
        proof {
            reveal_strlit(":");
            assert(rest.take(k as int) =~= s.subrange(i as int, (i + k) as int));
            if rest.len() > k {
                assert(rest.skip(k as int) =~= s.skip((i + k) as int));
            } else {
                assert(rest.take(k as int) =~= rest);
                assert(s.skip((i + k) as int) =~= Seq::<char>::empty());
            }
            if i > 0 {
                assert(out@ =~= old_out + seq![':'] + rest.take(k as int));
            } else {
                assert(out@ =~= rest.take(k as int));
                assert(rest =~= s);
            }
        }
        i = i + k;
    }
    proof {
        if n > 0 {
            assert(s.skip(i as int) =~= Seq::<char>::empty());
        }
    }
    out
}

/// Renders a hardware address as colon-separated lowercase hex octets.
pub fn mac_to_string(mac: &[u8]) -> (r: String)
    ensures
        r@ == colon_groups(hex_lower(mac@)),
{
    let hex = to_hex(mac);
    proof {
        lemma_hex_lower_decodes(mac@);
    }
    format_mac(hex.as_str())
}

} // verus!
