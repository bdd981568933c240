use vstd::prelude::*;

verus! {

/// A pixel color: three 8-bit channels.
#[derive(Clone, Copy, Debug, PartialEq, Eq, Structural)]
pub struct Color {
    pub red: u8,
    pub green: u8,
    pub blue: u8,
}

/// The packed form of a color: `0x00RRGGBB`.
pub open spec fn packed(c: Color) -> int {
    c.red as int * 65536 + c.green as int * 256 + c.blue as int
}

/// The color a packed integer stands for (bits above the low 24 are ignored).
pub open spec fn unpacked(v: u32) -> Color {
    Color {
        red: ((v as int / 65536) % 256) as u8,
        green: ((v as int / 256) % 256) as u8,
        blue: (v as int % 256) as u8,
    }
}

impl Color {
    /// The zero color (all channels off).
    pub fn black() -> (r: Color)
        ensures
            r == (Color { red: 0, green: 0, blue: 0 }),
    {
        Color { red: 0, green: 0, blue: 0 }
    }

    /// Packs the color into one integer, `0x00RRGGBB`.
    pub fn pack(&self) -> (r: u32)
        ensures
            r as int == packed(*self),
            r < 0x100_0000,
    {
        self.red as u32 * 65536 + self.green as u32 * 256 + self.blue as u32
    }

    /// Reads a color back from its packed integer.
    pub fn unpack(v: u32) -> (r: Color)
        ensures
            r == unpacked(v),
    {
        Color { red: ((v / 65536) % 256) as u8, green: ((v / 256) % 256) as u8, blue: (v % 256) as u8 }
    }
}

/// Packing then unpacking gives the color back: the packed form is lossless.
pub proof fn lemma_pack_round_trip(c: Color)
    ensures
        0 <= packed(c) < 0x100_0000,
        unpacked(packed(c) as u32) == c,
{
    let r = c.red as int;
    let g = c.green as int;
    let b = c.blue as int;
    let v = r * 65536 + g * 256 + b;
    assert(v / 65536 == r && (v / 256) % 256 == g && v % 256 == b) by (nonlinear_arith)
        requires
            0 <= r < 256,
            0 <= g < 256,
            0 <= b < 256,
            v == r * 65536 + g * 256 + b,
    ;
}

/// Distinct colors have distinct packed forms.
pub proof fn lemma_pack_injective(a: Color, b: Color)
    ensures
        packed(a) == packed(b) <==> a == b,
{
    lemma_pack_round_trip(a);
    lemma_pack_round_trip(b);
}

/// Splits text at every comma; `n` commas give `n + 1` fields.
pub open spec fn split_commas(s: Seq<char>) -> Seq<Seq<char>>
    decreases s.len(),
{
    if s.len() == 0 {
        seq![Seq::<char>::empty()]
    } else {
        let p = split_commas(s.drop_last());
        if s.last() == ',' {
            p.push(Seq::<char>::empty())
        } else {
            p.update(p.len() - 1, p.last().push(s.last()))
        }
    }
}

pub open spec fn is_digit(c: char) -> bool {
    '0' <= c && c <= '9'
}

pub open spec fn all_digits(t: Seq<char>) -> bool {
    forall|i: int| 0 <= i < t.len() ==> is_digit(#[trigger] t[i])
}

/// The value of a run of decimal digits.
pub open spec fn decimal_value(t: Seq<char>) -> nat
    decreases t.len(),
{
    if t.len() == 0 {
        0
    } else {
        decimal_value(t.drop_last()) * 10 + (t.last() as nat - '0' as nat) as nat
    }
}

/// A channel field: one or more decimal digits whose value is at most 255.
pub open spec fn channel_of(t: Seq<char>) -> Option<u8> {
    if t.len() > 0 && all_digits(t) && decimal_value(t) <= 255 {
        Some(decimal_value(t) as u8)
    } else {
        None
    }
}

/// Every field of a comma list is a channel.
pub open spec fn all_channels(f: Seq<Seq<char>>) -> bool {
    forall|i: int| 0 <= i < f.len() ==> (#[trigger] channel_of(f[i])).is_some()
}

/// The color named by the fields between the parentheses, when there are
/// three or four of them and each is a channel (a fourth, alpha, is checked
/// and dropped).
pub open spec fn color_of_fields(inner: Seq<char>) -> Option<Color> {
    let f = split_commas(inner);
    if (f.len() == 3 || f.len() == 4) && all_channels(f) {
        Some(
            Color {
                red: channel_of(f[0]).unwrap(),
                green: channel_of(f[1]).unwrap(),
                blue: channel_of(f[2]).unwrap(),
            },
        )
    } else {
        None
    }
}

/// The color named by `rgb(...)` or `rgba(...)` around three or four
/// channels; anything else names none.
pub open spec fn parse_color_spec(s: Seq<char>) -> Option<Color> {
    if s.len() >= 6 && s.take(5) == seq!['r', 'g', 'b', 'a', '('] && s.last() == ')' {
        color_of_fields(s.subrange(5, s.len() - 1))
    } else if s.len() >= 5 && s.take(4) == seq!['r', 'g', 'b', '('] && s.last() == ')' {
        color_of_fields(s.subrange(4, s.len() - 1))
    } else {
        None
    }
}

/// Reads the channel field `s[start..end]`; `None` when it is not one.
fn read_channel(s: &str, start: usize, end: usize) -> (r: Option<u8>)
    requires
        start <= end <= s@.len(),
    ensures
        r == channel_of(s@.subrange(start as int, end as int)),
{
    let ghost t = s@.subrange(start as int, end as int);
    let mut v: u32 = 0;
    let mut digits = true;
    let mut i: usize = start;
    while i < end
        invariant
            start <= i <= end <= s@.len(),
            t == s@.subrange(start as int, end as int),
            digits == all_digits(t.take(i - start)),
            digits ==> v as int == if decimal_value(t.take(i - start)) <= 256 {
                decimal_value(t.take(i - start)) as int
            } else {
                256
            },
        decreases end - i,
    {
        let c = s.get_char(i);
        let ghost k = (i - start) as int;
        assert(t.take(k + 1).drop_last() == t.take(k));
        assert(t.take(k + 1).last() == c);
        if '0' <= c && c <= '9' {
            if digits {
                let d = (c as u32) - ('0' as u32);
                let w = v * 10 + d;
                v = if w > 256 { 256 } else { w };
            }
            assert(forall|j: int| 0 <= j < k + 1 ==> t.take(k + 1)[j] == (if j < k { t.take(k)[j] } else { c }));
        } else {
            digits = false;
            assert(!is_digit(t.take(k + 1)[k]));
        }
        i = i + 1;
    }
    assert(t.take(end - start) == t);
    if digits && end > start && v <= 255 {
        Some(v as u8)
    } else {
        None
    }
}

/// Reads the comma list `s[start..end]` and names a color when it holds
/// three or four fields, each a channel.
fn parse_fields(s: &str, start: usize, end: usize) -> (r: Option<Color>)
    requires
        start <= end <= s@.len(),
    ensures
        r == color_of_fields(s@.subrange(start as int, end as int)),
{
    let ghost inner = s@.subrange(start as int, end as int);
    let mut vals: Vec<Option<u8>> = Vec::new();
    let mut fs: usize = start;
    let mut i: usize = start;
    while i < end
        invariant
            start <= fs <= i <= end <= s@.len(),
            inner == s@.subrange(start as int, end as int),
            split_commas(inner.take(i - start)).len() == vals@.len() + 1,
            split_commas(inner.take(i - start)).last() == s@.subrange(fs as int, i as int),
            vals@ == split_commas(inner.take(i - start)).take(vals@.len() as int).map_values(
                |f: Seq<char>| channel_of(f),
            ),
        decreases end - i,
    {
        let ghost k = (i - start) as int;
        let ghost p = split_commas(inner.take(k));
        assert(inner.take(k + 1).drop_last() == inner.take(k));
        assert(inner.take(k + 1).last() == s@[i as int]);
        let c = s.get_char(i);
        if c == ',' {
            let v = read_channel(s, fs, i);
            vals.push(v);
            fs = i + 1;
            assert(p.push(Seq::<char>::empty()).take(vals@.len() as int) =~= p);
            assert(vals@ =~= p.map_values(|f: Seq<char>| channel_of(f)));
        } else {
            assert(s@.subrange(fs as int, i + 1) =~= s@.subrange(fs as int, i as int).push(c));
            assert(p.update(p.len() - 1, p.last().push(c)).take(vals@.len() as int) =~= p.take(
                vals@.len() as int,
            ));
        }
        i = i + 1;
    }
    let last = read_channel(s, fs, end);
    vals.push(last);
    proof {
        assert(inner.take(end - start) =~= inner);
        let f = split_commas(inner);
        assert(f.take(vals@.len() as int) =~= f);
        assert(vals@ =~= f.map_values(|t: Seq<char>| channel_of(t)));
    }
    let n = vals.len();
    if n != 3 && n != 4 {
        return None;
    }
    let mut j: usize = 0;
    while j < n
        invariant
            j <= n == vals@.len(),
            forall|q: int| 0 <= q < j ==> (#[trigger] vals@[q]).is_some(),
            inner == s@.subrange(start as int, end as int),
            vals@ == split_commas(inner).map_values(|t: Seq<char>| channel_of(t)),
        decreases n - j,
    {
        if vals[j].is_none() {
            assert(channel_of(split_commas(inner)[j as int]).is_none());
            return None;
        }
        j = j + 1;
    }
    proof {
        let f = split_commas(inner);
        assert forall|q: int| 0 <= q < f.len() implies (#[trigger] channel_of(f[q])).is_some() by {
            assert(vals@[q] == channel_of(f[q]));
        }
        assert(all_channels(f));
    }
    Some(Color { red: vals[0].unwrap(), green: vals[1].unwrap(), blue: vals[2].unwrap() })
}

/// Parses `rgb(...)` or `rgba(...)` holding three or four comma-separated
/// channels, `R,G,B` or `R,G,B,A`: each is decimal text with a value in
/// `0..=255`; a fourth, alpha, is checked and then ignored.
pub fn parse_color(s: &str) -> (r: Option<Color>)
    ensures
        r == parse_color_spec(s@),
{
    let n = s.unicode_len();
    let ghost sv = s@;
    if n >= 6 && s.get_char(0) == 'r' && s.get_char(1) == 'g' && s.get_char(2) == 'b'
        && s.get_char(3) == 'a' && s.get_char(4) == '(' && s.get_char(n - 1) == ')' {
        assert(sv.take(5) =~= seq!['r', 'g', 'b', 'a', '(']);
        parse_fields(s, 5, n - 1)
    } else if n >= 5 && s.get_char(0) == 'r' && s.get_char(1) == 'g' && s.get_char(2) == 'b'
        && s.get_char(3) == '(' && s.get_char(n - 1) == ')' {
        assert(sv.take(4) =~= seq!['r', 'g', 'b', '(']);
        proof {
            if sv.len() >= 6 && sv.take(5) == seq!['r', 'g', 'b', 'a', '('] {
                assert(sv.take(5)[3] == sv[3]);
            }
        }
        parse_fields(s, 4, n - 1)
    } else {
        proof {
            if sv.len() >= 6 && sv.take(5) == seq!['r', 'g', 'b', 'a', '('] {
                assert(sv.take(5)[0] == sv[0] && sv.take(5)[1] == sv[1] && sv.take(5)[2] == sv[2]);
                assert(sv.take(5)[3] == sv[3] && sv.take(5)[4] == sv[4]);
            }
            if sv.len() >= 5 && sv.take(4) == seq!['r', 'g', 'b', '('] {
                assert(sv.take(4)[0] == sv[0] && sv.take(4)[1] == sv[1] && sv.take(4)[2] == sv[2]);
                assert(sv.take(4)[3] == sv[3]);
            }
        }
        None
    }
}

} // verus!
