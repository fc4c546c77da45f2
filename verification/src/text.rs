use vstd::prelude::*;

verus! {

/// The two text raster variants: `P3` carries three channels per pixel,
/// `P2` a single channel.
#[derive(Clone, Copy, Debug, PartialEq, Eq, Structural)]
pub enum RasterKind {
    Color,
    Gray,
}

/// Numeric value of a decimal digit character, -1 for any other character.
pub open spec fn digit_val(c: char) -> int {
    if c == '0' {
        0
    } else if c == '1' {
        1
    } else if c == '2' {
        2
    } else if c == '3' {
        3
    } else if c == '4' {
        4
    } else if c == '5' {
        5
    } else if c == '6' {
        6
    } else if c == '7' {
        7
    } else if c == '8' {
        8
    } else if c == '9' {
        9
    } else {
        -1
    }
}

pub open spec fn is_dec_digit(c: char) -> bool {
    digit_val(c) >= 0
}

/// The digit character of a value below ten.
pub open spec fn digit_char(d: int) -> char {
    if d == 0 {
        '0'
    } else if d == 1 {
        '1'
    } else if d == 2 {
        '2'
    } else if d == 3 {
        '3'
    } else if d == 4 {
        '4'
    } else if d == 5 {
        '5'
    } else if d == 6 {
        '6'
    } else if d == 7 {
        '7'
    } else if d == 8 {
        '8'
    } else {
        '9'
    }
}

/// Decimal digit string of `n`, most significant digit first, without leading
/// zeros (the single digit `0` for zero).
pub open spec fn dec_digits(n: nat) -> Seq<char>
    decreases n,
{
    if n < 10 {
        seq![digit_char(n as int)]
    } else {
        dec_digits(n / 10) + seq![digit_char((n % 10) as int)]
    }
}

/// Numeric value of a digit string, most significant digit first.
pub open spec fn dec_val(s: Seq<char>) -> int
    decreases s.len(),
{
    if s.len() == 0 {
        0
    } else {
        dec_val(s.drop_last()) * 10 + digit_val(s.last())
    }
}

pub open spec fn all_digits(s: Seq<char>) -> bool {
    forall|i: int| 0 <= i < s.len() ==> is_dec_digit(s[i])
}

/// Index of the first non-digit character at or after `i`, or the length of
/// the sequence if digits run to its end.
pub open spec fn digits_end(s: Seq<char>, i: int) -> int
    decreases s.len() - i,
{
    if i < 0 || i >= s.len() {
        i
    } else if !is_dec_digit(s[i]) {
        i
    } else {
        digits_end(s, i + 1)
    }
}

pub proof fn lemma_digit_char_val(d: int)
    requires
        0 <= d < 10,
    ensures
        digit_val(digit_char(d)) == d,
        is_dec_digit(digit_char(d)),
{
}

/// Appending a digit multiplies the value by ten and adds the digit.
pub proof fn lemma_dec_val_push(s: Seq<char>, c: char)
    ensures
        dec_val(s.push(c)) == dec_val(s) * 10 + digit_val(c),
{
    assert(s.push(c).drop_last() =~= s);
    assert(s.push(c).last() == c);
}

/// The digit string of `n` is non-empty, consists of digits alone, and its
/// value is `n` again.
pub proof fn lemma_dec_digits_value(n: nat)
    ensures
        dec_val(dec_digits(n)) == n,
        all_digits(dec_digits(n)),
        dec_digits(n).len() >= 1,
    decreases n,
{
    if n < 10 {
        lemma_digit_char_val(n as int);
        let s = dec_digits(n);
        assert(s.drop_last() =~= Seq::<char>::empty());
        assert(s.last() == digit_char(n as int));
        assert(dec_val(Seq::<char>::empty()) == 0);
    } else {
        lemma_dec_digits_value(n / 10);
        lemma_digit_char_val((n % 10) as int);
        let pre = dec_digits(n / 10);
        let c = digit_char((n % 10) as int);
        assert(dec_digits(n) =~= pre.push(c));
        lemma_dec_val_push(pre, c);
        vstd::arithmetic::div_mod::lemma_fundamental_div_mod(n as int, 10);
        assert forall|i: int| 0 <= i < dec_digits(n).len() implies is_dec_digit(
            dec_digits(n)[i],
        ) by {
            if i < pre.len() {
                assert(dec_digits(n)[i] == pre[i]);
            } else {
                assert(dec_digits(n)[i] == c);
            }
        }
    }
}

/// A run of digits from `i` to `j`, stopped by the end of the sequence or a
/// non-digit at `j`, puts the first non-digit index at exactly `j`.
pub proof fn lemma_digits_end_run(s: Seq<char>, i: int, j: int)
    requires
        0 <= i <= j <= s.len(),
        forall|k: int| i <= k < j ==> is_dec_digit(s[k]),
        j == s.len() || !is_dec_digit(s[j]),
    ensures
        digits_end(s, i) == j,
    decreases j - i,
{
    if i < j {
        lemma_digits_end_run(s, i + 1, j);
    }
}

/// Tests a character for being a decimal digit and gives its value.
fn digit_of(c: char) -> (r: Option<u32>)
    ensures
        (r matches Some(d) ==> is_dec_digit(c) && d as int == digit_val(c)),
        r is None ==> !is_dec_digit(c),
{
    match c {
        '0' => Some(0),
        '1' => Some(1),
        '2' => Some(2),
        '3' => Some(3),
        '4' => Some(4),
        '5' => Some(5),
        '6' => Some(6),
        '7' => Some(7),
        '8' => Some(8),
        '9' => Some(9),
        _ => None,
    }
}

/// The single-character string of a decimal digit.
fn digit_str(d: u32) -> (s: &'static str)
    requires
        d < 10,
    ensures
        s@ == seq![digit_char(d as int)],
{
    proof {
        reveal_strlit("0");
        reveal_strlit("1");
        reveal_strlit("2");
        reveal_strlit("3");
        reveal_strlit("4");
        reveal_strlit("5");
        reveal_strlit("6");
        reveal_strlit("7");
        reveal_strlit("8");
        reveal_strlit("9");
        assert("0"@ =~= seq!['0']);
        assert("1"@ =~= seq!['1']);
        assert("2"@ =~= seq!['2']);
        assert("3"@ =~= seq!['3']);
        assert("4"@ =~= seq!['4']);
        assert("5"@ =~= seq!['5']);
        assert("6"@ =~= seq!['6']);
        assert("7"@ =~= seq!['7']);
        assert("8"@ =~= seq!['8']);
        assert("9"@ =~= seq!['9']);
    }
    match d {
        0 => "0",
        1 => "1",
        2 => "2",
        3 => "3",
        4 => "4",
        5 => "5",
        6 => "6",
        7 => "7",
        8 => "8",
        _ => "9",
    }
}

/// Decimal text of a 32-bit value, most significant digit first.
pub fn u32_to_dec(n: u32) -> (s: String)
    ensures
        s@ == dec_digits(n as nat),
    decreases n,
{
    if n < 10 {
        let mut s = String::new();
        s.append(digit_str(n));
        assert(s@ =~= dec_digits(n as nat));
        s
    } else {
        let mut s = u32_to_dec(n / 10);
        s.append(digit_str(n % 10));
        assert(s@ =~= dec_digits(n as nat));
        s
    }
}

/// Scans the digit run of `s` that starts at `start`: returns the index of
/// the first non-digit and the run's value, or `None` in place of a value
/// that does not fit in 32 bits.
pub fn scan_number(s: &str, start: usize) -> (r: (usize, Option<u32>))
    requires
        start as int <= s@.len(),
    ensures
        r.0 as int == digits_end(s@, start as int),
        (match r.1 {
            Some(v) => v as int == dec_val(s@.subrange(start as int, r.0 as int)),
            None => dec_val(s@.subrange(start as int, r.0 as int)) > u32::MAX,
        }),
{
    let len: usize = s.unicode_len();
    let mut i: usize = start;
    let mut acc: u32 = 0;
    let mut over: bool = false;
    while i < len
        invariant
            len == s@.len(),
            start <= i <= len,
            forall|k: int| start <= k < i ==> is_dec_digit(s@[k]),
            !over ==> acc as int == dec_val(s@.subrange(start as int, i as int)),
            over ==> dec_val(s@.subrange(start as int, i as int)) > u32::MAX,
        ensures
            start <= i <= len,
            forall|k: int| start <= k < i ==> is_dec_digit(s@[k]),
            i == len || !is_dec_digit(s@[i as int]),
            !over ==> acc as int == dec_val(s@.subrange(start as int, i as int)),
            over ==> dec_val(s@.subrange(start as int, i as int)) > u32::MAX,
        decreases len - i,
    {
        let c = s.get_char(i);
        match digit_of(c) {
            None => {
                break ;
            },
            Some(d) => {
                proof {
                    let pre = s@.subrange(start as int, i as int);
                    assert(s@.subrange(start as int, i as int + 1) =~= pre.push(c));
                    lemma_dec_val_push(pre, c);
                }
                let next: u64 = (acc as u64) * 10 + (d as u64);
                if over || next > (u32::MAX as u64) {
                    over = true;
                } else {
                    acc = next as u32;
                }
                i = i + 1;
            },
        }
    }
    proof {
        lemma_digits_end_run(s@, start as int, i as int);
    }
    if over {
        (i, None)
    } else {
        (i, Some(acc))
    }
}

/// Parse of a text raster header, as written by `build_header`: the format
/// token line (`P3` or `P2`), the `"{width} {height}"` line and the
/// `"{max}"` line. Anything after the third line break is ignored, and a
/// dimension that does not fit in 32 bits rejects the header.
pub open spec fn parse_header_spec(s: Seq<char>) -> Option<(RasterKind, u32, u32, u32)> {
    if s.len() < 3 || s[0] != 'P' || (s[1] != '2' && s[1] != '3') || s[2] != '\n' {
        None
    } else {
        let kind: RasterKind = if s[1] == '3' {
            RasterKind::Color
        } else {
            RasterKind::Gray
        };
        let e1: int = digits_end(s, 3);
        if e1 == 3 || e1 >= s.len() || s[e1] != ' ' {
            None
        } else {
            let e2: int = digits_end(s, e1 + 1);
            if e2 == e1 + 1 || e2 >= s.len() || s[e2] != '\n' {
                None
            } else {
                let e3: int = digits_end(s, e2 + 1);
                if e3 == e2 + 1 || e3 >= s.len() || s[e3] != '\n' {
                    None
                } else {
                    let w: int = dec_val(s.subrange(3, e1));
                    let h: int = dec_val(s.subrange(e1 + 1, e2));
                    let m: int = dec_val(s.subrange(e2 + 1, e3));
                    if w > u32::MAX || h > u32::MAX || m > u32::MAX {
                        None
                    } else {
                        Some((kind, w as u32, h as u32, m as u32))
                    }
                }
            }
        }
    }
}

/// Parses a text raster header from the front of `s`.
pub fn parse_header(s: &str) -> (r: Option<(RasterKind, u32, u32, u32)>)
    ensures
        r == parse_header_spec(s@),
{
    let len: usize = s.unicode_len();
    if len < 3 {
        return None;
    }
    if s.get_char(0) != 'P' {
        return None;
    }
    let c1 = s.get_char(1);
    let kind = if c1 == '3' {
        RasterKind::Color
    } else if c1 == '2' {
        RasterKind::Gray
    } else {
        return None;
    };
    if s.get_char(2) != '\n' {
        return None;
    }
    let (e1, v1) = scan_number(s, 3);
    if e1 == 3 || e1 >= len {
        return None;
    }
    if s.get_char(e1) != ' ' {
        return None;
    }
    let (e2, v2) = scan_number(s, e1 + 1);
    if e2 == e1 + 1 || e2 >= len {
        return None;
    }
    if s.get_char(e2) != '\n' {
        return None;
    }
    let (e3, v3) = scan_number(s, e2 + 1);
    if e3 == e2 + 1 || e3 >= len {
        return None;
    }
    if s.get_char(e3) != '\n' {
        return None;
    }
    match (v1, v2, v3) {
        (Some(w), Some(h), Some(m)) => Some((kind, w, h, m)),
        _ => None,
    }
}

/// The two characters of a variant's format token.
pub open spec fn token_chars(kind: RasterKind) -> Seq<char> {
    match kind {
        RasterKind::Color => seq!['P', '3'],
        RasterKind::Gray => seq!['P', '2'],
    }
}

/// The text header of a raster: the format token line, the
/// `"{width} {height}"` line and the `"{max}"` line.
pub open spec fn header_chars(kind: RasterKind, w: nat, h: nat, m: nat) -> Seq<char> {
    token_chars(kind) + seq!['\n'] + dec_digits(w) + seq![' '] + dec_digits(h) + seq!['\n']
        + dec_digits(m) + seq!['\n']
}

/// Builds the text header of a raster of the given variant and dimensions.
pub fn build_header(kind: RasterKind, width: u32, height: u32, max: u32) -> (s: String)
    ensures
        s@ == header_chars(kind, width as nat, height as nat, max as nat),
{
    let mut s: String = match kind {
        RasterKind::Color => String::from_str("P3\n"),
        RasterKind::Gray => String::from_str("P2\n"),
    };
    let wd = u32_to_dec(width);
    s.append(wd.as_str());
    s.append(" ");
    let hd = u32_to_dec(height);
    s.append(hd.as_str());
    s.append("\n");
    let md = u32_to_dec(max);
    s.append(md.as_str());
    s.append("\n");
    proof {
        reveal_strlit("P3\n");
        reveal_strlit("P2\n");
        reveal_strlit(" ");
        reveal_strlit("\n");
        assert("P3\n"@ =~= seq!['P', '3', '\n']);
        assert("P2\n"@ =~= seq!['P', '2', '\n']);
        assert(" "@ =~= seq![' ']);
        assert("\n"@ =~= seq!['\n']);
        assert(s@ =~= header_chars(kind, width as nat, height as nat, max as nat));
    }
    s
}

/// Header of the three-channel (color) text raster format.
pub fn prelude(width: u32, height: u32, max: u32) -> (s: String)
    ensures
        s@ == header_chars(RasterKind::Color, width as nat, height as nat, max as nat),
{
    build_header(RasterKind::Color, width, height, max)
}

/// Header of the single-channel (grayscale) text raster format.
pub fn prelude_gray(width: u32, height: u32, max: u32) -> (s: String)
    ensures
        s@ == header_chars(RasterKind::Gray, width as nat, height as nat, max as nat),
{
    build_header(RasterKind::Gray, width, height, max)
}

/// A written header, followed by any text at all, parses back to exactly the
/// variant and dimensions it was written for.
pub proof fn lemma_header_parses(kind: RasterKind, w: u32, h: u32, m: u32, rest: Seq<char>)
    ensures
        parse_header_spec(header_chars(kind, w as nat, h as nat, m as nat) + rest) == Some(
            (kind, w, h, m),
        ),
{
    let dw = dec_digits(w as nat);
    let dh = dec_digits(h as nat);
    let dm = dec_digits(m as nat);
    lemma_dec_digits_value(w as nat);
    lemma_dec_digits_value(h as nat);
    lemma_dec_digits_value(m as nat);
    let s = header_chars(kind, w as nat, h as nat, m as nat) + rest;
    let e1: int = 3 + dw.len() as int;
    let e2: int = e1 + 1 + dh.len() as int;
    let e3: int = e2 + 1 + dm.len() as int;
    assert(s.len() == e3 + 1 + rest.len());
    assert(s[0] == 'P');
    assert(s[2] == '\n');
    assert(s[e1] == ' ');
    assert(s[e2] == '\n');
    assert(s[e3] == '\n');
    assert forall|k: int| 3 <= k < e1 implies is_dec_digit(s[k]) by {
        assert(s[k] == dw[k - 3]);
    }
    assert forall|k: int| e1 + 1 <= k < e2 implies is_dec_digit(s[k]) by {
        assert(s[k] == dh[k - (e1 + 1)]);
    }
    assert forall|k: int| e2 + 1 <= k < e3 implies is_dec_digit(s[k]) by {
        assert(s[k] == dm[k - (e2 + 1)]);
    }
    lemma_digits_end_run(s, 3, e1);
    lemma_digits_end_run(s, e1 + 1, e2);
    lemma_digits_end_run(s, e2 + 1, e3);
    assert(s.subrange(3, e1) =~= dw);
    assert(s.subrange(e1 + 1, e2) =~= dh);
    assert(s.subrange(e2 + 1, e3) =~= dm);
    if kind is Color {
        assert(s[1] == '3');
    } else {
        assert(s[1] == '2');
    }
    assert(parse_header_spec(s) == Some((kind, w, h, m)));
}

/// Round trip: a written header parses back to exactly the variant and
/// dimensions it was written for.
pub proof fn lemma_header_round_trip(kind: RasterKind, w: u32, h: u32, m: u32)
    ensures
        parse_header_spec(header_chars(kind, w as nat, h as nat, m as nat)) == Some(
            (kind, w, h, m),
        ),
{
    lemma_header_parses(kind, w, h, m, Seq::<char>::empty());
    assert(header_chars(kind, w as nat, h as nat, m as nat) + Seq::<char>::empty()
        =~= header_chars(kind, w as nat, h as nat, m as nat));
}

} // verus!
